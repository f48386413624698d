//! A geotagged message board: messages tagged with a bounding box, kept in
//! arrival order, queried by viewport, and evicted once they grow too old.

mod clock;
pub mod geometry;
pub mod ingest;
pub mod message;
pub mod store;

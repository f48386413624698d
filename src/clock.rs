//! The wall clock, in whole seconds since the Unix epoch.
use vstd::prelude::*;

verus! {

/// Relies on chrono's `DateTime::<Utc>::from(SystemTime)` and `timestamp()`:
/// the system time in seconds since the Unix epoch, negative when the clock
/// reads earlier than the epoch. Nothing is promised of the value.
#[verifier::external_body]
pub(crate) fn now_seconds() -> (r: i64) {
    chrono::DateTime::<chrono::Utc>::from(std::time::SystemTime::now()).timestamp()
}

} // verus!

//! Points and bounding boxes in latitude/longitude space.
//!
//! Coordinates are fixed-point integers in micro-degrees, so that every
//! comparison the predicates make is exact.
use vstd::prelude::*;

verus! {

/// Number of coordinate units in one degree.
pub const UNITS_PER_DEGREE: i64 = 1_000_000;

/// Half of the side of a box made by `BoundingBox::random`.
pub const RANDOM_HALF_WIDTH: i64 = 1_000_000;

/// Southern limit of latitudes, in coordinate units.
pub const LAT_MIN: i64 = -90_000_000;

/// Northern limit of latitudes, in coordinate units.
pub const LAT_MAX: i64 = 90_000_000;

/// Western limit of longitudes, in coordinate units.
pub const LON_MIN: i64 = -180_000_000;

/// Eastern limit of longitudes, in coordinate units.
pub const LON_MAX: i64 = 180_000_000;

#[derive(Clone, Copy, Debug, PartialEq, Eq, Structural)]
pub struct Point {
    pub lat: i64,
    pub lon: i64,
}

/// A rectangle given by its northwest and southeast corners. The corners are
/// not required to be in order: on each axis the box spans the interval
/// between them.
#[derive(Clone, Copy, Debug, PartialEq, Eq, Structural)]
pub struct BoundingBox {
    pub nw: Point,
    pub se: Point,
}

/// The smaller of two coordinates.
pub open spec fn lo(a: i64, b: i64) -> i64 {
    if a <= b {
        a
    } else {
        b
    }
}

/// The larger of two coordinates.
pub open spec fn hi(a: i64, b: i64) -> i64 {
    if a <= b {
        b
    } else {
        a
    }
}

/// The closed intervals spanned by `a1, a2` and by `b1, b2` meet.
pub open spec fn spans_meet(a1: i64, a2: i64, b1: i64, b2: i64) -> bool {
    lo(a1, a2) <= hi(b1, b2) && lo(b1, b2) <= hi(a1, a2)
}

/// The interval spanned by `b1, b2` lies inside the one spanned by `a1, a2`.
pub open spec fn span_inside(b1: i64, b2: i64, a1: i64, a2: i64) -> bool {
    lo(a1, a2) <= lo(b1, b2) && hi(b1, b2) <= hi(a1, a2)
}

impl BoundingBox {
    /// The closed rectangles meet. Each axis is taken as the interval between
    /// the two corners, whichever order they are given in.
    pub open spec fn spec_overlap(self, other: BoundingBox) -> bool {
        spans_meet(self.se.lat, self.nw.lat, other.se.lat, other.nw.lat) && spans_meet(
            self.nw.lon,
            self.se.lon,
            other.nw.lon,
            other.se.lon,
        )
    }

    /// The point lies in the closed rectangle.
    pub open spec fn contains(self, p: Point) -> bool {
        lo(self.se.lat, self.nw.lat) <= p.lat && p.lat <= hi(self.se.lat, self.nw.lat) && lo(
            self.nw.lon,
            self.se.lon,
        ) <= p.lon && p.lon <= hi(self.nw.lon, self.se.lon)
    }

    /// The rectangle of `inner` lies inside that of `self`.
    pub open spec fn encloses(self, inner: BoundingBox) -> bool {
        span_inside(inner.se.lat, inner.nw.lat, self.se.lat, self.nw.lat) && span_inside(
            inner.nw.lon,
            inner.se.lon,
            self.nw.lon,
            self.se.lon,
        )
    }

    /// Whether the two closed rectangles share a point.
    pub fn overlap(&self, other: &BoundingBox) -> (r: bool)
        ensures
            r == self.spec_overlap(*other),
    {
        spans_meet_exec(self.se.lat, self.nw.lat, other.se.lat, other.nw.lat) && spans_meet_exec(
            self.nw.lon,
            self.se.lon,
            other.nw.lon,
            other.se.lon,
        )
    }

    /// The square box of half-side `half_width` centred on `center`.
    pub fn around(center: Point, half_width: i64) -> (r: BoundingBox)
        requires
            0 <= half_width,
            i64::MIN + half_width <= center.lat,
            center.lat <= i64::MAX - half_width,
            i64::MIN + half_width <= center.lon,
            center.lon <= i64::MAX - half_width,
        ensures
            r.nw.lat == center.lat + half_width,
            r.nw.lon == center.lon - half_width,
            r.se.lat == center.lat - half_width,
            r.se.lon == center.lon + half_width,
    {
        let nw = Point { lat: center.lat + half_width, lon: center.lon - half_width };
        let se = Point { lat: center.lat - half_width, lon: center.lon + half_width };
        BoundingBox { nw, se }
    }

    /// A box of half-side one degree centred on a uniformly drawn point of
    /// `[-90, 90) x [-180, 180)` degrees; for synthetic load.
    pub fn random() -> (r: BoundingBox)
        ensures
            r.nw.lat - r.se.lat == 2 * RANDOM_HALF_WIDTH,
            r.se.lon - r.nw.lon == 2 * RANDOM_HALF_WIDTH,
            LAT_MIN <= r.nw.lat - RANDOM_HALF_WIDTH < LAT_MAX,
            LON_MIN <= r.nw.lon + RANDOM_HALF_WIDTH < LON_MAX,
    {
        let center = Point {
            lat: uniform_in(LAT_MIN, LAT_MAX),
            lon: uniform_in(LON_MIN, LON_MAX),
        };
        BoundingBox::around(center, RANDOM_HALF_WIDTH)
    }
}

/// Whether the closed intervals spanned by `a1, a2` and by `b1, b2` meet.
fn spans_meet_exec(a1: i64, a2: i64, b1: i64, b2: i64) -> (r: bool)
    ensures
        r == spans_meet(a1, a2, b1, b2),
{
    let (alo, ahi) = if a1 <= a2 {
        (a1, a2)
    } else {
        (a2, a1)
    };
    let (blo, bhi) = if b1 <= b2 {
        (b1, b2)
    } else {
        (b2, b1)
    };
    alo <= bhi && blo <= ahi
}

/// Relies on rand's `thread_rng().gen_range(lo..hi)`: a value of the half-open
/// range, which must not be empty.
#[verifier::external_body]
fn uniform_in(lo: i64, hi: i64) -> (r: i64)
    requires
        lo < hi,
    ensures
        lo <= r < hi,
{
    rand::Rng::gen_range(&mut rand::thread_rng(), lo..hi)
}

/// Two boxes that share a point overlap.
pub proof fn lemma_shared_point_overlaps(a: BoundingBox, b: BoundingBox, p: Point)
    requires
        a.contains(p),
        b.contains(p),
    ensures
        a.spec_overlap(b),
{
}

/// Two boxes overlap exactly when they share a point.
pub proof fn lemma_overlap_has_shared_point(a: BoundingBox, b: BoundingBox)
    requires
        a.spec_overlap(b),
    ensures
        exists|p: Point| a.contains(p) && b.contains(p),
{
    let p = Point {
        lat: hi(lo(a.se.lat, a.nw.lat), lo(b.se.lat, b.nw.lat)),
        lon: hi(lo(a.nw.lon, a.se.lon), lo(b.nw.lon, b.se.lon)),
    };
    assert(a.contains(p) && b.contains(p));
}

/// The overlap test does not depend on the order of its arguments.
pub proof fn lemma_overlap_symmetric(a: BoundingBox, b: BoundingBox)
    ensures
        a.spec_overlap(b) == b.spec_overlap(a),
{
}

/// Enlarging a box never loses an overlap.
pub proof fn lemma_overlap_enlarged(a: BoundingBox, b: BoundingBox, c: BoundingBox)
    requires
        a.spec_overlap(b),
        c.encloses(b),
    ensures
        a.spec_overlap(c),
{
}

} // verus!

//! The static road: a fixed width and lane count centered on an
//! x-coordinate, with two vertical border segments that bound the
//! drivable surface, and derived lane-center x-coordinates.

use vstd::prelude::*;
use crate::geometry::Point;
use crate::rng::random_in_range;

verus! {

/// Half-length of a border segment along the track, in milli-pixels.
pub const ROAD_EXTENT: i64 = 1_000_000_000;

/// Half of [`ROAD_EXTENT`]: borders run this far both ways from zero.
pub const HALF_EXTENT: i64 = 500_000_000;

/// Where a border starts along the track: minus [`HALF_EXTENT`].
pub const NEG_HALF_EXTENT: i64 = -500_000_000;

/// Magnitude bound on the road's center and width, in milli-pixels.
pub const ROAD_BOUND: i64 = 1_000_000_000;

/// A static border segment bounding the drivable surface.
pub struct Border {
    pub start: Point,
    pub end: Point,
}

impl Border {
    /// A border from `start` to `end`.
    pub fn new(start: Point, end: Point) -> (r: Border)
        ensures
            r.start == start,
            r.end == end,
    {
        Border { start, end }
    }
}

/// The road model: center, width, lane count, derived edges, and the
/// two border segments. Immutable after construction.
pub struct Road {
    pub x: i64,
    pub width: i64,
    pub lanes: i64,
    pub left: i64,
    pub right: i64,
    pub top: i64,
    pub bottom: i64,
    pub borders: Vec<Border>,
}

impl Road {
    /// Well-formed: ranges in bounds, edges derived from center and
    /// width, and exactly the two vertical borders at the edges.
    pub open spec fn wf(self) -> bool {
        &&& 1 <= self.lanes <= 1000
        &&& 0 <= self.width <= ROAD_BOUND
        &&& -ROAD_BOUND <= self.x <= ROAD_BOUND
        &&& self.left == self.x - self.width / 2
        &&& self.right == self.x + self.width / 2
        &&& self.borders@.len() == 2
        &&& self.borders@[0].start == (Point { x: self.left, y: NEG_HALF_EXTENT })
        &&& self.borders@[0].end == (Point { x: self.left, y: HALF_EXTENT })
        &&& self.borders@[1].start == (Point { x: self.right, y: NEG_HALF_EXTENT })
        &&& self.borders@[1].end == (Point { x: self.right, y: HALF_EXTENT })
    }

    /// A road of `lanes` lanes of total `width`, centered on `x`, with
    /// its two borders running the whole track.
    pub fn new(x: i64, width: i64, lanes: i64) -> (r: Road)
        requires
            1 <= lanes <= 1000,
            0 <= width <= ROAD_BOUND,
            -ROAD_BOUND <= x <= ROAD_BOUND,
        ensures
            r.wf(),
            r.x == x,
            r.width == width,
            r.lanes == lanes,
            r.top == -ROAD_EXTENT,
            r.bottom == ROAD_EXTENT,
    {
        let left = x - width / 2;
        let right = x + width / 2;
        let mut borders: Vec<Border> = Vec::new();
        borders.push(
            Border::new(
                Point { x: left, y: NEG_HALF_EXTENT },
                Point { x: left, y: HALF_EXTENT },
            ),
        );
        borders.push(
            Border::new(
                Point { x: right, y: NEG_HALF_EXTENT },
                Point { x: right, y: HALF_EXTENT },
            ),
        );
        Road { x, width, lanes, left, right, top: -ROAD_EXTENT, bottom: ROAD_EXTENT, borders }
    }

    /// The x-coordinate a lane's center, for lane indices below the
    /// lane count; `None` for an out-of-range lane index.
    pub fn lane_center(&self, lane: u32) -> (r: Option<i64>)
        requires
            self.wf(),
        ensures
            r is Some <==> (lane as int) < self.lanes,
            r is Some ==> r->Some_0 == self.left + self.width / self.lanes / 2 + lane * (
            self.width / self.lanes),
            r is Some ==> -(3 * ROAD_BOUND) <= r->Some_0 <= 3 * ROAD_BOUND,
    {
        let line_width = self.width / self.lanes;
        if (lane as i64) < self.lanes {
            assert(0 <= (lane as int) * line_width <= self.width) by (nonlinear_arith)
                requires
                    0 <= lane as int,
                    lane as int <= self.lanes - 1,
                    line_width == self.width / self.lanes,
                    0 <= self.width,
                    1 <= self.lanes,
            ;
            Some(self.left + line_width / 2 + (lane as i64) * line_width)
        } else {
            None
        }
    }

    /// A uniformly random valid lane index.
    pub fn random_lane_idx(&self) -> (r: u32)
        requires
            self.wf(),
        ensures
            (r as int) < self.lanes,
    {
        let v = random_in_range(0, self.lanes);
        v as u32
    }
}

} // verus!

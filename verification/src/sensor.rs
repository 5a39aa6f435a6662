//! Sensors: bundles of rays at fixed angular offsets from the agent's
//! forward axis. A ray's live segment is recomputed every frame from
//! the agent's pose; casting it against obstacle segments happens in
//! the agent module, which owns the traffic snapshot.

use vstd::prelude::*;
use crate::geometry::{muldiv, spec_muldiv, lemma_muldiv_bound, Point};
use crate::trig::{normalize_mdeg, sin_mdeg, cos_mdeg, spec_sin, spec_cos, FULL_TURN};

verus! {

/// Largest ray length, in milli-pixels.
pub const RAY_BOUND: i64 = 1_000_000_000;

/// Magnitude bound on a ray's angular offset, in millidegrees.
pub const ANGLE_BOUND: i64 = 1_000_000;

/// Magnitude bound on a ray's base-point coordinates, in milli-pixels.
pub const BASE_BOUND: i64 = 1_500_000_000_000;

/// Where on the agent's sprite a sensor is anchored.
pub enum SensorPos {
    Center,
    TopLeft,
    TopRight,
    BottomLeft,
    BottomRight,
    CenterLeft,
    CenterRight,
}

/// Which way a sensor's ray bundle faces relative to the agent.
pub enum Facing {
    Forward,
    Backward,
    LeftSide,
    RightSide,
}

/// A single ray: a length and a fixed angular offset from the agent's
/// forward axis, both fixed at construction.
pub struct Ray {
    pub length: i64,
    pub angle: i64,
}

/// The angular offset a facing adds to every ray of a sensor.
pub open spec fn facing_offset(f: Facing) -> int {
    match f {
        Facing::Forward => 0,
        Facing::Backward => 180_000,
        Facing::LeftSide => 90_000,
        Facing::RightSide => -90_000,
    }
}

/// Ray `i` of a bundle of `count` rays spread evenly over `spread`
/// millidegrees: the first ray sits at `spread / 2`, the last at
/// `-spread / 2`; a single ray sits centered at zero.
pub open spec fn spread_angle(spread: int, count: int, i: int) -> int {
    if count == 1 {
        0
    } else {
        spread / 2 - spread * i / (count - 1)
    }
}

/// The angle the ray leaves at for an agent heading: the ray's own
/// offset minus the heading, brought into `[0, 360)` degrees.
pub open spec fn ray_cast_angle(ray_angle: int, heading: int) -> int {
    (ray_angle - heading) % (FULL_TURN as int)
}

/// The x-step of a ray of `length` at cast angle `oa`.
pub open spec fn ray_dx(length: int, oa: int) -> int {
    spec_muldiv(length, spec_sin(oa), 1000)
}

/// The y-step of a ray of `length` at cast angle `oa`; negative y is
/// forward along the track.
pub open spec fn ray_dy(length: int, oa: int) -> int {
    spec_muldiv(length, spec_cos(oa), 1000)
}

impl Ray {
    /// The ray's parameters lie in range.
    pub open spec fn wf(self) -> bool {
        0 <= self.length <= RAY_BOUND && -ANGLE_BOUND <= self.angle <= ANGLE_BOUND
    }

    /// A ray of the given length and angular offset.
    pub fn new(length: i64, angle: i64) -> (r: Ray)
        ensures
            r.length == length,
            r.angle == angle,
    {
        Ray { length, angle }
    }

    /// The ray's live segment for a base point and agent heading:
    /// from the base point, `length` far along direction
    /// `(sin a, -cos a)` where `a` is the ray's offset rotated with
    /// the agent. The endpoint stays within the ray's length of the
    /// base in each coordinate.
    pub fn segment(&self, base_x: i64, base_y: i64, heading: i64) -> (r: (Point, Point))
        requires
            self.wf(),
            -BASE_BOUND <= base_x <= BASE_BOUND,
            -BASE_BOUND <= base_y <= BASE_BOUND,
            0 <= heading < FULL_TURN,
        ensures
            r.0 == (Point { x: base_x, y: base_y }),
            r.1.x == base_x + ray_dx(self.length as int, ray_cast_angle(self.angle as int, heading as int)),
            r.1.y == base_y - ray_dy(self.length as int, ray_cast_angle(self.angle as int, heading as int)),
            -BASE_BOUND - RAY_BOUND <= r.1.x <= BASE_BOUND + RAY_BOUND,
            -BASE_BOUND - RAY_BOUND <= r.1.y <= BASE_BOUND + RAY_BOUND,
    {
        let oa = normalize_mdeg(self.angle - heading);
        let s = sin_mdeg(oa);
        let c = cos_mdeg(oa);
        proof {
            lemma_muldiv_bound(self.length as int, s as int, 1000, RAY_BOUND as int, 1000);
            lemma_muldiv_bound(self.length as int, c as int, 1000, RAY_BOUND as int, 1000);
        }
        let dx = muldiv(self.length, s, 1000);
        let dy = muldiv(self.length, c, 1000);
        (Point { x: base_x, y: base_y }, Point { x: base_x + dx, y: base_y - dy })
    }
}

/// A sensor: an ordered bundle of rays anchored at a fixed spot on the
/// agent. Ray order is significant: the readings feed the network's
/// input vector in this order.
pub struct Sensor {
    pub rays: Vec<Ray>,
    pub pos: SensorPos,
}

impl Sensor {
    /// Every ray in range.
    pub open spec fn wf(self) -> bool {
        forall|i: int| 0 <= i < self.rays@.len() ==> (#[trigger] self.rays@[i]).wf()
    }

    /// A bundle of `ray_count` rays of `ray_length`, spread evenly
    /// over `ray_spread` millidegrees around the facing's axis.
    pub fn new(ray_count: u32, ray_length: i64, ray_spread: i64, pos: SensorPos, facing: Facing) -> (r: Sensor)
        requires
            1 <= ray_count <= 10_000,
            0 <= ray_length <= RAY_BOUND,
            0 <= ray_spread <= FULL_TURN,
        ensures
            r.wf(),
            r.rays@.len() == ray_count,
            r.pos == pos,
            forall|i: int|
                0 <= i < ray_count ==> (#[trigger] r.rays@[i]).length == ray_length
                    && r.rays@[i].angle == facing_offset(facing) + spread_angle(
                    ray_spread as int,
                    ray_count as int,
                    i,
                ),
    {
        let off: i64 = match facing {
            Facing::Forward => 0,
            Facing::Backward => 180_000,
            Facing::LeftSide => 90_000,
            Facing::RightSide => -90_000,
        };
        let n = ray_count as usize;
        let mut rays: Vec<Ray> = Vec::new();
        for i in 0..n
            invariant
                n == ray_count,
                1 <= ray_count <= 10_000,
                0 <= ray_length <= RAY_BOUND,
                0 <= ray_spread <= FULL_TURN,
                off == facing_offset(facing),
                -180_000 <= off <= 180_000,
                rays@.len() == i,
                forall|k: int|
                    0 <= k < i ==> (#[trigger] rays@[k]).length == ray_length && rays@[k].angle
                        == facing_offset(facing) + spread_angle(
                        ray_spread as int,
                        ray_count as int,
                        k,
                    ) && rays@[k].wf(),
        {
            let base: i64 = if n == 1 {
                0
            } else {
                assert(0 <= ray_spread * (i as int) <= ray_spread * (ray_count - 1))
                    by (nonlinear_arith)
                    requires
                        0 <= ray_spread,
                        0 <= i as int <= ray_count - 1,
                ;
                assert(ray_spread * (ray_count - 1) <= 360_000 * 10_000) by (nonlinear_arith)
                    requires
                        0 <= ray_spread <= 360_000,
                        ray_count <= 10_000,
                ;
                let scaled: i64 = ray_spread * (i as i64);
                assert(0 <= ray_spread * (i as int) / (ray_count - 1) <= ray_spread)
                    by (nonlinear_arith)
                    requires
                        0 <= ray_spread * (i as int) <= ray_spread * (ray_count - 1),
                        1 <= ray_count - 1,
                ;
                ray_spread / 2 - scaled / (ray_count as i64 - 1)
            };
            rays.push(Ray { length: ray_length, angle: off + base });
        }
        Sensor { rays, pos }
    }

    /// Where the sensor's rays are anchored on a sprite of scaled size
    /// `w` by `h` whose top-left corner sits at `(x, y)`.
    pub fn base_point(&self, x: i64, y: i64, w: i64, h: i64) -> (r: (i64, i64))
        requires
            -BASE_BOUND <= x <= BASE_BOUND,
            -BASE_BOUND <= y <= BASE_BOUND,
            0 <= w <= 1_000_000_000,
            0 <= h <= 1_000_000_000,
        ensures
            r.0 == base_point_spec(self.pos, x as int, y as int, w as int, h as int).0,
            r.1 == base_point_spec(self.pos, x as int, y as int, w as int, h as int).1,
            -BASE_BOUND - 1_000_000_000 <= r.0 <= BASE_BOUND + 1_000_000_000,
            -BASE_BOUND - 1_000_000_000 <= r.1 <= BASE_BOUND + 1_000_000_000,
    {
        match self.pos {
            SensorPos::TopLeft => (x + w * 150 / 1000, y + h * 100 / 1000),
            SensorPos::TopRight => (x + w * 850 / 1000, y + h * 100 / 1000),
            SensorPos::BottomLeft => (x + w * 150 / 1000, y + h * 900 / 1000),
            SensorPos::BottomRight => (x + w * 850 / 1000, y + h * 900 / 1000),
            SensorPos::CenterLeft => (x + w * 150 / 1000, y + h / 2),
            SensorPos::CenterRight => (x + w * 850 / 1000, y + h / 2),
            SensorPos::Center => (x + w / 2, y + h / 2),
        }
    }
}

/// The anchor point of a sensor position on a sprite of scaled size
/// `w` by `h` at `(x, y)`: fixed proportions of the sprite's extent.
pub open spec fn base_point_spec(pos: SensorPos, x: int, y: int, w: int, h: int) -> (int, int) {
    match pos {
        SensorPos::TopLeft => (x + w * 150 / 1000, y + h * 100 / 1000),
        SensorPos::TopRight => (x + w * 850 / 1000, y + h * 100 / 1000),
        SensorPos::BottomLeft => (x + w * 150 / 1000, y + h * 900 / 1000),
        SensorPos::BottomRight => (x + w * 850 / 1000, y + h * 900 / 1000),
        SensorPos::CenterLeft => (x + w * 150 / 1000, y + h / 2),
        SensorPos::CenterRight => (x + w * 850 / 1000, y + h / 2),
        SensorPos::Center => (x + w / 2, y + h / 2),
    }
}

} // verus!

//! The agent (vehicle) model: pose, motion state, a ten-point hitbox
//! polygon recomputed from the pose every frame, a bank of sensors, an
//! optional network brain, and scoring/lifecycle state. The update
//! cycle checks collisions, casts the sensors, runs the brain, and
//! integrates the kinematics.

use vstd::prelude::*;
use crate::geometry::{
    get_intersection, hit_exists, t_scaled, muldiv, spec_muldiv, lemma_muldiv_bound,
    lemma_muldiv_nonneg, lemma_muldiv_shrinks,
    Point, in_seg_bounds,
};
use crate::network::{NeuralNetwork, all_milli, same_topology, blended_toward, lemma_pruned_is_blended};
use crate::road::{Road, Border};
use crate::sensor::{Sensor, Ray, SensorPos, Facing, base_point_spec, ray_cast_angle, ray_dx, ray_dy, BASE_BOUND};
use crate::trig::{normalize_mdeg, sin_mdeg, cos_mdeg, spec_sin, spec_cos, FULL_TURN};
use crate::rng::random_in_range;
use vstd::string::StringExecFns;

verus! {

/// Magnitude bound on an agent's position coordinates (milli-pixels);
/// the update cycle clamps the position here, far outside any road.
pub const POS_LIMIT: i64 = 1_000_000_000_000;

/// Magnitude bound on the camera scroll offset (milli-pixels).
pub const OFFSET_BOUND: i64 = 100_000_000_000;

/// Bound on an agent's maximum velocity (milli-meters per second).
pub const VEL_BOUND: i64 = 100_000_000;

/// Bound on an agent's acceleration (milli-meters per second squared).
pub const ACC_BOUND: i64 = 1_000_000;

/// A control logit above this fixed-point threshold counts as an
/// engaged control: 0.33, deliberately biased toward inaction.
pub const CONTROL_THRESHOLD: i64 = 330;

/// Steering step per frame, in millidegrees before the 1/3.6 scaling.
pub const STEER_STEP: i64 = 1850;

/// Steering only takes effect above this speed (milli-m/s).
pub const MIN_STEER_VELOCITY: i64 = 100;

/// Frame-rate factor applied to acceleration and friction, milli.
pub const ACCEL_GAIN: i64 = 13_340;

/// Bound on sprite dimensions, in pixels.
pub const DIM_BOUND: u32 = 100_000;

/// Sprite dimensions and scale. The height in meters anchors the
/// pixel/meter conversion; a car is 4.12 meters long.
pub struct Dimentions {
    pub w: u32,
    pub h: u32,
    pub scale: i64,
    pub h_m: i64,
}

impl Dimentions {
    /// Sprite dimensions with a fixed-point scale in `(0, 1]`.
    pub fn new(w: u32, h: u32, scale: i64) -> (r: Dimentions)
        requires
            w <= DIM_BOUND,
            h <= DIM_BOUND,
            w <= 10 * h,
            0 < scale <= 1000,
        ensures
            r.w == w,
            r.h == h,
            r.scale == scale,
            r.h_m == 4120,
    {
        Dimentions { w, h, scale, h_m: 4120 }
    }
}

/// World position in milli-pixels and heading in millidegrees;
/// y decreases forward along the track.
pub struct Position {
    pub x: i64,
    pub y: i64,
    pub angle: i64,
}

impl Position {
    /// A pose from its raw parts.
    pub fn new(x: i64, y: i64, angle: i64) -> (r: Position)
        ensures
            r.x == x,
            r.y == y,
            r.angle == angle,
    {
        Position { x, y, angle }
    }
}

/// Scalar motion state, all in milli-meters per second (per second).
pub struct Motion {
    pub velocity: i64,
    pub max_velocity: i64,
    pub acceleration: i64,
    pub friction_coefficient: i64,
}

impl Motion {
    /// Motion state from its raw parts.
    pub fn new(velocity: i64, max_velocity: i64, acceleration: i64, friction_coefficient: i64) -> (r: Motion)
        ensures
            r.velocity == velocity,
            r.max_velocity == max_velocity,
            r.acceleration == acceleration,
            r.friction_coefficient == friction_coefficient,
    {
        Motion { velocity, max_velocity, acceleration, friction_coefficient }
    }
}

/// The four control signals derived from the brain (or the keyboard).
pub struct Controls {
    pub forward: bool,
    pub backward: bool,
    pub left: bool,
    pub right: bool,
}

impl Controls {
    /// All controls disengaged.
    pub fn new() -> (r: Controls)
        ensures
            !r.forward,
            !r.backward,
            !r.left,
            !r.right,
    {
        Controls { forward: false, backward: false, left: false, right: false }
    }
}

/// A crop window into the sprite texture, in pixels.
pub struct SrcRect {
    pub x: u32,
    pub y: u32,
    pub w: u32,
    pub h: u32,
}

/// Total ray count over a bank of sensors, in sensor order.
pub open spec fn total_rays(sensors: Seq<Sensor>) -> int
    decreases sensors.len(),
{
    if sensors.len() == 0 {
        0
    } else {
        total_rays(sensors.drop_last()) + sensors.last().rays@.len()
    }
}

/// Appending a sensor adds its rays to the total.
proof fn lemma_total_rays_push(sensors: Seq<Sensor>, s: Sensor)
    ensures
        total_rays(sensors.push(s)) == total_rays(sensors) + s.rays@.len(),
{
    assert(sensors.push(s).drop_last() =~= sensors);
    assert(sensors.push(s).last() == s);
}

/// A simulated vehicle.
pub struct Car {
    pub dimentions: Dimentions,
    pub position: Position,
    pub sensors: Vec<Sensor>,
    pub motion: Motion,
    pub controls: Controls,
    pub damaged: bool,
    pub dummy: bool,
    pub brain: Option<NeuralNetwork>,
    pub src_rect: Option<SrcRect>,
    pub score: i64,
    pub changing_lane: bool,
    pub brake_checking: bool,
    pub brake_checking_frame_count: u32,
    pub target_lane: u32,
    pub current_lane: u32,
    pub hitbox: Vec<Point>,
    pub sensor_readings: Vec<i64>,
    pub did_just_crashed: bool,
}

impl Car {
    /// The agent's invariant: dimensions, pose, motion and brain all in
    /// range and consistent with each other.
    pub open spec fn wf(self) -> bool {
        &&& self.dimentions.w <= DIM_BOUND
        &&& self.dimentions.h <= DIM_BOUND
        &&& self.dimentions.w <= 10 * self.dimentions.h
        &&& 0 < self.dimentions.scale <= 1000
        &&& match self.src_rect {
            Option::Some(r) => r.w <= DIM_BOUND && r.h <= DIM_BOUND && r.w <= 10 * r.h,
            Option::None => true,
        }
        &&& -POS_LIMIT <= self.position.x <= POS_LIMIT
        &&& -POS_LIMIT <= self.position.y <= POS_LIMIT
        &&& 0 <= self.position.angle < FULL_TURN
        &&& 0 <= self.motion.max_velocity <= VEL_BOUND
        &&& -(self.motion.max_velocity / 2) <= self.motion.velocity <= self.motion.max_velocity
        &&& 0 <= self.motion.acceleration <= ACC_BOUND
        &&& 0 <= self.motion.friction_coefficient <= 1000
        &&& (self.dummy ==> self.motion.friction_coefficient == 0 && self.motion.acceleration == 0
            && self.motion.max_velocity >= 20)
        &&& forall|i: int| 0 <= i < self.sensors@.len() ==> (#[trigger] self.sensors@[i]).wf()
        &&& self.sensors@.len() <= 10
        &&& total_rays(self.sensors@) <= 100_000
        &&& match self.brain {
            Option::Some(b) => b.wf() && b.input_width() == total_rays(self.sensors@)
                && b.output_width() == 4,
            Option::None => true,
        }
        &&& (self.hitbox@.len() == 0 || self.hitbox@.len() == 10)
        &&& forall|i: int| 0 <= i < self.hitbox@.len() ==> in_seg_bounds(#[trigger] self.hitbox@[i])
        &&& 0 <= self.score
    }

    /// Width of the drawn sprite, in milli-pixels: the cropped width
    /// (or the full texture width) times the scale.
    pub open spec fn scaled_w_spec(self) -> int {
        (match self.src_rect {
            Option::Some(r) => r.w as int,
            Option::None => self.dimentions.w as int,
        }) * self.dimentions.scale
    }

    /// Height of the drawn sprite, in milli-pixels.
    pub open spec fn scaled_h_spec(self) -> int {
        (match self.src_rect {
            Option::Some(r) => r.h as int,
            Option::None => self.dimentions.h as int,
        }) * self.dimentions.scale
    }

    /// The sprite's scaled width in milli-pixels.
    pub fn scaled_width(&self) -> (r: i64)
        requires
            self.wf(),
        ensures
            r == self.scaled_w_spec(),
            0 <= r <= 100_000_000,
    {
        let base: u32 = match self.src_rect {
            Option::Some(ref rect) => rect.w,
            Option::None => self.dimentions.w,
        };
        assert(0 <= (base as int) * (self.dimentions.scale as int) <= 100_000_000)
            by (nonlinear_arith)
            requires
                base <= 100_000,
                0 < self.dimentions.scale <= 1000,
        ;
        (base as i64) * self.dimentions.scale
    }

    /// The sprite's scaled height in milli-pixels.
    pub fn scaled_height(&self) -> (r: i64)
        requires
            self.wf(),
        ensures
            r == self.scaled_h_spec(),
            0 <= r <= 100_000_000,
    {
        let base: u32 = match self.src_rect {
            Option::Some(ref rect) => rect.h,
            Option::None => self.dimentions.h,
        };
        assert(0 <= (base as int) * (self.dimentions.scale as int) <= 100_000_000)
            by (nonlinear_arith)
            requires
                base <= 100_000,
                0 < self.dimentions.scale <= 1000,
        ;
        (base as i64) * self.dimentions.scale
    }

    /// Both scaled sprite dimensions, in milli-pixels.
    pub fn src_dimentions_scaled(&self) -> (r: (i64, i64))
        requires
            self.wf(),
        ensures
            r.0 == self.scaled_w_spec(),
            r.1 == self.scaled_h_spec(),
            0 <= r.0 <= 100_000_000,
            0 <= r.1 <= 100_000_000,
    {
        (self.scaled_width(), self.scaled_height())
    }

    /// Restricts drawing (and the hitbox) to a centered crop of the
    /// sprite texture and sets the scale. A scale outside `(0, 1)` is
    /// a configuration error: it is rejected and nothing changes.
    pub fn src_crop_center(&mut self, width: u32, height: u32, scale: i64) -> (r: Result<(), String>)
        requires
            old(self).wf(),
            1 <= width <= DIM_BOUND,
            1 <= height <= DIM_BOUND,
            width <= 10 * height,
        ensures
            r is Ok <==> 0 < scale < 1000,
            r is Ok ==> *final(self) == (Car {
                dimentions: Dimentions { scale, ..old(self).dimentions },
                src_rect: Option::Some(crop_rect_spec(old(self).dimentions, width, height)),
                ..*old(self)
            }),
            r is Err ==> *final(self) == *old(self),
            final(self).wf(),
    {
        if scale <= 0 || scale >= 1000 {
            return Result::Err(String::from_str("scale out of range"));
        }
        let cx: u32 = if self.dimentions.w > width {
            (self.dimentions.w - width) / 2
        } else {
            0
        };
        let cy: u32 = if self.dimentions.h > height {
            (self.dimentions.h - height) / 2
        } else {
            0
        };
        let cw: u32 = if width < self.dimentions.w {
            width
        } else {
            self.dimentions.w
        };
        let ch: u32 = if height < self.dimentions.h {
            height
        } else {
            self.dimentions.h
        };
        self.dimentions.scale = scale;
        self.src_rect = Option::Some(SrcRect { x: cx, y: cy, w: cw, h: ch });
        Result::Ok(())
    }

    /// Puts the agent's x so that its sprite is centered on the given
    /// lane; fails exactly on an out-of-range lane index, leaving the
    /// agent unchanged.
    pub fn set_in_lane(&mut self, road: &Road, idx: u32) -> (r: Result<(), String>)
        requires
            old(self).wf(),
            road.wf(),
        ensures
            r is Ok <==> (idx as int) < road.lanes,
            r is Ok ==> *final(self) == (Car {
                position: Position {
                    x: (lane_center_value(*road, idx) - old(self).scaled_w_spec() / 2) as i64,
                    ..old(self).position
                },
                ..*old(self)
            }),
            r is Err ==> *final(self) == *old(self),
            final(self).wf(),
    {
        let center = road.lane_center(idx);
        match center {
            Option::Some(c) => {
                let half = self.scaled_width() / 2;
                self.position.x = c - half;
                Result::Ok(())
            },
            Option::None => Result::Err(String::from_str("Could not find lane center")),
        }
    }

    /// Whether the agent has scrolled past the window's trailing edge:
    /// its screen-space y, minus its sprite height, lies below `h`.
    pub fn is_passed_bottom_bound(&self, h: i64, offset: i64) -> (r: bool)
        requires
            self.wf(),
            -OFFSET_BOUND <= offset <= OFFSET_BOUND,
            -POS_LIMIT <= h <= POS_LIMIT,
        ensures
            r == (self.position.y - offset - self.scaled_h_spec() > h),
    {
        let scaled_h = self.scaled_height();
        let y = self.position.y - offset;
        y - scaled_h > h
    }

    /// Turns the agent into scripted traffic: full throttle at fixed
    /// speed, no friction, no sensors, no brain, undamaged.
    pub fn as_dummy(&mut self, max_velocity: i64)
        requires
            old(self).wf(),
            20 <= max_velocity <= VEL_BOUND,
        ensures
            final(self).wf(),
            final(self).dummy,
            !final(self).damaged,
            final(self).brain is None,
            final(self).controls.forward,
            final(self).motion.velocity == max_velocity - 10,
            final(self).motion.max_velocity == max_velocity,
            final(self).motion.acceleration == 0,
            final(self).motion.friction_coefficient == 0,
            final(self).sensors@.len() == 0,
            final(self).position == old(self).position,
            final(self).score == old(self).score,
            final(self).dimentions == old(self).dimentions,
            final(self).src_rect == old(self).src_rect,
    {
        self.controls.forward = true;
        self.motion.acceleration = 0;
        self.motion.velocity = max_velocity - 10;
        self.motion.max_velocity = max_velocity;
        self.motion.friction_coefficient = 0;
        self.sensors = Vec::new();
        self.dummy = true;
        self.damaged = false;
        self.brain = Option::None;
        proof {
            assert(total_rays(self.sensors@) == 0);
        }
    }
}


/// Applies the engaged throttle controls to the velocity.
fn throttle_velocity(m: &Motion, c: &Controls, dt: i64) -> (v: i64)
    requires
        0 <= m.acceleration <= ACC_BOUND,
        -VEL_BOUND <= m.velocity <= VEL_BOUND,
        0 <= dt <= 1000,
    ensures
        v == vel_after_controls(*m, *c, dt as int),
        -127_000_000 <= v <= 127_000_000,
{
    let gain = dt * ACCEL_GAIN;
    let mut v: i64 = m.velocity;
    if c.forward {
        proof {
            lemma_muldiv_bound(m.acceleration as int, gain as int, 1_000_000, ACC_BOUND as int, 13_340_000);
        }
        v = v + muldiv(m.acceleration, gain, 1_000_000);
    }
    if c.backward {
        proof {
            lemma_muldiv_bound(m.acceleration as int, gain as int, 1_500_000, ACC_BOUND as int, 13_340_000);
        }
        v = v - muldiv(m.acceleration, gain, 1_500_000);
    }
    v
}

/// Clamps the velocity, applies friction decay, and snaps it to zero
/// below the friction threshold.
fn finish_velocity(v1: i64, max_velocity: i64, fr: i64, dt: i64) -> (v: i64)
    requires
        -127_000_000 <= v1 <= 127_000_000,
        0 <= max_velocity <= VEL_BOUND,
        0 <= fr <= 1000,
        0 <= dt <= 1000,
    ensures
        v == snap_vel(
            vel_after_friction(clamp_vel(v1 as int, max_velocity as int), fr as int, dt as int),
            fr as int,
        ),
        -(max_velocity / 2) <= v <= max_velocity,
{
    let gain = dt * ACCEL_GAIN;
    let mut v: i64 = v1;
    if v > max_velocity {
        v = max_velocity;
    } else if v < -(max_velocity / 2) {
        v = -(max_velocity / 2);
    }
    proof {
        lemma_muldiv_bound(fr as int, gain as int, 1000, 1000, 13_340_000);
        lemma_muldiv_nonneg(fr as int, gain as int, 1000);
    }
    let decay = muldiv(fr, gain, 1000);
    let factor: i64 = if decay >= 1_000_000 {
        0
    } else {
        1_000_000 - decay
    };
    proof {
        lemma_muldiv_shrinks(v as int, factor as int, 1_000_000);
    }
    v = muldiv(v, factor, 1_000_000);
    if v < fr && v > -fr {
        v = 0;
    }
    v
}

/// Turns the heading by one steering step per engaged direction, only
/// above the minimum speed.
fn steer_angle(angle: i64, v1: i64, c: &Controls) -> (a: i64)
    requires
        0 <= angle < FULL_TURN,
    ensures
        a == angle_after_steer(angle as int, v1 as int, *c),
        -1000 <= a <= FULL_TURN + 1000,
{
    let moving = v1 > MIN_STEER_VELOCITY || v1 < -MIN_STEER_VELOCITY;
    let mut ang: i64 = angle;
    proof {
        lemma_muldiv_bound(STEER_STEP as int, 1000, 3600, 1850, 1000);
    }
    if moving && c.left {
        ang = ang - muldiv(STEER_STEP, 1000, 3600);
    }
    if moving && c.right {
        ang = ang + muldiv(STEER_STEP, 1000, 3600);
    }
    ang
}

/// Advances a position by the travel step along the heading, clamping
/// both coordinates into the simulation's range.
fn advance_position(x: i64, y: i64, v: i64, dt: i64, angle: i64) -> (p: (i64, i64))
    requires
        -POS_LIMIT <= x <= POS_LIMIT,
        -POS_LIMIT <= y <= POS_LIMIT,
        -VEL_BOUND <= v <= VEL_BOUND,
        0 <= dt <= 1000,
        0 <= angle < FULL_TURN,
    ensures
        p.0 == next_x(x as int, v as int, dt as int, angle as int),
        p.1 == next_y(y as int, v as int, dt as int, angle as int),
        -POS_LIMIT <= p.0 <= POS_LIMIT,
        -POS_LIMIT <= p.1 <= POS_LIMIT,
{
    assert(-100_000_000_000 <= (v as int) * (dt as int) <= 100_000_000_000) by (nonlinear_arith)
        requires
            -100_000_000 <= v as int <= 100_000_000,
            0 <= dt as int <= 1000,
    ;
    let dist: i64 = v * dt;
    proof {
        lemma_muldiv_bound(dist as int, 1000, 37_798, 100_000_000_000, 1000);
    }
    let step = muldiv(dist, 1000, 37_798);
    let sn = sin_mdeg(angle);
    let cs = cos_mdeg(angle);
    proof {
        lemma_muldiv_bound(step as int, sn as int, 1000, 3_000_000_000, 1000);
        lemma_muldiv_bound(step as int, cs as int, 1000, 3_000_000_000, 1000);
    }
    let dx = muldiv(step, sn, 1000);
    let dy = muldiv(step, cs, 1000);
    let mut nx = x + dx;
    if nx > POS_LIMIT {
        nx = POS_LIMIT;
    } else if nx < -POS_LIMIT {
        nx = -POS_LIMIT;
    }
    let mut ny = y - dy;
    if ny > POS_LIMIT {
        ny = POS_LIMIT;
    } else if ny < -POS_LIMIT {
        ny = -POS_LIMIT;
    }
    (nx, ny)
}

impl Car {
    /// One frame of kinematic integration. A damaged agent stops dead.
    /// Otherwise: throttle is applied (reverse at two thirds), steering
    /// turns the heading only above the minimum speed, the velocity is
    /// clamped to `[-max/2, max]`, friction decays it and snaps it to
    /// exactly zero below the friction threshold, scripted traffic runs
    /// its probabilistic brake-check and lane-change machine, the
    /// heading is normalized into `[0, 360)` degrees, and the position
    /// advances along the heading by the velocity, clamped to the
    /// simulation's range.
    #[verifier::rlimit(100)]
    pub fn update_position(&mut self, delta_t_ms: i64, road: &Road)
        requires
            old(self).wf(),
            road.wf(),
            0 <= delta_t_ms <= 1000,
            old(self).dummy && old(self).changing_lane ==> (old(self).target_lane as int)
                < road.lanes,
        ensures
            final(self).wf(),
            final(self).dimentions == old(self).dimentions,
            final(self).sensors == old(self).sensors,
            final(self).brain == old(self).brain,
            final(self).controls == old(self).controls,
            final(self).damaged == old(self).damaged,
            final(self).dummy == old(self).dummy,
            final(self).src_rect == old(self).src_rect,
            final(self).score == old(self).score,
            final(self).hitbox == old(self).hitbox,
            final(self).sensor_readings == old(self).sensor_readings,
            final(self).did_just_crashed == old(self).did_just_crashed,
            final(self).motion.max_velocity == old(self).motion.max_velocity,
            final(self).motion.acceleration == old(self).motion.acceleration,
            final(self).motion.friction_coefficient == old(self).motion.friction_coefficient,
            old(self).damaged ==> final(self).motion.velocity == 0 && final(self).position == old(self).position && final(self).changing_lane == old(self).changing_lane && final(self).brake_checking == old(self).brake_checking && final(self).brake_checking_frame_count
                == old(self).brake_checking_frame_count && final(self).target_lane == old(self).target_lane && final(self).current_lane == old(self).current_lane,
            !old(self).damaged ==> {
                &&& -(final(self).motion.max_velocity / 2) <= final(self).motion.velocity <= final(self).motion.max_velocity
                &&& (-final(self).motion.friction_coefficient < final(self).motion.velocity
                    < final(self).motion.friction_coefficient ==> final(self).motion.velocity == 0)
                &&& 0 <= final(self).position.angle < FULL_TURN
                &&& final(self).position.x == next_x(
                    old(self).position.x as int,
                    final(self).motion.velocity as int,
                    delta_t_ms as int,
                    final(self).position.angle as int,
                )
                &&& final(self).position.y == next_y(
                    old(self).position.y as int,
                    final(self).motion.velocity as int,
                    delta_t_ms as int,
                    final(self).position.angle as int,
                )
            },
            !old(self).damaged && !old(self).dummy ==> {
                &&& final(self).motion.velocity == vel_update(
                    old(self).motion,
                    old(self).controls,
                    delta_t_ms as int,
                )
                &&& final(self).position.angle == angle_after_steer(
                    old(self).position.angle as int,
                    vel_after_controls(old(self).motion, old(self).controls, delta_t_ms as int),
                    old(self).controls,
                ) % (FULL_TURN as int)
                &&& final(self).changing_lane == old(self).changing_lane
                &&& final(self).brake_checking == old(self).brake_checking
                &&& final(self).brake_checking_frame_count == old(self).brake_checking_frame_count
                &&& final(self).target_lane == old(self).target_lane
                &&& final(self).current_lane == old(self).current_lane
            },
            !old(self).damaged && old(self).dummy ==> {
                let v = vel_update(old(self).motion, old(self).controls, delta_t_ms as int);
                &&& (old(self).brake_checking && old(self).brake_checking_frame_count > 0 ==> final(self).brake_checking && final(self).brake_checking_frame_count == old(self).brake_checking_frame_count - 1 && final(self).motion.velocity == v)
                &&& (old(self).brake_checking && old(self).brake_checking_frame_count == 0 ==>
                    !final(self).brake_checking && final(self).motion.velocity == old(self).motion.max_velocity - 10)
                &&& (!old(self).brake_checking ==> (!final(self).brake_checking && final(self).motion.velocity == v) || (final(self).brake_checking && final(self).motion.velocity == spec_muldiv(v, 1000, 1300) && final(self).brake_checking_frame_count == 40))
                &&& (final(self).changing_lane ==> (final(self).target_lane as int) < road.lanes)
            },
    {
        if self.damaged {
            self.motion.velocity = 0;
            return;
        }
        let halfw = self.scaled_width() / 2;
        let dt = delta_t_ms;

        let v1 = throttle_velocity(&self.motion, &self.controls, dt);
        let mut ang: i64 = steer_angle(self.position.angle, v1, &self.controls);
        let v = finish_velocity(v1, self.motion.max_velocity, self.motion.friction_coefficient, dt);
        assert(v == vel_update(old(self).motion, old(self).controls, dt as int));
        self.motion.velocity = v;

        if self.dummy {
            if !self.brake_checking {
                let should_brake_check = random_in_range(1, 240) == 1;
                if should_brake_check {
                    self.brake_checking = true;
                    proof {
                        lemma_muldiv_shrinks(self.motion.velocity as int, 1000, 1300);
                    }
                    self.motion.velocity = muldiv(self.motion.velocity, 1000, 1300);
                    self.brake_checking_frame_count = 40;
                }
            } else {
                if self.brake_checking_frame_count == 0 {
                    self.brake_checking = false;
                    self.motion.velocity = self.motion.max_velocity - 10;
                } else {
                    self.brake_checking_frame_count = self.brake_checking_frame_count - 1;
                }
            }

            if !self.changing_lane {
                let should_change_lane = random_in_range(1, 240) == 1;
                if should_change_lane {
                    self.changing_lane = true;
                    self.target_lane = road.random_lane_idx();
                    let aggressiveness = random_in_range(10_000, 15_000);
                    proof {
                        lemma_muldiv_bound(aggressiveness as int, 1000, 3600, 15_000, 1000);
                    }
                    if self.current_lane > self.target_lane {
                        ang = ang - muldiv(aggressiveness, 1000, 3600);
                    } else if self.current_lane < self.target_lane {
                        ang = ang + muldiv(aggressiveness, 1000, 3600);
                    } else {
                        self.changing_lane = false;
                    }
                }
            } else {
                let center = road.lane_center(self.target_lane);
                match center {
                    Option::Some(cx) => {
                        let target_x = cx - halfw;
                        let x = self.position.x;
                        if x - 1500 < target_x && x + 1500 > target_x {
                            ang = 0;
                            self.changing_lane = false;
                            self.current_lane = self.target_lane;
                        }
                    },
                    Option::None => {},
                }
            }
        }

        let normed = normalize_mdeg(ang);
        self.position.angle = normed;

        let p = advance_position(self.position.x, self.position.y, self.motion.velocity, dt, normed);
        self.position.x = p.0;
        self.position.y = p.1;
    }
}

/// The brain topology every population agent carries: 64 sensor
/// inputs, eight hidden layers of width 64, and 4 control outputs.
pub open spec fn default_topology(b: NeuralNetwork) -> bool {
    &&& b.wf()
    &&& b.levels@.len() == 9
    &&& forall|k: int|
        0 <= k < 9 ==> (#[trigger] b.levels@[k]).in_count() == 64 && b.levels@[k].out_count() == (
        if k == 8 {
            4int
        } else {
            64int
        })
}

impl Car {
    /// A fresh population agent in the given lane: the standard sensor
    /// bank (36, 22 and 6 forward rays), a randomized brain of the
    /// standard topology — blended toward `ref_brain` by `t / 1000`
    /// when a reference brain is given — and the standard motion
    /// constants, undamaged and unscored.
    pub fn new(
        current_lane: u32,
        texture_width: u32,
        texture_height: u32,
        ref_brain: Option<&NeuralNetwork>,
        t: i64,
    ) -> (r: Car)
        requires
            1 <= texture_width <= DIM_BOUND,
            1 <= texture_height <= DIM_BOUND,
            texture_width <= 10 * texture_height,
            0 <= t <= 1000,
            match ref_brain {
                Option::Some(b) => default_topology(*b),
                Option::None => true,
            },
        ensures
            r.wf(),
            !r.damaged,
            !r.dummy,
            !r.did_just_crashed,
            !r.changing_lane,
            !r.brake_checking,
            r.score == 0,
            r.brain is Some,
            default_topology(r.brain->Some_0),
            match ref_brain {
                Option::Some(b) => blended_toward(r.brain->Some_0, *b, t as int),
                Option::None => true,
            },
            r.current_lane == current_lane,
            r.target_lane == current_lane,
            r.position.x == 400_000 && r.position.y == 600_000 && r.position.angle == 0,
            r.motion.velocity == 0 && r.motion.max_velocity == 33_330 && r.motion.acceleration
                == 1800 && r.motion.friction_coefficient == 50,
            r.dimentions.w == texture_width && r.dimentions.h == texture_height
                && r.dimentions.scale == 1000,
            r.src_rect is None,
            r.sensors@.len() == 3,
            total_rays(r.sensors@) == 64,
            r.hitbox@.len() == 0,
            !r.controls.forward && !r.controls.backward && !r.controls.left && !r.controls.right,
    {
        let dimentions = Dimentions::new(texture_width, texture_height, 1000);
        let position = Position::new(400_000, 600_000, 0);
        let motion = Motion::new(0, 33_330, 1800, 50);
        let controls = Controls::new();

        let mut sensors: Vec<Sensor> = Vec::new();
        sensors.push(Sensor::new(36, 210_000, 324_000, SensorPos::Center, Facing::Forward));
        proof {
            lemma_total_rays_push(Seq::<Sensor>::empty(), sensors@.last());
            assert(sensors@ =~= Seq::<Sensor>::empty().push(sensors@.last()));
        }
        let ghost two = sensors@;
        sensors.push(Sensor::new(22, 380_000, 54_000, SensorPos::Center, Facing::Forward));
        proof {
            lemma_total_rays_push(two, sensors@.last());
            assert(sensors@ =~= two.push(sensors@.last()));
        }
        let ghost three = sensors@;
        sensors.push(Sensor::new(6, 560_000, 27_000, SensorPos::Center, Facing::Forward));
        proof {
            lemma_total_rays_push(three, sensors@.last());
            assert(sensors@ =~= three.push(sensors@.last()));
            assert(total_rays(sensors@) == 64);
        }

        let mut sizes: Vec<u32> = Vec::new();
        let mut i: usize = 0;
        while i < 9
            invariant
                i <= 9,
                sizes@.len() == i,
                forall|k: int| 0 <= k < i ==> #[trigger] sizes@[k] == 64,
            decreases 9 - i,
        {
            sizes.push(64);
            i = i + 1;
        }
        sizes.push(4);
        let mut brain = NeuralNetwork::new(sizes.as_slice());
        assert(default_topology(brain));
        brain.randomize();
        assert(default_topology(brain));
        match ref_brain {
            Option::Some(rb) => {
                assert(same_topology(brain, *rb));
                let ghost pre = brain;
                brain.prune(rb, t);
                assert(default_topology(brain));
                proof {
                    lemma_pruned_is_blended(pre, brain, *rb, t as int);
                }
            },
            Option::None => {},
        }

        let mut readings: Vec<i64> = Vec::new();
        let mut j: usize = 0;
        while j < 64
            invariant
                j <= 64,
                readings@.len() == j,
            decreases 64 - j,
        {
            readings.push(0);
            j = j + 1;
        }

        Car {
            dimentions,
            position,
            motion,
            controls,
            damaged: false,
            src_rect: Option::None,
            dummy: false,
            brain: Option::Some(brain),
            sensors,
            score: 0,
            target_lane: current_lane,
            current_lane,
            changing_lane: false,
            brake_checking: false,
            brake_checking_frame_count: 0,
            hitbox: Vec::new(),
            sensor_readings: readings,
            did_just_crashed: false,
        }
    }
}

/// A score bumped by one survival point, saturating at the top of the
/// range.
pub open spec fn sat_inc(s: int) -> int {
    if s < 0x7fff_ffff_ffff_ffff {
        s + 1
    } else {
        s
    }
}

impl Car {
    /// One frame of the agent's update cycle: a survival point if not
    /// damaged; the hitbox recomputed from the current pose; damage
    /// checked against every border and every traffic agent; if
    /// undamaged, the sensors cast (in fixed sensor/ray order), a
    /// second survival point, and the brain's four outputs mapped to
    /// the controls through the activation threshold; finally the
    /// kinematic integration of [`Car::update_position`].
    #[verifier::rlimit(100)]
    pub fn update(&mut self, delta_t_ms: i64, offset: i64, road: &Road, traffic: &Vec<Car>)
        requires
            old(self).wf(),
            road.wf(),
            0 <= delta_t_ms <= 1000,
            -OFFSET_BOUND <= offset <= OFFSET_BOUND,
            forall|k: int| 0 <= k < traffic@.len() ==> (#[trigger] traffic@[k]).wf(),
            old(self).dummy && old(self).changing_lane ==> (old(self).target_lane as int)
                < road.lanes,
        ensures
            final(self).wf(),
            final(self).dimentions == old(self).dimentions,
            final(self).sensors == old(self).sensors,
            final(self).brain == old(self).brain,
            final(self).src_rect == old(self).src_rect,
            final(self).dummy == old(self).dummy,
            final(self).hitbox@ == hitbox_world_seq(*old(self), offset as int),
            final(self).damaged == (old(self).damaged || collides(
                hitbox_world_seq(*old(self), offset as int),
                *road,
                traffic@,
                offset as int,
            )),
            final(self).did_just_crashed == (old(self).did_just_crashed || (!old(self).damaged
                && final(self).damaged)),
            final(self).score == (if !final(self).damaged {
                sat_inc(sat_inc(old(self).score as int))
            } else if !old(self).damaged {
                sat_inc(old(self).score as int)
            } else {
                old(self).score as int
            }),
            !final(self).damaged ==> final(self).sensor_readings@ == sweep_spec(
                old(self).sensors@,
                old(self).position,
                old(self).scaled_w_spec(),
                old(self).scaled_h_spec(),
                offset as int,
                *road,
                traffic@,
            ),
            final(self).damaged ==> final(self).sensor_readings == old(self).sensor_readings,
            !final(self).damaged && old(self).brain is Some ==> {
                let outs = old(self).brain->Some_0.eval(final(self).sensor_readings@);
                &&& final(self).controls.forward == (outs[0] > CONTROL_THRESHOLD)
                &&& final(self).controls.backward == (outs[1] > CONTROL_THRESHOLD)
                &&& final(self).controls.left == (outs[2] > CONTROL_THRESHOLD)
                &&& final(self).controls.right == (outs[3] > CONTROL_THRESHOLD)
            },
            (final(self).damaged || old(self).brain is None) ==> final(self).controls == old(self).controls,
            final(self).damaged ==> final(self).motion.velocity == 0,
            old(self).damaged ==> final(self).position == old(self).position && final(self).changing_lane == old(self).changing_lane && final(self).brake_checking == old(self).brake_checking
                && final(self).brake_checking_frame_count == old(self).brake_checking_frame_count
                && final(self).target_lane == old(self).target_lane && final(self).current_lane
                == old(self).current_lane,
            !old(self).damaged && final(self).damaged ==> final(self).position.angle == 0
                && !final(self).changing_lane && final(self).position == (Position {
                angle: 0,
                ..old(self).position
            }),
            !final(self).damaged ==> {
                &&& -(final(self).motion.max_velocity / 2) <= final(self).motion.velocity <= final(self).motion.max_velocity
                &&& (-final(self).motion.friction_coefficient < final(self).motion.velocity
                    < final(self).motion.friction_coefficient ==> final(self).motion.velocity == 0)
                &&& 0 <= final(self).position.angle < FULL_TURN
                &&& final(self).position.x == next_x(
                    old(self).position.x as int,
                    final(self).motion.velocity as int,
                    delta_t_ms as int,
                    final(self).position.angle as int,
                )
                &&& final(self).position.y == next_y(
                    old(self).position.y as int,
                    final(self).motion.velocity as int,
                    delta_t_ms as int,
                    final(self).position.angle as int,
                )
            },
            !final(self).damaged && !old(self).dummy ==> {
                &&& final(self).motion.velocity == vel_update(
                    old(self).motion,
                    final(self).controls,
                    delta_t_ms as int,
                )
                &&& final(self).position.angle == angle_after_steer(
                    old(self).position.angle as int,
                    vel_after_controls(old(self).motion, final(self).controls, delta_t_ms as int),
                    final(self).controls,
                ) % (FULL_TURN as int)
            },
    {
        if !self.damaged && self.score < 0x7fff_ffff_ffff_ffff {
            self.score = self.score + 1;
        }
        let hb = self.rotate_hitbox_points(offset);
        self.hitbox = hb;
        proof {
            assert(self.hitbox@ =~= hitbox_world_seq(*old(self), offset as int));
        }

        if !self.damaged {
            let crashed = check_collision(&self.hitbox, road, traffic, offset);
            if crashed {
                self.did_just_crashed = true;
                self.damaged = true;
                self.changing_lane = false;
                self.position.angle = 0;
            }
        }

        if !self.damaged {
            let readings = self.compute_readings(offset, road, traffic);
            self.sensor_readings = readings;
            if self.score < 0x7fff_ffff_ffff_ffff {
                self.score = self.score + 1;
            }
        }

        if !self.damaged {
            let outs_opt: Option<Vec<i64>> = match &self.brain {
                Option::Some(b) => {
                    proof {
                        lemma_sweep_len(
                            old(self).sensors@,
                            old(self).position,
                            old(self).scaled_w_spec(),
                            old(self).scaled_h_spec(),
                            offset as int,
                            *road,
                            traffic@,
                        );
                    }
                    Option::Some(b.feed_forward(&self.sensor_readings))
                },
                Option::None => Option::None,
            };
            match outs_opt {
                Option::Some(outs) => {
                    self.controls.forward = outs[0] > CONTROL_THRESHOLD;
                    self.controls.backward = outs[1] > CONTROL_THRESHOLD;
                    self.controls.left = outs[2] > CONTROL_THRESHOLD;
                    self.controls.right = outs[3] > CONTROL_THRESHOLD;
                },
                Option::None => {},
            }
        }

        self.update_position(delta_t_ms, road);
    }
}

impl Car {
    /// Respawns the agent for a new attempt: fresh pose at the given
    /// track progress in a random lane, zero velocity and heading,
    /// undamaged, and a brain rebuilt by blending a freshly randomized
    /// network toward the reference brain by `t / 1000` (fully random
    /// when no reference is given). The score is kept.
    pub fn respawn(&mut self, y: i64, road: &Road, ref_brain: Option<&NeuralNetwork>, t: i64)
        requires
            old(self).wf(),
            old(self).brain is Some ==> default_topology(old(self).brain->Some_0),
            road.wf(),
            -POS_LIMIT <= y <= POS_LIMIT,
            0 <= t <= 1000,
            match ref_brain {
                Option::Some(b) => default_topology(*b),
                Option::None => true,
            },
        ensures
            final(self).wf(),
            !final(self).damaged,
            !final(self).did_just_crashed,
            !final(self).changing_lane,
            final(self).position.y == y,
            final(self).position.angle == 0,
            final(self).motion.velocity == 0,
            (final(self).current_lane as int) < road.lanes,
            final(self).target_lane == final(self).current_lane,
            final(self).score == old(self).score,
            final(self).dimentions == old(self).dimentions,
            final(self).sensors == old(self).sensors,
            final(self).brain is Some <==> old(self).brain is Some,
            final(self).brain is Some ==> default_topology(final(self).brain->Some_0),
            final(self).brain is Some ==> match ref_brain {
                Option::Some(b) => blended_toward(final(self).brain->Some_0, *b, t as int),
                Option::None => true,
            },
            final(self).position.x == lane_center_value(*road, final(self).current_lane) - old(
                self,
            ).scaled_w_spec() / 2,
    {
        let lane = road.random_lane_idx();
        self.damaged = false;
        self.did_just_crashed = false;
        self.changing_lane = false;
        self.brake_checking = false;
        self.brake_checking_frame_count = 0;
        self.current_lane = lane;
        self.target_lane = lane;
        self.position.y = y;
        self.position.angle = 0;
        self.motion.velocity = 0;
        let has_brain = self.brain.is_some();
        if has_brain {
            let mut sizes: Vec<u32> = Vec::new();
            let mut i: usize = 0;
            while i < 9
                invariant
                    i <= 9,
                    sizes@.len() == i,
                    forall|k: int| 0 <= k < i ==> #[trigger] sizes@[k] == 64,
                decreases 9 - i,
            {
                sizes.push(64);
                i = i + 1;
            }
            sizes.push(4);
            let mut fresh = NeuralNetwork::new(sizes.as_slice());
            fresh.randomize();
            match ref_brain {
                Option::Some(rb) => {
                    assert(same_topology(fresh, *rb));
                    let ghost pre = fresh;
                    fresh.prune(rb, t);
                    proof {
                        lemma_pruned_is_blended(pre, fresh, *rb, t as int);
                    }
                },
                Option::None => {},
            }
            assert(default_topology(fresh));
            self.brain = Option::Some(fresh);
        }
        let center = road.lane_center(lane);
        match center {
            Option::Some(c) => {
                let half = self.scaled_width() / 2;
                self.position.x = c - half;
            },
            Option::None => {},
        }
    }
}

/// A vehicle under keyboard control: the wrapped agent carries no
/// brain, and its controls come from outside.
pub struct ControlledCar {
    pub car: Car,
}

impl ControlledCar {
    /// Wraps an agent for keyboard control, dropping its brain.
    pub fn new(car: Car) -> (r: ControlledCar)
        requires
            car.wf(),
        ensures
            r.car.wf(),
            r.car.brain is None,
            r.car == (Car { brain: Option::None, ..car }),
    {
        let mut c = car;
        c.brain = Option::None;
        ControlledCar { car: c }
    }

    /// The camera scroll that keeps the agent at the target height.
    pub fn screen_offset(&self, target_y: i64) -> (r: i64)
        requires
            self.car.wf(),
            -POS_LIMIT <= target_y <= POS_LIMIT,
        ensures
            r == self.car.position.y - target_y,
    {
        self.car.position.y - target_y
    }

    /// Sets the four control intents, as the platform's keyboard
    /// handler reports them; ignored while the agent is damaged.
    pub fn set_controls(&mut self, forward: bool, backward: bool, left: bool, right: bool)
        requires
            old(self).car.wf(),
        ensures
            final(self).car.wf(),
            old(self).car.damaged ==> *final(self) == *old(self),
            !old(self).car.damaged ==> *final(self) == (ControlledCar {
                car: Car {
                    controls: Controls { forward, backward, left, right },
                    ..old(self).car
                },
            }),
    {
        if self.car.damaged {
            return;
        }
        self.car.controls.forward = forward;
        self.car.controls.backward = backward;
        self.car.controls.left = left;
        self.car.controls.right = right;
    }

    /// One frame of the wrapped agent's update cycle; a fresh crash is
    /// counted off the live-agent tally and the crash flag is consumed.
    pub fn update(
        &mut self,
        delta_t_ms: i64,
        offset: i64,
        road: &Road,
        traffic: &Vec<Car>,
        cars_alive: &mut i64,
    )
        requires
            old(self).car.wf(),
            road.wf(),
            0 <= delta_t_ms <= 1000,
            -OFFSET_BOUND <= offset <= OFFSET_BOUND,
            forall|k: int| 0 <= k < traffic@.len() ==> (#[trigger] traffic@[k]).wf(),
            old(self).car.dummy && old(self).car.changing_lane ==> (old(self).car.target_lane as int) < road.lanes,
            *old(cars_alive) > i64::MIN,
        ensures
            final(self).car.wf(),
            !final(self).car.did_just_crashed,
            final(self).car.damaged == (old(self).car.damaged || collides(
                hitbox_world_seq(old(self).car, offset as int),
                *road,
                traffic@,
                offset as int,
            )),
            *final(cars_alive) == *old(cars_alive) - (
            if (old(self).car.did_just_crashed || (!old(self).car.damaged && final(self).car.damaged)) {
                1int
            } else {
                0int
            }),
    {
        self.car.update(delta_t_ms, offset, road, traffic);
        if self.car.did_just_crashed {
            *cars_alive = *cars_alive - 1;
            self.car.did_just_crashed = false;
        }
    }
}

/// The centered crop window of `width` by `height` inside a texture of
/// the given dimensions, clamped to the texture.
pub open spec fn crop_rect_spec(d: Dimentions, width: u32, height: u32) -> SrcRect {
    SrcRect {
        x: if d.w > width {
            (((d.w - width) as u32) / 2) as u32
        } else {
            0u32
        },
        y: if d.h > height {
            (((d.h - height) as u32) / 2) as u32
        } else {
            0u32
        },
        w: if width < d.w {
            width
        } else {
            d.w
        },
        h: if height < d.h {
            height
        } else {
            d.h
        },
    }
}

/// The x-coordinate of a valid lane's center.
pub open spec fn lane_center_value(road: Road, lane: u32) -> int {
    road.left + road.width / road.lanes / 2 + lane * (road.width / road.lanes)
}

/// The agent's sprite is centered on one of the road's lanes: its x is
/// a valid lane's center minus half the drawn width.
pub open spec fn lane_centered(c: Car, road: Road) -> bool {
    exists|lane: u32|
        (lane as int) < road.lanes && c.position.x == #[trigger] lane_center_value(road, lane)
            - c.scaled_w_spec() / 2
}

/// The ten local hitbox points for a sprite of scaled size `w` by `h`,
/// centered on the origin: asymmetric front/back/side insets
/// approximating a car silhouette.
pub open spec fn hitbox_local(w: int, h: int, i: int) -> (int, int) {
    let side_y = h * 600 / 1000;
    let side_w = w * 100 / 1000;
    let front_y = h * 200 / 1000;
    let front_w = w * 200 / 1000;
    let corner_y = h * 40 / 1000;
    let corner_w = w * 600 / 1000;
    let back_y = h * 300 / 1000;
    let back_w = w * 550 / 1000;
    if i == 0 {
        (-((w - side_w) / 2), -((h - side_y) / 2))
    } else if i == 1 {
        (-((w - front_w) / 2), -((h - front_y) / 2))
    } else if i == 2 {
        (-((w - corner_w) / 2), -((h - corner_y) / 2))
    } else if i == 3 {
        ((w - corner_w) / 2, -((h - corner_y) / 2))
    } else if i == 4 {
        ((w - front_w) / 2, -((h - front_y) / 2))
    } else if i == 5 {
        ((w - side_w) / 2, -((h - side_y) / 2))
    } else if i == 6 {
        ((w - side_w) / 2, (h - back_y) / 2)
    } else if i == 7 {
        ((w - back_w) / 2, (h - side_w) / 2)
    } else if i == 8 {
        (-((w - back_w) / 2), (h - side_w) / 2)
    } else {
        (-((w - side_w) / 2), (h - back_y) / 2)
    }
}

/// Hitbox point `i` of an agent in screen space: the local point
/// rotated by the heading and translated to the sprite's center, with
/// the camera offset taken off the y-coordinate.
pub open spec fn hitbox_world(c: Car, offset: int, i: int) -> Point {
    let w = c.scaled_w_spec();
    let h = c.scaled_h_spec();
    let cx = c.position.x + w / 2;
    let cy = c.position.y - offset + h / 2;
    let p = hitbox_local(w, h, i);
    let a = c.position.angle as int;
    let rx = spec_muldiv(p.0, spec_cos(a), 1000) - spec_muldiv(p.1, spec_sin(a), 1000);
    let ry = spec_muldiv(p.0, spec_sin(a), 1000) + spec_muldiv(p.1, spec_cos(a), 1000);
    Point { x: (rx + cx) as i64, y: (ry + cy) as i64 }
}

/// The full screen-space hitbox polygon of an agent.
pub open spec fn hitbox_world_seq(c: Car, offset: int) -> Seq<Point> {
    Seq::new(10, |i: int| hitbox_world(c, offset, i))
}

impl Car {
    /// The ten local hitbox points for a sprite of scaled size `w` by
    /// `h`, before rotation and translation.
    pub fn get_hitbox_points(&self, w: i64, h: i64) -> (r: Vec<Point>)
        requires
            0 <= w <= 100_000_000,
            0 <= h <= 100_000_000,
            w * 100 / 1000 <= h,
        ensures
            r@.len() == 10,
            forall|i: int|
                0 <= i < 10 ==> (#[trigger] r@[i]).x == hitbox_local(w as int, h as int, i).0
                    && r@[i].y == hitbox_local(w as int, h as int, i).1,
            forall|i: int|
                0 <= i < 10 ==> -100_000_000 <= (#[trigger] r@[i]).x <= 100_000_000
                    && -100_000_000 <= r@[i].y <= 100_000_000,
    {
        let side_y = h * 600 / 1000;
        let side_w = w * 100 / 1000;
        let front_y = h * 200 / 1000;
        let front_w = w * 200 / 1000;
        let corner_y = h * 40 / 1000;
        let corner_w = w * 600 / 1000;
        let back_y = h * 300 / 1000;
        let back_w = w * 550 / 1000;
        let mut r: Vec<Point> = Vec::new();
        r.push(Point { x: -((w - side_w) / 2), y: -((h - side_y) / 2) });
        r.push(Point { x: -((w - front_w) / 2), y: -((h - front_y) / 2) });
        r.push(Point { x: -((w - corner_w) / 2), y: -((h - corner_y) / 2) });
        r.push(Point { x: (w - corner_w) / 2, y: -((h - corner_y) / 2) });
        r.push(Point { x: (w - front_w) / 2, y: -((h - front_y) / 2) });
        r.push(Point { x: (w - side_w) / 2, y: -((h - side_y) / 2) });
        r.push(Point { x: (w - side_w) / 2, y: (h - back_y) / 2 });
        r.push(Point { x: (w - back_w) / 2, y: (h - side_w) / 2 });
        r.push(Point { x: -((w - back_w) / 2), y: (h - side_w) / 2 });
        r.push(Point { x: -((w - side_w) / 2), y: (h - back_y) / 2 });
        assert forall|i: int|
            0 <= i < 10 implies (#[trigger] r@[i]).x == hitbox_local(w as int, h as int, i).0
            && r@[i].y == hitbox_local(w as int, h as int, i).1 by {
            if i == 0 {
            } else if i == 1 {
            } else if i == 2 {
            } else if i == 3 {
            } else if i == 4 {
            } else if i == 5 {
            } else if i == 6 {
            } else if i == 7 {
            } else if i == 8 {
            } else {
                assert(i == 9);
            }
        }
        r
    }

    /// The agent's current screen-space hitbox polygon: the local
    /// points rotated by the heading and translated to the sprite's
    /// center, with the camera offset taken off the y-coordinate.
    pub fn rotate_hitbox_points(&self, offset: i64) -> (r: Vec<Point>)
        requires
            self.wf(),
            -OFFSET_BOUND <= offset <= OFFSET_BOUND,
        ensures
            r@.len() == 10,
            forall|i: int| 0 <= i < 10 ==> #[trigger] r@[i] == hitbox_world(*self, offset as int, i),
            forall|i: int| 0 <= i < 10 ==> in_seg_bounds(#[trigger] r@[i]),
    {
        let (w, h) = self.src_dimentions_scaled();
        proof {
            let bw: int = if self.src_rect is Some {
                self.src_rect->Some_0.w as int
            } else {
                self.dimentions.w as int
            };
            let bh: int = if self.src_rect is Some {
                self.src_rect->Some_0.h as int
            } else {
                self.dimentions.h as int
            };
            assert(bw * self.dimentions.scale <= 10 * (bh * self.dimentions.scale))
                by (nonlinear_arith)
                requires
                    bw <= 10 * bh,
                    self.dimentions.scale > 0,
            ;
        }
        let cx = self.position.x + w / 2;
        let cy = (self.position.y - offset) + h / 2;
        let s = sin_mdeg(self.position.angle);
        let c = cos_mdeg(self.position.angle);
        let local = self.get_hitbox_points(w, h);
        let mut r: Vec<Point> = Vec::new();
        let mut i: usize = 0;
        while i < 10
            invariant
                self.wf(),
                local@.len() == 10,
                forall|k: int|
                    0 <= k < 10 ==> (#[trigger] local@[k]).x == hitbox_local(w as int, h as int, k).0
                        && local@[k].y == hitbox_local(w as int, h as int, k).1,
                forall|k: int|
                    0 <= k < 10 ==> -100_000_000 <= (#[trigger] local@[k]).x <= 100_000_000
                        && -100_000_000 <= local@[k].y <= 100_000_000,
                w == self.scaled_w_spec(),
                h == self.scaled_h_spec(),
                cx == self.position.x + w / 2,
                cy == self.position.y - offset + h / 2,
                -OFFSET_BOUND <= offset <= OFFSET_BOUND,
                s == spec_sin(self.position.angle as int),
                c == spec_cos(self.position.angle as int),
                -1000 <= s <= 1000,
                -1000 <= c <= 1000,
                i <= 10,
                r@.len() == i,
                forall|k: int|
                    0 <= k < i ==> #[trigger] r@[k] == hitbox_world(*self, offset as int, k),
                forall|k: int| 0 <= k < i ==> in_seg_bounds(#[trigger] r@[k]),
            decreases 10 - i,
        {
            let p = local[i];
            proof {
                lemma_muldiv_bound(p.x as int, c as int, 1000, 100_000_000, 1000);
                lemma_muldiv_bound(p.x as int, s as int, 1000, 100_000_000, 1000);
                lemma_muldiv_bound(p.y as int, s as int, 1000, 100_000_000, 1000);
                lemma_muldiv_bound(p.y as int, c as int, 1000, 100_000_000, 1000);
            }
            let rx = muldiv(p.x, c, 1000) - muldiv(p.y, s, 1000);
            let ry = muldiv(p.x, s, 1000) + muldiv(p.y, c, 1000);
            r.push(Point { x: rx + cx, y: ry + cy });
            i = i + 1;
        }
        r
    }

    /// The hitbox polygon computed by the last update.
    pub fn hitbox(&self) -> (r: &Vec<Point>)
        ensures
            r@ == self.hitbox@,
    {
        &self.hitbox
    }
}

/// Edge `i` of a closed polygon: from point `i` to the next point,
/// wrapping around at the end.
pub open spec fn edge_of(pts: Seq<Point>, i: int) -> (Point, Point) {
    (pts[i], pts[if i + 1 == pts.len() { 0int } else { i + 1 }])
}

/// The segment hits some edge of the polygon.
pub open spec fn hits_poly(a: Point, b: Point, pts: Seq<Point>) -> bool {
    exists|i: int|
        0 <= i < pts.len() && hit_exists(a, b, (#[trigger] edge_of(pts, i)).0, edge_of(pts, i).1)
}

/// The segment hits some road border.
pub open spec fn hits_borders(a: Point, b: Point, borders: Seq<Border>) -> bool {
    exists|i: int|
        0 <= i < borders.len() && hit_exists(a, b, (#[trigger] borders[i]).start, borders[i].end)
}

/// The segment hits some traffic agent's freshly computed hitbox.
pub open spec fn hits_traffic(a: Point, b: Point, traffic: Seq<Car>, offset: int) -> bool {
    exists|k: int|
        0 <= k < traffic.len() && hits_poly(a, b, hitbox_world_seq(#[trigger] traffic[k], offset))
}

/// Some edge of the agent's hitbox hits a border or a traffic agent.
pub open spec fn collides(hb: Seq<Point>, road: Road, traffic: Seq<Car>, offset: int) -> bool {
    exists|e: int|
        0 <= e < hb.len() && (hits_borders(
            (#[trigger] edge_of(hb, e)).0,
            edge_of(hb, e).1,
            road.borders@,
        ) || hits_traffic(edge_of(hb, e).0, edge_of(hb, e).1, traffic, offset))
}

/// Whether the segment hits any border of the road.
fn segment_hits_borders(a: Point, b: Point, borders: &Vec<Border>) -> (r: bool)
    requires
        in_seg_bounds(a),
        in_seg_bounds(b),
        forall|i: int|
            0 <= i < borders@.len() ==> in_seg_bounds((#[trigger] borders@[i]).start)
                && in_seg_bounds(borders@[i].end),
    ensures
        r == hits_borders(a, b, borders@),
{
    let n = borders.len();
    let mut found = false;
    for i in 0..n
        invariant
            n == borders@.len(),
            in_seg_bounds(a),
            in_seg_bounds(b),
            forall|k: int|
                0 <= k < borders@.len() ==> in_seg_bounds((#[trigger] borders@[k]).start)
                    && in_seg_bounds(borders@[k].end),
            found == exists|k: int|
                0 <= k < i && hit_exists(a, b, (#[trigger] borders@[k]).start, borders@[k].end),
    {
        let border = &borders[i];
        let touch = get_intersection(a, b, border.start, border.end);
        if touch.is_some() {
            found = true;
        }
    }
    found
}

/// Whether the segment hits any edge of a closed polygon.
fn segment_hits_polygon(a: Point, b: Point, pts: &Vec<Point>) -> (r: bool)
    requires
        in_seg_bounds(a),
        in_seg_bounds(b),
        forall|i: int| 0 <= i < pts@.len() ==> in_seg_bounds(#[trigger] pts@[i]),
    ensures
        r == hits_poly(a, b, pts@),
{
    let n = pts.len();
    let mut found = false;
    for i in 0..n
        invariant
            n == pts@.len(),
            in_seg_bounds(a),
            in_seg_bounds(b),
            forall|k: int| 0 <= k < pts@.len() ==> in_seg_bounds(#[trigger] pts@[k]),
            found == exists|k: int|
                0 <= k < i && hit_exists(a, b, (#[trigger] edge_of(pts@, k)).0, edge_of(pts@, k).1),
    {
        let c = pts[i];
        let next = if i + 1 == n {
            0
        } else {
            i + 1
        };
        let d = pts[next];
        assert(c == edge_of(pts@, i as int).0 && d == edge_of(pts@, i as int).1);
        let touch = get_intersection(a, b, c, d);
        if touch.is_some() {
            found = true;
        }
    }
    found
}

/// Whether the segment hits any traffic agent's hitbox, each computed
/// fresh from that agent's pose.
fn segment_hits_traffic(a: Point, b: Point, traffic: &Vec<Car>, offset: i64) -> (r: bool)
    requires
        in_seg_bounds(a),
        in_seg_bounds(b),
        -OFFSET_BOUND <= offset <= OFFSET_BOUND,
        forall|k: int| 0 <= k < traffic@.len() ==> (#[trigger] traffic@[k]).wf(),
    ensures
        r == hits_traffic(a, b, traffic@, offset as int),
{
    let n = traffic.len();
    let mut found = false;
    for k in 0..n
        invariant
            n == traffic@.len(),
            in_seg_bounds(a),
            in_seg_bounds(b),
            -OFFSET_BOUND <= offset <= OFFSET_BOUND,
            forall|m: int| 0 <= m < traffic@.len() ==> (#[trigger] traffic@[m]).wf(),
            found == exists|m: int|
                0 <= m < k && hits_poly(a, b, hitbox_world_seq(#[trigger] traffic@[m], offset as int)),
    {
        let other: &Car = &traffic[k];
        let pts = other.rotate_hitbox_points(offset);
        assert(pts@ =~= hitbox_world_seq(traffic@[k as int], offset as int));
        if segment_hits_polygon(a, b, &pts) {
            found = true;
        }
    }
    found
}

/// The smaller of two optional intersection parameters; `None` stands
/// for no hit.
pub open spec fn opt_min(a: Option<int>, b: Option<int>) -> Option<int> {
    match b {
        Option::None => a,
        Option::Some(y) => match a {
            Option::None => b,
            Option::Some(x) => if x <= y {
                a
            } else {
                b
            },
        },
    }
}

/// The intersection parameter of a single obstacle segment, if hit.
pub open spec fn seg_t(a: Point, b: Point, c: Point, d: Point) -> Option<int> {
    if hit_exists(a, b, c, d) {
        Option::Some(t_scaled(a, b, c, d))
    } else {
        Option::None
    }
}

/// The closest intersection parameter over a border list.
pub open spec fn borders_min_t(a: Point, b: Point, borders: Seq<Border>) -> Option<int>
    decreases borders.len(),
{
    if borders.len() == 0 {
        Option::None
    } else {
        opt_min(
            borders_min_t(a, b, borders.drop_last()),
            seg_t(a, b, borders.last().start, borders.last().end),
        )
    }
}

/// The closest intersection parameter over the first `n` edges of a
/// closed polygon.
pub open spec fn poly_min_t(a: Point, b: Point, pts: Seq<Point>, n: int) -> Option<int>
    decreases n,
{
    if n <= 0 {
        Option::None
    } else {
        opt_min(
            poly_min_t(a, b, pts, n - 1),
            seg_t(a, b, edge_of(pts, n - 1).0, edge_of(pts, n - 1).1),
        )
    }
}

/// The closest intersection parameter over the stored hitboxes of a
/// traffic snapshot.
pub open spec fn traffic_min_t(a: Point, b: Point, traffic: Seq<Car>) -> Option<int>
    decreases traffic.len(),
{
    if traffic.len() == 0 {
        Option::None
    } else {
        opt_min(
            traffic_min_t(a, b, traffic.drop_last()),
            poly_min_t(a, b, traffic.last().hitbox@, traffic.last().hitbox@.len() as int),
        )
    }
}

/// The closest intersection parameter of a ray segment against all
/// road borders and the traffic snapshot's stored hitboxes.
pub open spec fn ray_min_t(a: Point, b: Point, road: Road, traffic: Seq<Car>) -> Option<int> {
    opt_min(borders_min_t(a, b, road.borders@), traffic_min_t(a, b, traffic))
}

/// A ray's reading from its closest hit: 1 at the origin, 0 for no
/// hit within the ray's length.
pub open spec fn reading_of(mt: Option<int>) -> int {
    match mt {
        Option::Some(t) => 1000 - t,
        Option::None => 0,
    }
}

/// An optional parameter as a mathematical value.
pub open spec fn lift_opt(o: Option<i64>) -> Option<int> {
    match o {
        Option::None => Option::None,
        Option::Some(v) => Option::Some(v as int),
    }
}

/// Merging is associative, so hits can be folded in any grouping.
proof fn lemma_opt_min_assoc(x: Option<int>, y: Option<int>, z: Option<int>)
    ensures
        opt_min(opt_min(x, y), z) == opt_min(x, opt_min(y, z)),
{
}

/// The closest hit of the segment over the first `n` edges of a
/// polygon of stored hitbox points.
fn poly_min(a: Point, b: Point, pts: &Vec<Point>) -> (r: Option<i64>)
    requires
        in_seg_bounds(a),
        in_seg_bounds(b),
        forall|i: int| 0 <= i < pts@.len() ==> in_seg_bounds(#[trigger] pts@[i]),
    ensures
        lift_opt(r) == poly_min_t(a, b, pts@, pts@.len() as int),
        r is Some ==> 0 <= r->Some_0 <= 1000,
{
    let n = pts.len();
    let mut best: Option<i64> = Option::None;
    for i in 0..n
        invariant
            n == pts@.len(),
            in_seg_bounds(a),
            in_seg_bounds(b),
            forall|k: int| 0 <= k < pts@.len() ==> in_seg_bounds(#[trigger] pts@[k]),
            lift_opt(best) == poly_min_t(a, b, pts@, i as int),
            best is Some ==> 0 <= best->Some_0 <= 1000,
    {
        let c = pts[i];
        let next = if i + 1 == n {
            0
        } else {
            i + 1
        };
        let d = pts[next];
        assert(c == edge_of(pts@, i as int).0 && d == edge_of(pts@, i as int).1);
        let touch = get_intersection(a, b, c, d);
        match touch {
            Option::Some(hit) => {
                best = match best {
                    Option::None => Option::Some(hit.t),
                    Option::Some(bt) => if bt <= hit.t {
                        Option::Some(bt)
                    } else {
                        Option::Some(hit.t)
                    },
                };
            },
            Option::None => {},
        }
    }
    best
}

/// The closest hit of a ray segment over every border and every
/// traffic agent's stored hitbox, with the parameter scaled by 1000.
fn cast_segment(a: Point, b: Point, road: &Road, traffic: &Vec<Car>) -> (r: Option<i64>)
    requires
        in_seg_bounds(a),
        in_seg_bounds(b),
        road.wf(),
        forall|k: int| 0 <= k < traffic@.len() ==> (#[trigger] traffic@[k]).wf(),
    ensures
        lift_opt(r) == ray_min_t(a, b, *road, traffic@),
        r is Some ==> 0 <= r->Some_0 <= 1000,
{
    let nb = road.borders.len();
    let mut best: Option<i64> = Option::None;
    for i in 0..nb
        invariant
            nb == road.borders@.len(),
            in_seg_bounds(a),
            in_seg_bounds(b),
            road.wf(),
            lift_opt(best) == borders_min_t(a, b, road.borders@.subrange(0, i as int)),
            best is Some ==> 0 <= best->Some_0 <= 1000,
    {
        let border = &road.borders[i];
        let touch = get_intersection(a, b, border.start, border.end);
        proof {
            let pre = road.borders@.subrange(0, i as int);
            let cur = road.borders@.subrange(0, i as int + 1);
            assert(cur.drop_last() =~= pre);
            assert(cur.last() == road.borders@[i as int]);
        }
        match touch {
            Option::Some(hit) => {
                best = match best {
                    Option::None => Option::Some(hit.t),
                    Option::Some(bt) => if bt <= hit.t {
                        Option::Some(bt)
                    } else {
                        Option::Some(hit.t)
                    },
                };
            },
            Option::None => {},
        }
    }
    assert(road.borders@.subrange(0, nb as int) =~= road.borders@);
    let nt = traffic.len();
    let ghost border_part = borders_min_t(a, b, road.borders@);
    for k in 0..nt
        invariant
            nt == traffic@.len(),
            in_seg_bounds(a),
            in_seg_bounds(b),
            road.wf(),
            forall|m: int| 0 <= m < traffic@.len() ==> (#[trigger] traffic@[m]).wf(),
            border_part == borders_min_t(a, b, road.borders@),
            lift_opt(best) == opt_min(border_part, traffic_min_t(a, b, traffic@.subrange(0, k as int))),
            best is Some ==> 0 <= best->Some_0 <= 1000,
    {
        let other: &Car = &traffic[k];
        let p = poly_min(a, b, &other.hitbox);
        proof {
            let pre = traffic@.subrange(0, k as int);
            let cur = traffic@.subrange(0, k as int + 1);
            assert(cur.drop_last() =~= pre);
            assert(cur.last() == traffic@[k as int]);
            lemma_opt_min_assoc(
                border_part,
                traffic_min_t(a, b, pre),
                poly_min_t(a, b, traffic@[k as int].hitbox@, traffic@[k as int].hitbox@.len() as int),
            );
        }
        match p {
            Option::Some(t) => {
                best = match best {
                    Option::None => Option::Some(t),
                    Option::Some(bt) => if bt <= t {
                        Option::Some(bt)
                    } else {
                        Option::Some(t)
                    },
                };
            },
            Option::None => {},
        }
    }
    assert(traffic@.subrange(0, nt as int) =~= traffic@);
    best
}

/// Where an agent at pose `pos` with scaled sprite size `w` by `h`
/// anchors a sensor, in screen space.
pub open spec fn sensor_base(pos: Position, w: int, h: int, s: Sensor, offset: int) -> Point {
    let p = base_point_spec(s.pos, pos.x as int, pos.y - offset, w, h);
    Point { x: p.0 as i64, y: p.1 as i64 }
}

/// What one ray reads for an agent: its segment from the sensor's
/// anchor, cast against every border and the traffic snapshot.
pub open spec fn ray_reading(ray: Ray, base: Point, heading: int, road: Road, traffic: Seq<Car>) -> int {
    let oa = ray_cast_angle(ray.angle as int, heading);
    let end = Point {
        x: (base.x + ray_dx(ray.length as int, oa)) as i64,
        y: (base.y - ray_dy(ray.length as int, oa)) as i64,
    };
    reading_of(ray_min_t(base, end, road, traffic))
}

/// One sensor's readings, in ray order.
pub open spec fn sensor_readings_spec(
    s: Sensor,
    base: Point,
    heading: int,
    road: Road,
    traffic: Seq<Car>,
) -> Seq<i64> {
    Seq::new(s.rays@.len(), |i: int| ray_reading(s.rays@[i], base, heading, road, traffic) as i64)
}

/// All sensors' readings concatenated in sensor order: the network's
/// input vector.
pub open spec fn sweep_spec(
    sensors: Seq<Sensor>,
    pos: Position,
    w: int,
    h: int,
    offset: int,
    road: Road,
    traffic: Seq<Car>,
) -> Seq<i64>
    decreases sensors.len(),
{
    if sensors.len() == 0 {
        Seq::empty()
    } else {
        sweep_spec(sensors.drop_last(), pos, w, h, offset, road, traffic) + sensor_readings_spec(
            sensors.last(),
            sensor_base(pos, w, h, sensors.last(), offset),
            pos.angle as int,
            road,
            traffic,
        )
    }
}

/// The concatenated readings line up one to one with the rays.
pub proof fn lemma_sweep_len(
    sensors: Seq<Sensor>,
    pos: Position,
    w: int,
    h: int,
    offset: int,
    road: Road,
    traffic: Seq<Car>,
)
    ensures
        sweep_spec(sensors, pos, w, h, offset, road, traffic).len() == total_rays(sensors),
    decreases sensors.len(),
{
    if sensors.len() > 0 {
        lemma_sweep_len(sensors.drop_last(), pos, w, h, offset, road, traffic);
    }
}

impl Car {
    /// Casts every sensor's rays from the agent's current pose and
    /// concatenates the readings in fixed sensor/ray order.
    fn compute_readings(&self, offset: i64, road: &Road, traffic: &Vec<Car>) -> (r: Vec<i64>)
        requires
            self.wf(),
            road.wf(),
            -OFFSET_BOUND <= offset <= OFFSET_BOUND,
            forall|k: int| 0 <= k < traffic@.len() ==> (#[trigger] traffic@[k]).wf(),
        ensures
            r@ == sweep_spec(
                self.sensors@,
                self.position,
                self.scaled_w_spec(),
                self.scaled_h_spec(),
                offset as int,
                *road,
                traffic@,
            ),
            r@.len() == total_rays(self.sensors@),
            all_milli(r@),
    {
        let (w, h) = self.src_dimentions_scaled();
        let sy = self.position.y - offset;
        let ns = self.sensors.len();
        let mut out: Vec<i64> = Vec::new();
        for si in 0..ns
            invariant
                self.wf(),
                road.wf(),
                -OFFSET_BOUND <= offset <= OFFSET_BOUND,
                forall|k: int| 0 <= k < traffic@.len() ==> (#[trigger] traffic@[k]).wf(),
                ns == self.sensors@.len(),
                w == self.scaled_w_spec(),
                h == self.scaled_h_spec(),
                0 <= w <= 100_000_000,
                0 <= h <= 100_000_000,
                sy == self.position.y - offset,
                out@ == sweep_spec(
                    self.sensors@.subrange(0, si as int),
                    self.position,
                    w as int,
                    h as int,
                    offset as int,
                    *road,
                    traffic@,
                ),
                all_milli(out@),
        {
            let s: &Sensor = &self.sensors[si];
            let (bx, by) = s.base_point(self.position.x, sy, w, h);
            let base = Point { x: bx, y: by };
            assert(base == sensor_base(
                self.position,
                w as int,
                h as int,
                self.sensors@[si as int],
                offset as int,
            ));
            let nr = s.rays.len();
            let ghost part = sensor_readings_spec(
                self.sensors@[si as int],
                base,
                self.position.angle as int,
                *road,
                traffic@,
            );
            let mut i: usize = 0;
            while i < nr
                invariant
                    self.wf(),
                    road.wf(),
                    -OFFSET_BOUND <= offset <= OFFSET_BOUND,
                    forall|k: int| 0 <= k < traffic@.len() ==> (#[trigger] traffic@[k]).wf(),
                    ns == self.sensors@.len(),
                    si < ns,
                    *s == self.sensors@[si as int],
                    nr == s.rays@.len(),
                    i <= nr,
                    -BASE_BOUND <= base.x <= BASE_BOUND,
                    -BASE_BOUND <= base.y <= BASE_BOUND,
                    part == sensor_readings_spec(
                        self.sensors@[si as int],
                        base,
                        self.position.angle as int,
                        *road,
                        traffic@,
                    ),
                    out@ == sweep_spec(
                        self.sensors@.subrange(0, si as int),
                        self.position,
                        w as int,
                        h as int,
                        offset as int,
                        *road,
                        traffic@,
                    ) + part.subrange(0, i as int),
                    all_milli(out@),
                decreases nr - i,
            {
                let ray: &Ray = &s.rays[i];
                let (ra, rb) = ray.segment(base.x, base.y, self.position.angle);
                let mt = cast_segment(ra, rb, road, traffic);
                let val: i64 = match mt {
                    Option::Some(t) => 1000 - t,
                    Option::None => 0,
                };
                assert(val == ray_reading(
                    self.sensors@[si as int].rays@[i as int],
                    base,
                    self.position.angle as int,
                    *road,
                    traffic@,
                ));
                out.push(val);
                proof {
                    assert(part.subrange(0, i as int + 1) =~= part.subrange(0, i as int).push(
                        part[i as int],
                    ));
                }
                i = i + 1;
            }
            proof {
                assert(part.subrange(0, nr as int) =~= part);
                let pre = self.sensors@.subrange(0, si as int);
                let cur = self.sensors@.subrange(0, si as int + 1);
                assert(cur.drop_last() =~= pre);
                assert(cur.last() == self.sensors@[si as int]);
            }
        }
        proof {
            assert(self.sensors@.subrange(0, ns as int) =~= self.sensors@);
            lemma_sweep_len(
                self.sensors@,
                self.position,
                self.scaled_w_spec(),
                self.scaled_h_spec(),
                offset as int,
                *road,
                traffic@,
            );
        }
        out
    }
}

/// The velocity gained by one frame of throttle: acceleration scaled
/// by the timestep and the frame-rate factor.
pub open spec fn accel_step(acc: int, dt: int) -> int {
    spec_muldiv(acc, dt * ACCEL_GAIN, 1_000_000)
}

/// The velocity lost by one frame of reverse throttle: reverse
/// accelerates slower than forward by half.
pub open spec fn reverse_step(acc: int, dt: int) -> int {
    spec_muldiv(acc, dt * ACCEL_GAIN, 1_500_000)
}

/// Velocity after the engaged controls are applied.
pub open spec fn vel_after_controls(m: Motion, c: Controls, dt: int) -> int {
    m.velocity + (if c.forward {
        accel_step(m.acceleration as int, dt)
    } else {
        0
    }) - (if c.backward {
        reverse_step(m.acceleration as int, dt)
    } else {
        0
    })
}

/// Velocity clamped to `[-max/2, max]`: reverse is capped at half.
pub open spec fn clamp_vel(v: int, max: int) -> int {
    if v > max {
        max
    } else if v < -(max / 2) {
        -(max / 2)
    } else {
        v
    }
}

/// The per-frame friction decay factor, in micro-units.
pub open spec fn friction_decay(fr: int, dt: int) -> int {
    spec_muldiv(fr, dt * ACCEL_GAIN, 1000)
}

/// Velocity after friction: scaled down by one minus the decay, and
/// never reversed in sign.
pub open spec fn vel_after_friction(v: int, fr: int, dt: int) -> int {
    let decay = friction_decay(fr, dt);
    let factor = if decay >= 1_000_000 {
        0
    } else {
        1_000_000 - decay
    };
    spec_muldiv(v, factor, 1_000_000)
}

/// Velocity snapped to exactly zero once below the friction threshold.
pub open spec fn snap_vel(v: int, fr: int) -> int {
    if -fr < v < fr {
        0
    } else {
        v
    }
}

/// The whole velocity pipeline of one frame for a brain- or
/// player-driven agent: throttle, clamp, friction decay, snap.
pub open spec fn vel_update(m: Motion, c: Controls, dt: int) -> int {
    snap_vel(
        vel_after_friction(
            clamp_vel(vel_after_controls(m, c, dt), m.max_velocity as int),
            m.friction_coefficient as int,
            dt,
        ),
        m.friction_coefficient as int,
    )
}

/// One steering step in millidegrees: the steering amount scaled by
/// 1/3.6.
pub open spec fn steer_amount(amount: int) -> int {
    spec_muldiv(amount, 1000, 3600)
}

/// The heading after one frame of steering for a brain- or
/// player-driven agent, before normalization: steering only takes
/// effect above the minimum speed.
pub open spec fn angle_after_steer(angle: int, v: int, c: Controls) -> int {
    let moving = v > MIN_STEER_VELOCITY || v < -MIN_STEER_VELOCITY;
    angle - (if moving && c.left {
        steer_amount(STEER_STEP as int)
    } else {
        0
    }) + (if moving && c.right {
        steer_amount(STEER_STEP as int)
    } else {
        0
    })
}

/// A coordinate clamped into the simulation's position range.
pub open spec fn clamp_pos(p: int) -> int {
    if p > POS_LIMIT {
        POS_LIMIT as int
    } else if p < -POS_LIMIT {
        -POS_LIMIT as int
    } else {
        p
    }
}

/// How far the agent moves in one frame, in milli-pixels: velocity
/// times timestep, converted from meters to pixels.
pub open spec fn travel_step(v: int, dt: int) -> int {
    spec_muldiv(v * dt, 1000, 37_798)
}

/// The x-coordinate after one frame: the travel step along the sine of
/// the final heading, clamped to the position range.
pub open spec fn next_x(x: int, v: int, dt: int, angle: int) -> int {
    clamp_pos(x + spec_muldiv(travel_step(v, dt), spec_sin(angle), 1000))
}

/// The y-coordinate after one frame: the travel step along the cosine
/// of the final heading, subtracted (negative y is forward), clamped.
pub open spec fn next_y(y: int, v: int, dt: int, angle: int) -> int {
    clamp_pos(y - spec_muldiv(travel_step(v, dt), spec_cos(angle), 1000))
}

/// Whether any edge of the agent's hitbox polygon hits a road border
/// or another agent.
fn check_collision(hb: &Vec<Point>, road: &Road, traffic: &Vec<Car>, offset: i64) -> (r: bool)
    requires
        road.wf(),
        -OFFSET_BOUND <= offset <= OFFSET_BOUND,
        forall|i: int| 0 <= i < hb@.len() ==> in_seg_bounds(#[trigger] hb@[i]),
        forall|k: int| 0 <= k < traffic@.len() ==> (#[trigger] traffic@[k]).wf(),
    ensures
        r == collides(hb@, *road, traffic@, offset as int),
{
    let n = hb.len();
    let mut found = false;
    for e in 0..n
        invariant
            n == hb@.len(),
            road.wf(),
            -OFFSET_BOUND <= offset <= OFFSET_BOUND,
            forall|i: int| 0 <= i < hb@.len() ==> in_seg_bounds(#[trigger] hb@[i]),
            forall|k: int| 0 <= k < traffic@.len() ==> (#[trigger] traffic@[k]).wf(),
            found == exists|m: int|
                0 <= m < e && (hits_borders(
                    (#[trigger] edge_of(hb@, m)).0,
                    edge_of(hb@, m).1,
                    road.borders@,
                ) || hits_traffic(edge_of(hb@, m).0, edge_of(hb@, m).1, traffic@, offset as int)),
    {
        let aa = hb[e];
        let next = if e + 1 == n {
            0
        } else {
            e + 1
        };
        let bb = hb[next];
        assert(aa == edge_of(hb@, e as int).0 && bb == edge_of(hb@, e as int).1);
        if segment_hits_borders(aa, bb, &road.borders) {
            found = true;
        }
        if segment_hits_traffic(aa, bb, traffic, offset) {
            found = true;
        }
    }
    found
}

} // verus!

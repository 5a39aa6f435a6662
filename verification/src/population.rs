//! The population and selection loop's logic: tracking the best-seen
//! brains across frames, picking the fittest agents of a frame, and
//! building the agent rosters and scripted traffic.

use vstd::prelude::*;
use crate::car::{Car, default_topology, lane_center_value, lane_centered, POS_LIMIT, VEL_BOUND, DIM_BOUND};
use crate::network::{NeuralNetwork, blended_toward, same_content};
use crate::road::Road;
use crate::rng::random_in_range;

verus! {

/// The cross-frame selection state: the two tracked best brains with
/// the progress and score they were seen at. Owned by the simulation
/// loop and passed explicitly.
pub struct PopulationState {
    pub best_brain: Option<NeuralNetwork>,
    pub sec_best_brain: Option<NeuralNetwork>,
    pub best_y: i64,
    pub best_score: i64,
    pub sec_y: i64,
    pub sec_score: i64,
}

impl PopulationState {
    /// Any tracked brain carries the standard topology.
    pub open spec fn wf(self) -> bool {
        &&& match self.best_brain {
            Option::Some(b) => default_topology(b),
            Option::None => true,
        }
        &&& match self.sec_best_brain {
            Option::Some(b) => default_topology(b),
            Option::None => true,
        }
    }

    /// An empty selection state: nothing tracked yet, so any candidate
    /// with a nonnegative score takes a slot.
    pub fn new() -> (r: PopulationState)
        ensures
            r.wf(),
            r.best_brain is None,
            r.sec_best_brain is None,
            r.best_y == POS_LIMIT,
            r.sec_y == POS_LIMIT,
            r.best_score == 0,
            r.sec_score == 0,
    {
        PopulationState {
            best_brain: Option::None,
            sec_best_brain: Option::None,
            best_y: POS_LIMIT,
            best_score: 0,
            sec_y: POS_LIMIT,
            sec_score: 0,
        }
    }

    /// Offers a candidate to both tracked slots. A slot is replaced
    /// exactly when the candidate is strictly farther along the track
    /// (smaller y) and has a non-worse score than the slot; the two
    /// slots are maintained independently to keep genetic diversity.
    pub fn consider(&mut self, y: i64, score: i64, brain: &NeuralNetwork)
        requires
            old(self).wf(),
            default_topology(*brain),
        ensures
            final(self).wf(),
            y < old(self).best_y && score >= old(self).best_score ==> final(self).best_y == y
                && final(self).best_score == score && final(self).best_brain is Some
                && same_content(final(self).best_brain->Some_0.levels@, brain.levels@),
            !(y < old(self).best_y && score >= old(self).best_score) ==> final(self).best_brain
                == old(self).best_brain && final(self).best_y == old(self).best_y && final(self).best_score == old(self).best_score,
            y < old(self).sec_y && score >= old(self).sec_score ==> final(self).sec_y == y
                && final(self).sec_score == score && final(self).sec_best_brain is Some
                && same_content(final(self).sec_best_brain->Some_0.levels@, brain.levels@),
            !(y < old(self).sec_y && score >= old(self).sec_score) ==> final(self).sec_best_brain
                == old(self).sec_best_brain && final(self).sec_y == old(self).sec_y && final(self).sec_score == old(self).sec_score,
    {
        if y < self.best_y && score >= self.best_score {
            self.best_y = y;
            self.best_score = score;
            self.best_brain = Option::Some(brain.duplicate());
        }
        if y < self.sec_y && score >= self.sec_score {
            self.sec_y = y;
            self.sec_score = score;
            self.sec_best_brain = Option::Some(brain.duplicate());
        }
    }
}

/// The first undamaged agent that is farthest along the track (least
/// y); `None` exactly when every agent is damaged.
pub fn best_progress_index(cars: &Vec<Car>) -> (r: Option<usize>)
    ensures
        r is None <==> (forall|k: int| 0 <= k < cars@.len() ==> (#[trigger] cars@[k]).damaged),
        r is Some ==> {
            let i = r->Some_0 as int;
            &&& 0 <= i < cars@.len()
            &&& !cars@[i].damaged
            &&& forall|k: int|
                0 <= k < cars@.len() && !(#[trigger] cars@[k]).damaged ==> cars@[i].position.y
                    <= cars@[k].position.y
            &&& forall|k: int|
                0 <= k < i && !(#[trigger] cars@[k]).damaged ==> cars@[i].position.y
                    < cars@[k].position.y
        },
{
    let n = cars.len();
    let mut r: Option<usize> = Option::None;
    for k in 0..n
        invariant
            n == cars@.len(),
            r is None <==> (forall|m: int| 0 <= m < k ==> (#[trigger] cars@[m]).damaged),
            r is Some ==> {
                let i = r->Some_0 as int;
                &&& 0 <= i < k
                &&& !cars@[i].damaged
                &&& forall|m: int|
                    0 <= m < k && !(#[trigger] cars@[m]).damaged ==> cars@[i].position.y
                        <= cars@[m].position.y
                &&& forall|m: int|
                    0 <= m < i && !(#[trigger] cars@[m]).damaged ==> cars@[i].position.y
                        < cars@[m].position.y
            },
    {
        let c: &Car = &cars[k];
        if !c.damaged {
            match r {
                Option::None => {
                    r = Option::Some(k);
                },
                Option::Some(i) => {
                    if c.position.y < cars[i].position.y {
                        r = Option::Some(k);
                    }
                },
            }
        }
    }
    r
}

/// The first undamaged agent with the highest score; `None` exactly
/// when every agent is damaged.
pub fn best_score_index(cars: &Vec<Car>) -> (r: Option<usize>)
    ensures
        r is None <==> (forall|k: int| 0 <= k < cars@.len() ==> (#[trigger] cars@[k]).damaged),
        r is Some ==> {
            let i = r->Some_0 as int;
            &&& 0 <= i < cars@.len()
            &&& !cars@[i].damaged
            &&& forall|k: int|
                0 <= k < cars@.len() && !(#[trigger] cars@[k]).damaged ==> cars@[i].score
                    >= cars@[k].score
            &&& forall|k: int|
                0 <= k < i && !(#[trigger] cars@[k]).damaged ==> cars@[i].score > cars@[k].score
        },
{
    let n = cars.len();
    let mut r: Option<usize> = Option::None;
    for k in 0..n
        invariant
            n == cars@.len(),
            r is None <==> (forall|m: int| 0 <= m < k ==> (#[trigger] cars@[m]).damaged),
            r is Some ==> {
                let i = r->Some_0 as int;
                &&& 0 <= i < k
                &&& !cars@[i].damaged
                &&& forall|m: int|
                    0 <= m < k && !(#[trigger] cars@[m]).damaged ==> cars@[i].score
                        >= cars@[m].score
                &&& forall|m: int|
                    0 <= m < i && !(#[trigger] cars@[m]).damaged ==> cars@[i].score > cars@[m].score
            },
    {
        let c: &Car = &cars[k];
        if !c.damaged {
            match r {
                Option::None => {
                    r = Option::Some(k);
                },
                Option::Some(i) => {
                    if c.score > cars[i].score {
                        r = Option::Some(k);
                    }
                },
            }
        }
    }
    r
}

/// Builds the brained roster: agents alternate between the two
/// reference brains, most blended strongly toward their reference
/// (factor 0.92) and every fifth only weakly (0.33), each cropped to
/// the sprite's car silhouette and placed in a random lane.
pub fn generate_ai_cars(
    amount: u32,
    road: &Road,
    ref_brain: Option<&NeuralNetwork>,
    ref_brain2: Option<&NeuralNetwork>,
    texture_width: u32,
    texture_height: u32,
) -> (r: Vec<Car>)
    requires
        road.wf(),
        amount <= 100_000,
        194 <= texture_width <= DIM_BOUND,
        380 <= texture_height <= DIM_BOUND,
        texture_width <= 10 * texture_height,
        match ref_brain {
            Option::Some(b) => default_topology(*b),
            Option::None => true,
        },
        match ref_brain2 {
            Option::Some(b) => default_topology(*b),
            Option::None => true,
        },
    ensures
        r@.len() == amount,
        forall|k: int|
            0 <= k < r@.len() ==> (#[trigger] r@[k]).wf() && !r@[k].dummy && !r@[k].damaged
                && r@[k].brain is Some && default_topology(r@[k].brain->Some_0),
        forall|k: int|
            0 <= k < r@.len() ==> (#[trigger] r@[k]).dimentions.scale == 300 && r@[k].src_rect
                is Some && r@[k].src_rect->Some_0.w == 194 && r@[k].src_rect->Some_0.h == 380,
        forall|k: int| 0 <= k < r@.len() ==> lane_centered(#[trigger] r@[k], *road),
        forall|k: int|
            0 <= k < r@.len() ==> match (if k % 2 == 0 {
                ref_brain
            } else {
                ref_brain2
            }) {
                Option::Some(b) => blended_toward(
                    (#[trigger] r@[k]).brain->Some_0,
                    *b,
                    if k % 5 == 0 {
                        330int
                    } else {
                        920int
                    },
                ),
                Option::None => true,
            },
{
    let mut cars: Vec<Car> = Vec::new();
    let n = amount as usize;
    for i in 0..n
        invariant
            n == amount,
            road.wf(),
            194 <= texture_width <= DIM_BOUND,
            380 <= texture_height <= DIM_BOUND,
            texture_width <= 10 * texture_height,
            match ref_brain {
                Option::Some(b) => default_topology(*b),
                Option::None => true,
            },
            match ref_brain2 {
                Option::Some(b) => default_topology(*b),
                Option::None => true,
            },
            cars@.len() == i,
            forall|k: int|
                0 <= k < cars@.len() ==> (#[trigger] cars@[k]).wf() && !cars@[k].dummy
                    && !cars@[k].damaged && cars@[k].brain is Some && default_topology(
                cars@[k].brain->Some_0),
            forall|k: int|
                0 <= k < cars@.len() ==> (#[trigger] cars@[k]).dimentions.scale == 300
                    && cars@[k].src_rect is Some && cars@[k].src_rect->Some_0.w == 194
                    && cars@[k].src_rect->Some_0.h == 380,
            forall|k: int| 0 <= k < cars@.len() ==> lane_centered(#[trigger] cars@[k], *road),
            forall|k: int|
                0 <= k < cars@.len() ==> match (if k % 2 == 0 {
                    ref_brain
                } else {
                    ref_brain2
                }) {
                    Option::Some(b) => blended_toward(
                        (#[trigger] cars@[k]).brain->Some_0,
                        *b,
                        if k % 5 == 0 {
                            330int
                        } else {
                            920int
                        },
                    ),
                    Option::None => true,
                },
    {
        let brain = if i % 2 == 0 {
            ref_brain
        } else {
            ref_brain2
        };
        let t: i64 = if i % 5 == 0 {
            330
        } else {
            920
        };
        let lane_idx = road.random_lane_idx();
        let mut car = Car::new(lane_idx, texture_width, texture_height, brain, t);
        let cropped = car.src_crop_center(194, 380, 300);
        let placed = car.set_in_lane(road, lane_idx);
        proof {
            assert(cropped is Ok);
            assert(placed is Ok);
            assert(0 <= (lane_idx as int) * (road.width / road.lanes) <= 1_000_000_000_000)
                by (nonlinear_arith)
                requires
                    0 <= (lane_idx as int) < 1000,
                    0 <= (road.width / road.lanes) <= 1_000_000_000,
            ;
            assert(car.position.x == lane_center_value(*road, lane_idx) - car.scaled_w_spec()
                / 2);
            assert(lane_centered(car, *road));
        }
        cars.push(car);
    }
    cars
}

/// Builds the scripted traffic: dummies at randomized near-maximum
/// speed, spawned below the window by a small random step, each in a
/// random lane.
pub fn generate_traffic(
    amount: u32,
    min_velocity: i64,
    h: i64,
    road: &Road,
    texture_width: u32,
    texture_height: u32,
) -> (r: Vec<Car>)
    requires
        road.wf(),
        amount <= 100_000,
        30 <= min_velocity,
        min_velocity + 4000 <= VEL_BOUND,
        0 <= h <= 1_000_000_000,
        194 <= texture_width <= DIM_BOUND,
        380 <= texture_height <= DIM_BOUND,
        texture_width <= 10 * texture_height,
    ensures
        r@.len() == amount,
        forall|k: int|
            0 <= k < r@.len() ==> (#[trigger] r@[k]).wf() && r@[k].dummy && !r@[k].damaged,
        forall|k: int|
            0 <= k < r@.len() ==> min_velocity <= (#[trigger] r@[k]).motion.max_velocity
                < min_velocity + 4000 && r@[k].motion.velocity == r@[k].motion.max_velocity - 10,
        forall|k: int|
            0 <= k < r@.len() ==> 600_000 - h - 15_000 <= (#[trigger] r@[k]).position.y <= 600_000
                - h - 3000,
        forall|k: int| 0 <= k < r@.len() ==> lane_centered(#[trigger] r@[k], *road),
{
    let mut cars: Vec<Car> = Vec::new();
    let n = amount as usize;
    for i in 0..n
        invariant
            n == amount,
            road.wf(),
            30 <= min_velocity,
            min_velocity + 4000 <= VEL_BOUND,
            0 <= h <= 1_000_000_000,
            194 <= texture_width <= DIM_BOUND,
            380 <= texture_height <= DIM_BOUND,
            texture_width <= 10 * texture_height,
            cars@.len() == i,
            forall|k: int|
                0 <= k < cars@.len() ==> (#[trigger] cars@[k]).wf() && cars@[k].dummy
                    && !cars@[k].damaged,
            forall|k: int|
                0 <= k < cars@.len() ==> min_velocity <= (#[trigger] cars@[k]).motion.max_velocity
                    < min_velocity + 4000 && cars@[k].motion.velocity
                    == cars@[k].motion.max_velocity - 10,
            forall|k: int|
                0 <= k < cars@.len() ==> 600_000 - h - 15_000 <= (#[trigger] cars@[k]).position.y
                    <= 600_000 - h - 3000,
            forall|k: int| 0 <= k < cars@.len() ==> lane_centered(#[trigger] cars@[k], *road),
    {
        let lane_idx = road.random_lane_idx();
        let mut car = Car::new(lane_idx, texture_width, texture_height, Option::None, 0);
        let max_velocity = random_in_range(min_velocity, min_velocity + 4000);
        let y_step = random_in_range(1, 6);
        let start_y: i64 = h + y_step * 3000;
        let cropped = car.src_crop_center(194, 380, 300);
        car.position.y = car.position.y - start_y;
        let placed = car.set_in_lane(road, lane_idx);
        proof {
            assert(cropped is Ok);
            assert(placed is Ok);
            assert(0 <= (lane_idx as int) * (road.width / road.lanes) <= 1_000_000_000_000)
                by (nonlinear_arith)
                requires
                    0 <= (lane_idx as int) < 1000,
                    0 <= (road.width / road.lanes) <= 1_000_000_000,
            ;
            assert(car.position.x == lane_center_value(*road, lane_idx) - car.scaled_w_spec()
                / 2);
        }
        car.as_dummy(max_velocity);
        proof {
            assert(lane_centered(car, *road));
        }
        cars.push(car);
    }
    cars
}

/// Recycles a traffic agent that scrolled past the window: a fresh
/// random lane, a fresh randomized near-maximum speed, and a respawn
/// point below the window by a random fraction of its height.
pub fn reset_passed_car(car: &mut Car, min_velocity: i64, w: i64, h: i64, road: &Road)
    requires
        old(car).wf(),
        road.wf(),
        30 <= min_velocity,
        min_velocity + 4000 <= VEL_BOUND,
        0 <= h <= 1_000_000_000,
        0 <= w <= 1_000_000_000,
        -POS_LIMIT + 10_000_000_000 <= old(car).position.y,
    ensures
        final(car).wf(),
        final(car).dummy,
        !final(car).damaged,
        min_velocity <= final(car).motion.max_velocity < min_velocity + 4000,
        final(car).motion.velocity == final(car).motion.max_velocity - 10,
        old(car).position.y - h - 5 * (h * 150 / 1000) <= final(car).position.y <= old(
            car,
        ).position.y - h - h * 150 / 1000,
        final(car).position.y <= old(car).position.y,
        lane_centered(*final(car), *road),
{
    let lane_idx = road.random_lane_idx();
    let max_velocity = random_in_range(min_velocity, min_velocity + 4000);
    let y_step = random_in_range(1, 6);
    let q: i64 = h * 150 / 1000;
    assert(q <= y_step * q <= 5 * q && y_step * q <= 750_000_000) by (nonlinear_arith)
        requires
            1 <= y_step <= 5,
            0 <= q <= 150_000_000,
    ;
    let start_y: i64 = h + y_step * q;
    car.position.y = car.position.y - start_y;
    let placed = car.set_in_lane(road, lane_idx);
    proof {
        assert(placed is Ok);
        assert(0 <= (lane_idx as int) * (road.width / road.lanes) <= 1_000_000_000_000)
            by (nonlinear_arith)
            requires
                0 <= (lane_idx as int) < 1000,
                0 <= (road.width / road.lanes) <= 1_000_000_000,
        ;
        let crop: int = match old(car).src_rect {
            Option::Some(r) => r.w as int,
            Option::None => old(car).dimentions.w as int,
        };
        let sc: int = old(car).dimentions.scale as int;
        assert(0 <= crop * sc <= 100_000_000) by (nonlinear_arith)
            requires
                0 <= crop <= 100_000,
                0 < sc <= 1000,
        ;
        assert(car.position.x == lane_center_value(*road, lane_idx) - car.scaled_w_spec() / 2);
    }
    car.as_dummy(max_velocity);
    proof {
        assert(lane_centered(*car, *road));
    }
}

} // verus!

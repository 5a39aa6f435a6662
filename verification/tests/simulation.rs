use ai_drivers::car::{Car, ControlledCar};
use ai_drivers::population::{
    best_progress_index, best_score_index, generate_ai_cars, generate_traffic, reset_passed_car,
    PopulationState,
};
use ai_drivers::network::{Level, NeuralNetwork};
use ai_drivers::road::Road;
use ai_drivers::sensor::{Facing, Sensor, SensorPos};

fn wide_road() -> Road {
    Road::new(497_000, 900_000, 3)
}

#[test]
fn velocity_clamp_invariants() {
    let road = wide_road();
    let mut car = Car::new(1, 194, 380, None, 0);
    car.controls.forward = true;
    for _ in 0..200 {
        car.update_position(16, &road);
        let m = &car.motion;
        assert!(m.velocity <= m.max_velocity);
        assert!(m.velocity >= -(m.max_velocity / 2));
        if m.velocity.abs() < m.friction_coefficient {
            assert_eq!(m.velocity, 0);
        }
    }
    // Reverse accelerates slower and is capped at half the maximum.
    let mut car = Car::new(1, 194, 380, None, 0);
    car.controls.backward = true;
    for _ in 0..500 {
        car.update_position(16, &road);
        assert!(car.motion.velocity >= -(car.motion.max_velocity / 2));
        assert!(car.motion.velocity <= car.motion.max_velocity);
    }
    assert!(car.motion.velocity < 0);
}

#[test]
fn velocity_snaps_to_exact_zero() {
    let road = wide_road();
    let mut car = Car::new(1, 194, 380, None, 0);
    // Below the friction threshold the decay must land on exactly 0,
    // not merely something small.
    car.motion.velocity = 30;
    car.update_position(16, &road);
    assert_eq!(car.motion.velocity, 0);
    // Rolling without throttle decays to exactly zero eventually.
    let mut car = Car::new(1, 194, 380, None, 0);
    car.motion.velocity = 5_000;
    for _ in 0..1000 {
        car.update_position(16, &road);
    }
    assert_eq!(car.motion.velocity, 0);
}

#[test]
fn heading_stays_normalized() {
    let road = wide_road();
    let mut car = Car::new(1, 194, 380, None, 0);
    car.controls.forward = true;
    car.controls.left = true;
    for _ in 0..2000 {
        car.update_position(16, &road);
        assert!(0 <= car.position.angle && car.position.angle < 360_000);
    }
    let mut car = Car::new(1, 194, 380, None, 0);
    car.controls.forward = true;
    car.controls.right = true;
    for _ in 0..2000 {
        car.update_position(16, &road);
        assert!(0 <= car.position.angle && car.position.angle < 360_000);
    }
}

#[test]
fn head_on_collision_sets_damaged() {
    let road = wide_road();
    let mut crasher = Car::new(1, 194, 380, None, 0);
    // A dummy parked overlapping the agent's hitbox.
    let mut parked = Car::new(1, 194, 380, None, 0);
    parked.position.x = crasher.position.x + 5_000;
    parked.position.y = crasher.position.y + 5_000;
    parked.as_dummy(27_330);
    let traffic = vec![parked];

    assert!(!crasher.damaged);
    crasher.update(16, 0, &road, &traffic);
    assert!(crasher.damaged);
    assert!(crasher.did_just_crashed);
    assert_eq!(crasher.motion.velocity, 0);
    // A second update must not panic and keeps the agent damaged.
    crasher.update(16, 0, &road, &traffic);
    assert!(crasher.damaged);
}

#[test]
fn sensor_shadowing_readings() {
    // A single ray of length 100 pixels pointing along +x from the
    // sprite's center; the road's right border stands 50 pixels away.
    let road = Road::new(-22_500, 150_000, 3);
    let mut car = Car::new(1, 194, 380, None, 0);
    car.brain = None;
    car.src_crop_center(10, 100, 500).expect("valid scale");
    car.position.x = 0;
    car.position.y = 0;
    car.sensors = vec![Sensor::new(1, 100_000, 0, SensorPos::Center, Facing::LeftSide)];
    car.sensor_readings = vec![0];

    car.update(16, 0, &road, &vec![]);
    assert!(!car.damaged);
    assert_eq!(car.sensor_readings, vec![500]);

    // An obstruction by another agent's hitbox 25 pixels away
    // overrides the border reading.
    let mut car2 = Car::new(1, 194, 380, None, 0);
    car2.brain = None;
    car2.src_crop_center(10, 100, 500).expect("valid scale");
    car2.position.x = 0;
    car2.position.y = 0;
    car2.sensors = vec![Sensor::new(1, 100_000, 0, SensorPos::Center, Facing::LeftSide)];
    car2.sensor_readings = vec![0];

    let mut blocker = Car::new(1, 194, 380, None, 0);
    blocker.position.x = 17_800;
    blocker.position.y = -100_000;
    let hb = blocker.rotate_hitbox_points(0);
    blocker.hitbox = hb;
    let traffic = vec![blocker];

    car2.update(16, 0, &road, &traffic);
    assert!(!car2.damaged);
    assert_eq!(car2.sensor_readings, vec![750]);
}

#[test]
fn brain_outputs_map_to_controls_through_threshold() {
    // Same single-ray scene as the shadowing test: the ray reads 500.
    // Four output neurons with hand-picked weights land on either side
    // of the 0.33 activation threshold: tanh(0.5) ~ 0.465 engages,
    // tanh(0.35) ~ 0.337 engages barely, tanh(0.3) ~ 0.292 does not.
    let road = Road::new(-22_500, 150_000, 3);
    let mut car = Car::new(1, 194, 380, None, 0);
    car.src_crop_center(10, 100, 500).expect("valid scale");
    car.position.x = 0;
    car.position.y = 0;
    car.sensors = vec![Sensor::new(1, 100_000, 0, SensorPos::Center, Facing::LeftSide)];
    car.sensor_readings = vec![0];
    let level = Level {
        biases: vec![0, 0, 0, 0],
        weights: vec![vec![1000], vec![600], vec![0], vec![700]],
    };
    car.brain = Some(NeuralNetwork::from_levels(vec![level]).expect("well-formed brain"));

    car.update(16, 0, &road, &vec![]);
    assert!(!car.damaged);
    assert_eq!(car.sensor_readings, vec![500]);
    assert!(car.controls.forward);
    assert!(!car.controls.backward);
    assert!(!car.controls.left);
    assert!(car.controls.right);
    // Two survival points per undamaged frame.
    assert_eq!(car.score, 2);
}

#[test]
fn respawn_inherits_the_best_brain() {
    let road = wide_road();
    let best = Car::new(0, 194, 380, None, 0);
    let best_brain = best.brain.as_ref().expect("fresh agents carry a brain").duplicate();

    let mut agent = Car::new(1, 194, 380, None, 0);
    agent.damaged = true;
    agent.respawn(100_000, &road, Some(&best_brain), 980);
    assert!(!agent.damaged);
    assert_eq!(agent.position.y, 100_000);
    // The fresh pose centers the sprite on the assigned lane.
    let lane_w = road.width / road.lanes;
    let center = road.left + lane_w / 2 + (agent.current_lane as i64) * lane_w;
    assert_eq!(agent.position.x, center - agent.scaled_width() / 2);
    let newborn = agent.brain.as_ref().expect("respawned agents carry a brain");
    for (l, bl) in newborn.levels.iter().zip(best_brain.levels.iter()) {
        for (w, bw) in l.biases.iter().zip(bl.biases.iter()) {
            assert!((*w - *bw).abs() <= 41);
        }
        for (row, brow) in l.weights.iter().zip(bl.weights.iter()) {
            for (w, bw) in row.iter().zip(brow.iter()) {
                assert!((*w - *bw).abs() <= 41);
            }
        }
    }
}

#[test]
fn selection_state_tracks_best_candidates() {
    let fresh = Car::new(0, 194, 380, None, 0);
    let brain = fresh.brain.as_ref().unwrap();
    let mut state = PopulationState::new();
    state.consider(500_000, 10, brain);
    assert_eq!(state.best_y, 500_000);
    assert_eq!(state.best_score, 10);
    assert!(state.best_brain.is_some());
    // Farther along with a non-worse score replaces the slot.
    state.consider(400_000, 10, brain);
    assert_eq!(state.best_y, 400_000);
    // Farther along but with a worse score does not.
    state.consider(300_000, 5, brain);
    assert_eq!(state.best_y, 400_000);
    // Less far along does not, whatever the score.
    state.consider(450_000, 99, brain);
    assert_eq!(state.best_y, 400_000);
}

#[test]
fn best_index_selection() {
    let mut a = Car::new(0, 194, 380, None, 0);
    let mut b = Car::new(1, 194, 380, None, 0);
    let mut c = Car::new(2, 194, 380, None, 0);
    a.position.y = 100_000;
    a.score = 5;
    b.position.y = 50_000;
    b.score = 9;
    c.position.y = 10_000;
    c.score = 2;
    c.damaged = true;
    let cars = vec![a, b, c];
    assert_eq!(best_progress_index(&cars), Some(1));
    assert_eq!(best_score_index(&cars), Some(1));
    let mut all_damaged = Vec::new();
    for mut car in cars {
        car.damaged = true;
        all_damaged.push(car);
    }
    assert_eq!(best_progress_index(&all_damaged), None);
    assert_eq!(best_score_index(&all_damaged), None);
}

#[test]
fn roster_and_traffic_generation() {
    let road = wide_road();
    let lane_w = road.width / road.lanes;
    let reference = {
        let seed = Car::new(0, 194, 380, None, 0);
        seed.brain.as_ref().unwrap().duplicate()
    };
    let cars = generate_ai_cars(6, &road, Some(&reference), None, 194, 380);
    assert_eq!(cars.len(), 6);
    for car in cars.iter() {
        assert!(!car.damaged);
        assert!(car.brain.is_some());
        // Cropped to the car silhouette at the roster's scale.
        assert_eq!(car.dimentions.scale, 300);
        // Centered on one of the road's lanes.
        let half = car.scaled_width() / 2;
        let centered =
            (0..road.lanes).any(|l| car.position.x == road.left + lane_w / 2 + l * lane_w - half);
        assert!(centered);
    }
    // An even, non-fifth index blends strongly (0.92) toward the first
    // reference: every value lands within the shrunk interval.
    let strong = cars[2].brain.as_ref().unwrap();
    for (l, rl) in strong.levels.iter().zip(reference.levels.iter()) {
        for (b, rb) in l.biases.iter().zip(rl.biases.iter()) {
            assert!((*b - *rb).abs() <= (rb.abs() + 1000) * 80 / 1000 + 1);
        }
        for (row, rrow) in l.weights.iter().zip(rl.weights.iter()) {
            for (w, rw) in row.iter().zip(rrow.iter()) {
                assert!((*w - *rw).abs() <= (rw.abs() + 1000) * 80 / 1000 + 1);
            }
        }
    }
    let traffic = generate_traffic(3, 27_330, 800_000, &road, 194, 380);
    assert_eq!(traffic.len(), 3);
    for car in traffic.iter() {
        assert!(!car.damaged);
        assert!(car.brain.is_none());
        assert!(car.motion.friction_coefficient == 0);
        // The drawn cruising speed and the below-window spawn point.
        assert!(27_330 <= car.motion.max_velocity && car.motion.max_velocity < 27_330 + 4000);
        assert_eq!(car.motion.velocity, car.motion.max_velocity - 10);
        assert!(car.position.y >= 600_000 - 800_000 - 15_000);
        assert!(car.position.y <= 600_000 - 800_000 - 3_000);
    }
    let mut recycled = traffic.into_iter().next().unwrap();
    let before = recycled.position.y;
    reset_passed_car(&mut recycled, 27_330, 1_080_000, 800_000, &road);
    assert!(recycled.position.y <= before);
}

#[test]
fn reset_passed_car_redraws_speed_and_pose() {
    let road = wide_road();
    let traffic = generate_traffic(1, 27_330, 800_000, &road, 194, 380);
    let mut car = traffic.into_iter().next().unwrap();
    let before = car.position.y;
    let h: i64 = 800_000;
    reset_passed_car(&mut car, 27_330, 1_080_000, h, &road);
    assert!(car.dummy);
    assert!(!car.damaged);
    // A fresh near-maximum speed drawn from the half-open range.
    assert!(27_330 <= car.motion.max_velocity && car.motion.max_velocity < 27_330 + 4000);
    assert_eq!(car.motion.velocity, car.motion.max_velocity - 10);
    // Respawned below the window by one to five height-fractions.
    let q = h * 150 / 1000;
    assert!(car.position.y >= before - h - 5 * q);
    assert!(car.position.y <= before - h - q);
    // The sprite is centered on one of the road's lanes.
    let half = car.scaled_width() / 2;
    let lane_w = road.width / road.lanes;
    let centered = (0..road.lanes).any(|l| {
        let center = road.left + lane_w / 2 + l * lane_w;
        car.position.x == center - half
    });
    assert!(centered);
}

#[test]
fn damaged_agent_stays_put_through_update() {
    let road = wide_road();
    let mut car = Car::new(1, 194, 380, None, 0);
    car.position.x = 123_000;
    car.position.y = 456_000;
    car.damaged = true;
    let traffic: Vec<Car> = Vec::new();
    car.update(16, 0, &road, &traffic);
    assert_eq!(car.position.x, 123_000);
    assert_eq!(car.position.y, 456_000);
    assert_eq!(car.motion.velocity, 0);
    assert!(!car.changing_lane);
    assert_eq!(car.current_lane, 1);
}

#[test]
fn configuration_errors_are_rejected() {
    let road = wide_road();
    let mut car = Car::new(1, 194, 380, None, 0);
    // A crop scale outside (0, 1) is rejected and changes nothing.
    assert!(car.src_crop_center(194, 380, 0).is_err());
    assert!(car.src_crop_center(194, 380, 1000).is_err());
    assert!(car.src_rect.is_none());
    assert!(car.src_crop_center(194, 380, 300).is_ok());
    assert!(car.src_rect.is_some());
    // An out-of-range lane index is rejected and changes nothing.
    let x_before = car.position.x;
    assert!(car.set_in_lane(&road, 3).is_err());
    assert_eq!(car.position.x, x_before);
    assert!(car.set_in_lane(&road, 1).is_ok());
}

#[test]
fn lane_centers() {
    let road = Road::new(400_000, 300_000, 3);
    assert_eq!(road.lane_center(0), Some(300_000));
    assert_eq!(road.lane_center(1), Some(400_000));
    assert_eq!(road.lane_center(2), Some(500_000));
    assert_eq!(road.lane_center(3), None);
    let mut car = Car::new(1, 194, 380, None, 0);
    car.src_crop_center(194, 380, 300).expect("valid scale");
    car.set_in_lane(&road, 1).expect("valid lane");
    // Centered: the lane center minus half the scaled sprite width.
    assert_eq!(car.position.x, 400_000 - 29_100);
}

#[test]
fn passed_bottom_bound() {
    let mut car = Car::new(1, 194, 380, None, 0);
    car.position.y = 2_000_000;
    assert!(car.is_passed_bottom_bound(800_000, 0));
    assert!(!car.is_passed_bottom_bound(800_000, 1_000_000));
}

#[test]
fn controlled_car_wraps_an_agent() {
    let road = wide_road();
    let car = Car::new(1, 194, 380, None, 0);
    let mut player = ControlledCar::new(car);
    assert!(player.car.brain.is_none());
    assert_eq!(player.screen_offset(40_000), 560_000);
    player.set_controls(true, false, false, true);
    assert!(player.car.controls.forward);
    assert!(player.car.controls.right);
    let mut alive: i64 = 10;
    player.update(16, 0, &road, &vec![], &mut alive);
    assert_eq!(alive, 10);
}

#[test]
fn dummy_traffic_keeps_motion_invariants() {
    let road = wide_road();
    let mut traffic = generate_traffic(1, 27_330, 800_000, &road, 194, 380);
    let dummy = &mut traffic[0];
    for _ in 0..600 {
        dummy.update_position(16, &road);
        assert!(dummy.motion.velocity <= dummy.motion.max_velocity);
        assert!(dummy.motion.velocity >= -(dummy.motion.max_velocity / 2));
        assert!(0 <= dummy.position.angle && dummy.position.angle < 360_000);
    }
}

//! A 2D driving-simulation core: segment geometry, sensor ray casting,
//! fixed-topology feed-forward networks with weight blending, agent
//! kinematics and the population selection loop.
//!
//! All quantities are fixed-point integers with 1000 steps per unit
//! (milli-units), so every computation here is exact integer arithmetic
//! with verified bounds.

pub mod car;
pub mod geometry;
pub mod gpu;
pub mod network;
pub mod population;
mod rng;
pub mod road;
pub mod sensor;
pub mod trig;
pub mod units;

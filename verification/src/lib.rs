//! Game logic of a lane-dodging arcade racer: the car on its three-lane
//! road, the course of barriers, the play states and the per-frame rules
//! for collisions and score. Drawing, input and timing are left to the
//! caller, which hands the library plain values.

mod rng;
pub mod lanes;
mod lane_queue;
pub mod car;
pub mod game;
pub mod scroll;

//! A single-lane traffic simulation engine: a timed traffic signal, a queue
//! of vehicles that follow one another towards it, and the coordination of
//! the two on a fixed simulation step.
//!
//! All quantities are integers. Lengths are fixed-point numbers with
//! [`units::SCALE`] steps to the world unit, velocities are lengths per tick,
//! accelerations are velocity changes per tick, and times are nanoseconds.

pub mod car;
pub mod car_fleet;
pub mod lane;
pub mod laws;
pub mod simulation;
pub mod timer;
pub mod traffic_light;
pub mod ui_components;
pub mod units;

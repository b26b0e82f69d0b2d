//! The vehicles of the lane: the record and the per-tick decision of each
//! one, and the coordination of all of them.

pub mod car;
pub mod car_fleet;

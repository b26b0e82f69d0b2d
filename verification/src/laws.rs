//! What holds of the engine over whole runs, proved from the contracts of
//! its single steps.

pub mod free_road;
pub mod reset;
pub mod signal_cycle;
pub mod stopping;
pub mod velocity;

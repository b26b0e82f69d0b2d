//! The fixed-point scales shared by the whole engine.

use vstd::prelude::*;

verus! {

/// Number of fixed-point steps in one world unit of length.
pub const SCALE: i64 = 1_000_000;

/// Number of nanoseconds in one second.
pub const NANOS_PER_SECOND: u64 = 1_000_000_000;

} // verus!

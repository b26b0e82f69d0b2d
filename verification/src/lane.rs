//! The geometry of the single lane: positions along one axis, the direction
//! of travel, and signed distances measured in that direction.

use vstd::prelude::*;

verus! {

/// The direction in which every vehicle travels along the lane axis.
#[derive(Debug, Clone, Copy, PartialEq, Eq, Structural)]
pub enum Direction {
    /// Vehicles move towards larger positions.
    Increasing,
    /// Vehicles move towards smaller positions.
    Decreasing,
}

/// How far `to` lies ahead of `from` for a vehicle travelling in
/// `direction`: positive when `to` is further along, negative when it has
/// been passed.
pub open spec fn distance_ahead(direction: Direction, from: int, to: int) -> int {
    match direction {
        Direction::Increasing => to - from,
        Direction::Decreasing => from - to,
    }
}

/// The position reached from `position` by travelling `distance` in
/// `direction`, held at the end of the representable axis.
pub open spec fn advanced(direction: Direction, position: i64, distance: int) -> i64 {
    match direction {
        Direction::Increasing => if position + distance > i64::MAX {
            i64::MAX
        } else {
            (position + distance) as i64
        },
        Direction::Decreasing => if position - distance < i64::MIN {
            i64::MIN
        } else {
            (position - distance) as i64
        },
    }
}

/// Computes [`distance_ahead`] without overflow.
pub fn measure_ahead(direction: Direction, from: i64, to: i64) -> (distance: i128)
    ensures
        distance == distance_ahead(direction, from as int, to as int),
{
    match direction {
        Direction::Increasing => (to as i128) - (from as i128),
        Direction::Decreasing => (from as i128) - (to as i128),
    }
}

/// Moves `position` by `distance` in `direction`, stopping at the end of the
/// representable axis.
pub fn advance(direction: Direction, position: i64, distance: i64) -> (reached: i64)
    requires
        0 <= distance,
    ensures
        reached == advanced(direction, position, distance as int),
        0 <= distance_ahead(direction, position as int, reached as int) <= distance,
{
    match direction {
        Direction::Increasing => if position > i64::MAX - distance {
            i64::MAX
        } else {
            position + distance
        },
        Direction::Decreasing => if position < i64::MIN + distance {
            i64::MIN
        } else {
            position - distance
        },
    }
}

} // verus!

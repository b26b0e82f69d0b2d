//! The control signals that the on-screen controls raise and the engine
//! consumes, and the decision of each control on what to raise.

pub mod reaction_timer_controls;
pub mod reset_simulation_button;

use vstd::prelude::*;

verus! {

/// What the pointer is doing to a control.
#[derive(Debug, Clone, Copy, PartialEq, Eq, Structural)]
pub enum Interaction {
    /// The control is being pressed.
    Pressed,
    /// The pointer rests on the control.
    Hovered,
    /// The pointer is elsewhere.
    Idle,
}

} // verus!

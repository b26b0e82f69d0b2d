//! The request to restart the simulation, and the control that raises it.

use vstd::prelude::*;
use crate::ui_components::Interaction;

verus! {

/// Asks for the simulation to be put back into its starting state.
#[derive(Debug, Clone, Copy, PartialEq, Eq, Structural)]
pub struct ResetSimluation;

/// Decides what the restart control raises when its interaction changes: a
/// request to reset when it is pressed, nothing otherwise.
pub fn update(interaction: Interaction) -> (raised: Option<ResetSimluation>)
    ensures
        raised is Some <==> interaction == Interaction::Pressed,
{
    match interaction {
        Interaction::Pressed => Some(ResetSimluation),
        _ => None,
    }
}

} // verus!

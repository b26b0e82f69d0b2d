//! The request to change the reaction time of the vehicles, and the pair of
//! controls that raise it.

use vstd::prelude::*;
use crate::ui_components::Interaction;

verus! {

/// The change of reaction time that one press of a control asks for: a tenth
/// of a second, in nanoseconds.
pub const REACTION_TIME_STEP: i64 = 100_000_000;

/// Asks for the reaction time of every vehicle to change by `delta`
/// nanoseconds.
#[derive(Debug, Clone, Copy, PartialEq, Eq, Structural)]
pub struct ReactionTimeChanged {
    pub delta: i64,
}

/// What a control raises when its interaction changes: pressed, the control
/// that increases the reaction time asks for one step more and the one that
/// decreases it for one step less; nothing is raised otherwise.
pub open spec fn raised_by(
    interaction: Interaction,
    increase_button: bool,
    decrease_button: bool,
) -> Option<ReactionTimeChanged> {
    if interaction != Interaction::Pressed {
        None
    } else if increase_button {
        Some(ReactionTimeChanged { delta: REACTION_TIME_STEP })
    } else if decrease_button {
        Some(ReactionTimeChanged { delta: (-REACTION_TIME_STEP) as i64 })
    } else {
        None
    }
}

/// Decides what a reaction-time control raises when its interaction
/// changes. `increase_button` and `decrease_button` tell which of the two
/// controls it is.
pub fn buttons_listenerr(
    interaction: Interaction,
    increase_button: bool,
    decrease_button: bool,
) -> (raised: Option<ReactionTimeChanged>)
    ensures
        raised == raised_by(interaction, increase_button, decrease_button),
{
    match interaction {
        Interaction::Pressed => {
            if increase_button {
                Some(ReactionTimeChanged { delta: REACTION_TIME_STEP })
            } else if decrease_button {
                Some(ReactionTimeChanged { delta: -REACTION_TIME_STEP })
            } else {
                None
            }
        },
        _ => None,
    }
}

} // verus!

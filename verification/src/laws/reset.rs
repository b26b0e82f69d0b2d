//! A request to reset puts the simulation back into the state it was set up
//! in, whatever state it had reached, and a second request changes nothing
//! more.

use vstd::prelude::*;
use crate::car_fleet::car::Car;
use crate::car_fleet::car_fleet::{slot, CarFleetView};
use crate::laws::velocity::{lemma_retimed_keeps_wf, lemma_step_keeps_wf};
use crate::simulation::SimulationView;
use crate::traffic_light::{red_again, CurrentLight, Light, LightChange, TrafficLight};
use crate::ui_components::reaction_timer_controls::ReactionTimeChanged;

verus! {

/// The state in which a simulation with the layout, the phase durations and
/// the reaction times of `simulation` starts: the signal red with no time
/// elapsed in any phase, every vehicle in its starting slot, standing still,
/// with no acceleration, not holding back, its reaction timer at zero.
pub open spec fn start_of(simulation: SimulationView) -> SimulationView {
    SimulationView {
        traffic_light: TrafficLight::initial(
            simulation.traffic_light.position,
            simulation.traffic_light.timers.stop.duration,
            simulation.traffic_light.timers.go.duration,
            simulation.traffic_light.timers.yellow.duration,
        ),
        fleet: CarFleetView {
            cars: Seq::new(
                simulation.fleet.cars.len(),
                |index: int|
                    Car::created(
                        slot(
                            simulation.fleet.origin,
                            simulation.fleet.spacing,
                            simulation.fleet.direction,
                            index,
                        ) as i64,
                        None,
                        None,
                        Some(simulation.fleet.cars[index].reaction_timer.0.duration),
                    ),
            ),
            ..simulation.fleet
        },
    }
}

/// Applying a list of announcements that is not empty shows the light of
/// the last one and leaves every phase timer restarted.
pub proof fn lemma_applied_shows_last(signal: TrafficLight, changes: Seq<LightChange>)
    requires
        changes.len() > 0,
    ensures
        signal.applied(changes) == (TrafficLight {
            current_light: CurrentLight(changes.last().light),
            timers: signal.timers.restarted(),
            ..signal
        }),
    decreases changes.len(),
{
    assert(signal.applied(changes) == signal.applied(changes.drop_last()).switched(
        changes.last().light,
    ));
    if changes.len() > 1 {
        lemma_applied_shows_last(signal, changes.drop_last());
    } else {
        assert(signal.applied(changes.drop_last()) == signal);
    }
}

/// A tick in which a reset is requested ends in the starting state, from
/// whatever well-formed state it began: the vehicles are in their starting
/// slots with zero velocity, zero acceleration and no braking flag, and the
/// signal is red with all phase timers at zero. The last change of light
/// announced in that tick is red.
pub proof fn lemma_reset_restores_start(
    simulation: SimulationView,
    delta: u64,
    resets: nat,
    reaction_time_changes: Seq<ReactionTimeChanged>,
)
    requires
        simulation.wf(),
        resets > 0,
    ensures
        simulation.stepped(delta, resets, reaction_time_changes) == start_of(
            simulation.stepped(delta, resets, reaction_time_changes),
        ),
        simulation.announced(delta, resets).len() > 0,
        simulation.announced(delta, resets).last().light == Light::RedLight,
{
    let after = simulation.stepped(delta, resets, reaction_time_changes);
    let announced = simulation.announced(delta, resets);
    assert(announced.len() > 0 && announced.last().light == Light::RedLight) by {
        assert(red_again(resets).len() == resets);
        assert(announced.last() == red_again(resets).last());
    }
    lemma_applied_shows_last(simulation.traffic_light.timed(delta), announced);
    assert(after.traffic_light == start_of(after).traffic_light);
    let moved = simulation.fleet.stepped(simulation.traffic_light, delta);
    assert(moved.wf()) by {
        lemma_step_keeps_wf(simulation, delta, 0, Seq::empty());
    }
    lemma_retimed_keeps_wf(moved, reaction_time_changes);
    assert(after.fleet.cars =~= start_of(after).fleet.cars);
}

/// Resetting is idempotent: a reset requested in the starting state, with
/// no change of reaction time, leaves the starting state as it is.
pub proof fn lemma_reset_is_idempotent(
    simulation: SimulationView,
    delta: u64,
    resets: nat,
    reaction_time_changes: Seq<ReactionTimeChanged>,
    again_delta: u64,
    again_resets: nat,
)
    requires
        simulation.wf(),
        resets > 0,
        again_resets > 0,
    ensures
        simulation.stepped(delta, resets, reaction_time_changes).stepped(
            again_delta,
            again_resets,
            Seq::empty(),
        ) == simulation.stepped(delta, resets, reaction_time_changes),
{
    let once = simulation.stepped(delta, resets, reaction_time_changes);
    lemma_step_keeps_wf(simulation, delta, resets, reaction_time_changes);
    lemma_reset_restores_start(simulation, delta, resets, reaction_time_changes);
    let twice = once.stepped(again_delta, again_resets, Seq::empty());
    lemma_reset_restores_start(once, again_delta, again_resets, Seq::empty());
    let moved = once.fleet.stepped(once.traffic_light, again_delta);
    assert(moved.retimed_by(Seq::empty()) == moved);
    lemma_applied_shows_last(
        once.traffic_light.timed(again_delta),
        once.announced(again_delta, again_resets),
    );
    assert(twice.traffic_light == once.traffic_light);
    assert(twice.fleet.cars =~= once.fleet.cars) by {
        assert forall|index: int| 0 <= index < once.fleet.cars.len() implies twice.fleet.cars[index]
            == once.fleet.cars[index] by {
            assert(moved.cars[index].reaction_timer.0.duration
                == once.fleet.cars[index].reaction_timer.0.duration);
        }
    }
}

} // verus!

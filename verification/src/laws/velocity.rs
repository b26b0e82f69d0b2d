//! No step of the engine takes a vehicle out of its envelope: in every state
//! that a well-formed simulation reaches, every velocity lies between zero
//! and the common maximum.

use vstd::prelude::*;
use crate::car::MAX_VELOCITY;
use crate::car_fleet::car::{BrakingContext, Car};
use crate::car_fleet::car_fleet::CarFleetView;
use crate::lane::Direction;
use crate::simulation::SimulationView;
use crate::ui_components::reaction_timer_controls::ReactionTimeChanged;

verus! {

/// What one tick of a simulation is driven by.
pub struct Tick {
    /// The length of the tick in nanoseconds.
    pub delta: u64,
    /// The number of requests to reset raised since the last tick.
    pub resets: nat,
    /// The requests to change the reaction time raised since the last tick.
    pub reaction_time_changes: Seq<ReactionTimeChanged>,
}

/// The simulation after the given ticks, in order.
pub open spec fn run(simulation: SimulationView, ticks: Seq<Tick>) -> SimulationView
    decreases ticks.len(),
{
    if ticks.len() == 0 {
        simulation
    } else {
        run(simulation, ticks.drop_last()).stepped(
            ticks.last().delta,
            ticks.last().resets,
            ticks.last().reaction_time_changes,
        )
    }
}

/// A tick leaves a well-formed vehicle well formed, whatever it sees ahead.
pub proof fn lemma_car_stays_in_envelope(
    car: Car,
    context: BrakingContext,
    delta: u64,
    direction: Direction,
)
    requires
        car.wf(),
    ensures
        car.moved(context, delta, direction).wf(),
        0 <= car.moved(context, delta, direction).velocity.0 <= MAX_VELOCITY,
{
}

/// Requests to change the reaction time leave a well-formed fleet well
/// formed, and touch nothing but the durations of the reaction timers.
pub proof fn lemma_retimed_keeps_wf(fleet: CarFleetView, changes: Seq<ReactionTimeChanged>)
    requires
        fleet.wf(),
    ensures
        fleet.retimed_by(changes).wf(),
        fleet.retimed_by(changes).cars.len() == fleet.cars.len(),
        fleet.retimed_by(changes).direction == fleet.direction,
        fleet.retimed_by(changes).origin == fleet.origin,
        fleet.retimed_by(changes).spacing == fleet.spacing,
        forall|index: int|
            0 <= index < fleet.cars.len() ==> {
                let before = #[trigger] fleet.cars[index];
                let after = fleet.retimed_by(changes).cars[index];
                &&& after.position == before.position
                &&& after.velocity == before.velocity
                &&& after.acceleration == before.acceleration
                &&& after.is_breaking == before.is_breaking
                &&& after.reaction_timer.0.elapsed == before.reaction_timer.0.elapsed
                &&& after.reaction_timer.0.finished == before.reaction_timer.0.finished
            },
    decreases changes.len(),
{
    if changes.len() > 0 {
        lemma_retimed_keeps_wf(fleet, changes.drop_last());
        let earlier = fleet.retimed_by(changes.drop_last());
        assert forall|index: int| 0 <= index < fleet.cars.len() implies (#[trigger] earlier.retimed(
            changes.last().delta,
        ).cars[index]).wf() by {
            assert(earlier.cars[index].wf());
        }
        assert forall|index: int| 0 <= index < fleet.cars.len() implies {
            let before = #[trigger] fleet.cars[index];
            let after = fleet.retimed_by(changes).cars[index];
            &&& after.position == before.position
            &&& after.velocity == before.velocity
            &&& after.acceleration == before.acceleration
            &&& after.is_breaking == before.is_breaking
            &&& after.reaction_timer.0.elapsed == before.reaction_timer.0.elapsed
            &&& after.reaction_timer.0.finished == before.reaction_timer.0.finished
        } by {
            assert(earlier.cars[index].wf());
        }
    }
}

/// One tick leaves a well-formed simulation well formed.
pub proof fn lemma_step_keeps_wf(
    simulation: SimulationView,
    delta: u64,
    resets: nat,
    reaction_time_changes: Seq<ReactionTimeChanged>,
)
    requires
        simulation.wf(),
    ensures
        simulation.stepped(delta, resets, reaction_time_changes).wf(),
{
    let moved = simulation.fleet.stepped(simulation.traffic_light, delta);
    assert(moved.wf()) by {
        assert forall|index: int| 0 <= index < moved.cars.len() implies (#[trigger] moved.cars[index]).wf() by {
            assert(simulation.fleet.cars[index].wf());
        }
    }
    lemma_retimed_keeps_wf(moved, reaction_time_changes);
}

/// For all ticks and all vehicles: whatever the lengths of the ticks and
/// whatever control signals arrive, every vehicle of a simulation that
/// started well formed has a velocity between zero and [`MAX_VELOCITY`].
pub proof fn lemma_velocity_bound(simulation: SimulationView, ticks: Seq<Tick>)
    requires
        simulation.wf(),
    ensures
        run(simulation, ticks).wf(),
        forall|index: int|
            0 <= index < run(simulation, ticks).fleet.cars.len() ==> 0 <= (#[trigger] run(
                simulation,
                ticks,
            ).fleet.cars[index]).velocity.0 <= MAX_VELOCITY,
    decreases ticks.len(),
{
    if ticks.len() > 0 {
        lemma_velocity_bound(simulation, ticks.drop_last());
        lemma_step_keeps_wf(
            run(simulation, ticks.drop_last()),
            ticks.last().delta,
            ticks.last().resets,
            ticks.last().reaction_time_changes,
        );
    }
    let reached = run(simulation, ticks);
    assert forall|index: int| 0 <= index < reached.fleet.cars.len() implies 0 <= (
    #[trigger] reached.fleet.cars[index]).velocity.0 <= MAX_VELOCITY by {
        assert(reached.fleet.cars[index].wf());
    }
}

/// A fleet whose vehicles share one reaction time shares one reaction time
/// again after any requests to change it: the change is uniform.
pub proof fn lemma_retimed_uniformly(fleet: CarFleetView, changes: Seq<ReactionTimeChanged>)
    requires
        forall|first: int, second: int|
            0 <= first < fleet.cars.len() && 0 <= second < fleet.cars.len() ==> (
            #[trigger] fleet.cars[first]).reaction_timer.0.duration == (
            #[trigger] fleet.cars[second]).reaction_timer.0.duration,
    ensures
        fleet.retimed_by(changes).cars.len() == fleet.cars.len(),
        forall|first: int, second: int|
            0 <= first < fleet.cars.len() && 0 <= second < fleet.cars.len() ==> (
            #[trigger] fleet.retimed_by(changes).cars[first]).reaction_timer.0.duration == (
            #[trigger] fleet.retimed_by(changes).cars[second]).reaction_timer.0.duration,
    decreases changes.len(),
{
    if changes.len() > 0 {
        lemma_retimed_uniformly(fleet, changes.drop_last());
        let earlier = fleet.retimed_by(changes.drop_last());
        let after = fleet.retimed_by(changes);
        assert forall|first: int, second: int|
            0 <= first < fleet.cars.len() && 0 <= second < fleet.cars.len() implies (
        #[trigger] after.cars[first]).reaction_timer.0.duration == (
        #[trigger] after.cars[second]).reaction_timer.0.duration by {
            assert(earlier.cars[first].reaction_timer.0.duration
                == earlier.cars[second].reaction_timer.0.duration);
        }
    }
}

} // verus!

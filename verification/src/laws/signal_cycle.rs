//! The signal shows red, green, yellow, red and so on, never skipping a
//! light, and on a fixed step every phase lasts a known number of ticks.

use vstd::prelude::*;
use crate::timer::{lemma_ticks_to_cover, ticks_to_cover};
use crate::simulation::SimulationView;
use crate::traffic_light::{Light, LightChange, TrafficLight};
use crate::ui_components::reaction_timer_controls::ReactionTimeChanged;

verus! {

/// The signal after one tick for every entry of `deltas`, in order.
pub open spec fn run(signal: TrafficLight, deltas: Seq<u64>) -> TrafficLight
    decreases deltas.len(),
{
    if deltas.len() == 0 {
        signal
    } else {
        run(signal, deltas.drop_last()).advanced(deltas.last())
    }
}

/// The changes of light announced during [`run`], in order.
pub open spec fn changes(signal: TrafficLight, deltas: Seq<u64>) -> Seq<LightChange>
    decreases deltas.len(),
{
    if deltas.len() == 0 {
        Seq::empty()
    } else {
        let earlier = changes(signal, deltas.drop_last());
        match run(signal, deltas.drop_last()).announced(deltas.last()) {
            Some(change) => earlier.push(change),
            None => earlier,
        }
    }
}

/// `ticks` ticks of the same length `delta`.
pub open spec fn steady(delta: u64, ticks: nat) -> Seq<u64> {
    Seq::new(ticks, |i: int| delta)
}

/// The number of ticks of length `delta` in one whole cycle of `signal`.
pub open spec fn cycle_ticks(signal: TrafficLight, delta: u64) -> nat
    recommends
        delta > 0,
{
    ticks_to_cover(signal.timers.stop.duration, delta) + ticks_to_cover(signal.timers.go.duration, delta)
        + ticks_to_cover(signal.timers.yellow.duration, delta)
}

/// Stepping once more along the cycle is the same before or after.
pub proof fn lemma_after_next(light: Light, steps: nat)
    ensures
        light.after(steps + 1) == light.after(steps).next(),
    decreases steps,
{
    if steps > 0 {
        lemma_after_next(light.next(), (steps - 1) as nat);
        assert(light.after(steps + 1) == light.next().after(steps));
        assert(light.after(steps) == light.next().after((steps - 1) as nat));
    } else {
        assert(light.after(1) == light.next().after(0));
    }
}

/// Three changes of light lead back to the same light.
pub proof fn lemma_cycle_of_three(light: Light)
    ensures
        light.after(3) == light,
        light.next().next().next() == light,
{
    reveal_with_fuel(Light::after, 4);
}

/// Whatever the lengths of the ticks, the lights follow the cycle without
/// skipping: the change number `k` announced during a run shows the light
/// `k + 1` places after the first, and the signal ends on the light as many
/// places after the first as changes were announced.
pub proof fn lemma_lights_follow_cycle(signal: TrafficLight, deltas: Seq<u64>)
    ensures
        run(signal, deltas).current_light.0 == signal.current_light.0.after(
            changes(signal, deltas).len(),
        ),
        forall|k: int|
            0 <= k < changes(signal, deltas).len() ==> (#[trigger] changes(signal, deltas)[k]).light
                == signal.current_light.0.after((k + 1) as nat),
        run(signal, deltas).position == signal.position,
        run(signal, deltas).timers.stop.duration == signal.timers.stop.duration,
        run(signal, deltas).timers.go.duration == signal.timers.go.duration,
        run(signal, deltas).timers.yellow.duration == signal.timers.yellow.duration,
    decreases deltas.len(),
{
    if deltas.len() > 0 {
        lemma_lights_follow_cycle(signal, deltas.drop_last());
        let earlier = changes(signal, deltas.drop_last());
        lemma_after_next(signal.current_light.0, earlier.len());
    }
}

/// Running over two stretches of ticks one after the other is running over
/// their concatenation.
pub proof fn lemma_run_concat(signal: TrafficLight, first: Seq<u64>, second: Seq<u64>)
    ensures
        run(signal, first + second) == run(run(signal, first), second),
        changes(signal, first + second) == changes(signal, first) + changes(
            run(signal, first),
            second,
        ),
    decreases second.len(),
{
    if second.len() == 0 {
        assert(first + second =~= first);
        assert(changes(signal, first) + Seq::<LightChange>::empty() =~= changes(signal, first));
    } else {
        lemma_run_concat(signal, first, second.drop_last());
        assert((first + second).drop_last() =~= first + second.drop_last());
        assert((first + second).last() == second.last());
        let middle = run(signal, first);
        match run(middle, second.drop_last()).announced(second.last()) {
            Some(change) => {
                assert((changes(signal, first) + changes(middle, second.drop_last())).push(change)
                    =~= changes(signal, first) + changes(middle, second.drop_last()).push(change));
            },
            None => {},
        }
    }
}

/// On a fixed step, a phase that has just begun is still running after any
/// number of ticks below its length: the light is the same, no change has
/// been announced, and the elapsed time is the time of the ticks.
pub proof fn lemma_phase_holds(signal: TrafficLight, delta: u64, ticks: nat)
    requires
        delta > 0,
        signal.timers.of(signal.current_light.0).elapsed == 0,
        !signal.timers.of(signal.current_light.0).finished,
        ticks < ticks_to_cover(signal.timers.of(signal.current_light.0).duration, delta),
    ensures
        run(signal, steady(delta, ticks)) == (TrafficLight {
            timers: signal.timers.with(
                signal.current_light.0,
                crate::timer::Timer {
                    elapsed: (ticks * delta) as u64,
                    duration: signal.timers.of(signal.current_light.0).duration,
                    finished: false,
                },
            ),
            ..signal
        }),
        ticks * delta < signal.timers.of(signal.current_light.0).duration || ticks == 0,
        changes(signal, steady(delta, ticks)) == Seq::<LightChange>::empty(),
    decreases ticks,
{
    let duration = signal.timers.of(signal.current_light.0).duration;
    lemma_ticks_to_cover(duration, delta);
    if ticks == 0 {
        assert(steady(delta, ticks) =~= Seq::<u64>::empty());
        assert(0 * delta == 0) by (nonlinear_arith);
    } else {
        let fewer = (ticks - 1) as nat;
        lemma_phase_holds(signal, delta, fewer);
        assert(steady(delta, ticks).drop_last() =~= steady(delta, fewer));
        assert(steady(delta, ticks).last() == delta);
        assert(ticks * delta == fewer * delta + delta && ticks * delta <= (ticks_to_cover(
            duration,
            delta,
        ) - 1) * delta) by (nonlinear_arith)
            requires
                ticks == fewer + 1,
                ticks <= ticks_to_cover(duration, delta) - 1,
                delta > 0,
        ;
    }
}

/// On a fixed step, a phase that has just begun ends exactly on tick number
/// [`ticks_to_cover`]: the signal then shows the next light with all phase
/// timers restarted, and that one change has been announced.
pub proof fn lemma_phase_ends(signal: TrafficLight, delta: u64)
    requires
        delta > 0,
        signal.timers.of(signal.current_light.0).elapsed == 0,
        !signal.timers.of(signal.current_light.0).finished,
    ensures
        run(
            signal,
            steady(delta, ticks_to_cover(signal.timers.of(signal.current_light.0).duration, delta)),
        ) == signal.switched(signal.current_light.0.next()),
        changes(
            signal,
            steady(delta, ticks_to_cover(signal.timers.of(signal.current_light.0).duration, delta)),
        ) == seq![LightChange { light: signal.current_light.0.next() }],
{
    let duration = signal.timers.of(signal.current_light.0).duration;
    let ticks = ticks_to_cover(duration, delta);
    lemma_ticks_to_cover(duration, delta);
    let fewer = (ticks - 1) as nat;
    lemma_phase_holds(signal, delta, fewer);
    assert(steady(delta, ticks).drop_last() =~= steady(delta, fewer));
    assert(steady(delta, ticks).last() == delta);
    assert(ticks * delta == fewer * delta + delta) by (nonlinear_arith)
        requires
            ticks == fewer + 1,
    ;
    let before = run(signal, steady(delta, fewer));
    assert(before.phase_ends(delta));
    assert(before.advanced(delta) == signal.switched(signal.current_light.0.next()));
    assert(Seq::<LightChange>::empty().push(LightChange { light: signal.current_light.0.next() })
        =~= seq![LightChange { light: signal.current_light.0.next() }]);
}

/// On a fixed step, a signal that has just turned red shows red, green,
/// yellow for [`ticks_to_cover`] ticks of its duration each, announces green, yellow and red in
/// that order and nothing else, and is back in the state it started from
/// after [`cycle_ticks`] ticks.
pub proof fn lemma_signal_cycle(signal: TrafficLight, delta: u64)
    requires
        delta > 0,
        signal.current_light.0 == Light::RedLight,
        signal.timers.is_fresh(),
    ensures
        run(signal, steady(delta, cycle_ticks(signal, delta))) == signal,
        changes(signal, steady(delta, cycle_ticks(signal, delta))) == seq![
            LightChange { light: Light::GreenLight },
            LightChange { light: Light::YellowLight },
            LightChange { light: Light::RedLight },
        ],
{
    let red_ticks = ticks_to_cover(signal.timers.stop.duration, delta);
    let green_ticks = ticks_to_cover(signal.timers.go.duration, delta);
    let yellow_ticks = ticks_to_cover(signal.timers.yellow.duration, delta);
    let green = signal.switched(Light::GreenLight);
    let yellow = signal.switched(Light::YellowLight);
    lemma_phase_ends(signal, delta);
    lemma_phase_ends(green, delta);
    lemma_phase_ends(yellow, delta);
    assert(green.switched(Light::YellowLight) == yellow);
    assert(yellow.switched(Light::RedLight) == signal);
    assert(steady(delta, red_ticks + green_ticks) =~= steady(delta, red_ticks) + steady(
        delta,
        green_ticks,
    ));
    assert(steady(delta, red_ticks + green_ticks + yellow_ticks) =~= steady(
        delta,
        red_ticks + green_ticks,
    ) + steady(delta, yellow_ticks));
    lemma_run_concat(signal, steady(delta, red_ticks), steady(delta, green_ticks));
    lemma_run_concat(signal, steady(delta, red_ticks + green_ticks), steady(delta, yellow_ticks));
    assert(changes(signal, steady(delta, cycle_ticks(signal, delta))) =~= seq![
        LightChange { light: Light::GreenLight },
        LightChange { light: Light::YellowLight },
        LightChange { light: Light::RedLight },
    ]);
}

/// A tick of the whole simulation in which no reset is requested advances
/// the signal as [`TrafficLight::advanced`] does and announces what
/// [`TrafficLight::announced`] says, so the laws of this module hold of the
/// signal of a simulation between resets.
pub proof fn lemma_simulation_advances_signal(
    simulation: SimulationView,
    delta: u64,
    reaction_time_changes: Seq<ReactionTimeChanged>,
)
    ensures
        simulation.stepped(delta, 0, reaction_time_changes).traffic_light
            == simulation.traffic_light.advanced(delta),
        simulation.announced(delta, 0) == match simulation.traffic_light.announced(delta) {
            Some(change) => seq![change],
            None => Seq::empty(),
        },
{
    let announced = simulation.announced(delta, 0);
    let timed = simulation.traffic_light.timed(delta);
    match simulation.traffic_light.announced(delta) {
        Some(change) => {
            assert(announced =~= seq![change]);
            assert(announced.drop_last() =~= Seq::<LightChange>::empty());
            assert(timed.applied(announced.drop_last()) == timed);
            assert(timed.applied(announced) == timed.applied(announced.drop_last()).switched(
                announced.last().light,
            ));
        },
        None => {
            assert(announced =~= Seq::<LightChange>::empty());
        },
    }
}

} // verus!

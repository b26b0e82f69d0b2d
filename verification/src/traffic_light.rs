//! The traffic signal: a timed state machine that cycles red, green, yellow,
//! and announces every change of light.

use vstd::prelude::*;
use crate::timer::Timer;
use crate::ui_components::reset_simulation_button::ResetSimluation;

verus! {

/// How long the signal stays red when it is not told otherwise: ten seconds.
pub const STOP_DURATION: u64 = 10_000_000_000;

/// How long the signal stays green when it is not told otherwise: ten seconds.
pub const GO_DURATION: u64 = 10_000_000_000;

/// How long the signal stays yellow when it is not told otherwise: one second.
pub const YELLOW_DURATION: u64 = 1_000_000_000;

/// The colour a signal shows.
#[derive(Debug, Clone, Copy, PartialEq, Eq, Structural)]
pub enum Light {
    RedLight,
    GreenLight,
    YellowLight,
}

impl Light {
    /// The light that follows this one in the cycle red, green, yellow, red.
    pub open spec fn next(self) -> Light {
        match self {
            Light::RedLight => Light::GreenLight,
            Light::GreenLight => Light::YellowLight,
            Light::YellowLight => Light::RedLight,
        }
    }

    /// The light reached after `steps` changes, starting from this one.
    pub open spec fn after(self, steps: nat) -> Light
        decreases steps,
    {
        if steps == 0 {
            self
        } else {
            self.next().after((steps - 1) as nat)
        }
    }

    /// Computes the light that follows this one in the cycle.
    pub fn successor(self) -> (following: Light)
        ensures
            following == self.next(),
    {
        match self {
            Light::RedLight => Light::GreenLight,
            Light::GreenLight => Light::YellowLight,
            Light::YellowLight => Light::RedLight,
        }
    }

    /// The name of the light, as the visual asset of that light is named.
    pub fn to_string(&self) -> (name: String)
        ensures
            name@ == match *self {
                Light::RedLight => "RedLight"@,
                Light::GreenLight => "GreenLight"@,
                Light::YellowLight => "YellowLight"@,
            },
    {
        match self {
            Light::RedLight => "RedLight".to_owned(),
            Light::GreenLight => "GreenLight".to_owned(),
            Light::YellowLight => "YellowLight".to_owned(),
        }
    }
}

/// The light a signal currently shows.
#[derive(Debug, Clone, Copy, PartialEq, Eq, Structural)]
pub struct CurrentLight(pub Light);

/// The three phase timers of a signal, one per light.
#[derive(Debug, Clone, Copy, PartialEq, Eq, Structural)]
pub struct LightChangeTimer {
    /// Runs while the signal is green.
    pub go: Timer,
    /// Runs while the signal is red.
    pub stop: Timer,
    /// Runs while the signal is yellow.
    pub yellow: Timer,
}

impl LightChangeTimer {
    /// The timer of the phase in which `light` is shown.
    pub open spec fn of(self, light: Light) -> Timer {
        match light {
            Light::RedLight => self.stop,
            Light::GreenLight => self.go,
            Light::YellowLight => self.yellow,
        }
    }

    /// The timers with the one for `light` replaced.
    pub open spec fn with(self, light: Light, timer: Timer) -> LightChangeTimer {
        match light {
            Light::RedLight => LightChangeTimer { stop: timer, ..self },
            Light::GreenLight => LightChangeTimer { go: timer, ..self },
            Light::YellowLight => LightChangeTimer { yellow: timer, ..self },
        }
    }

    /// All three timers restarted, durations kept.
    pub open spec fn restarted(self) -> LightChangeTimer {
        LightChangeTimer {
            go: self.go.restarted(),
            stop: self.stop.restarted(),
            yellow: self.yellow.restarted(),
        }
    }

    /// Every phase timer is as it is after a restart.
    pub open spec fn is_fresh(self) -> bool {
        self.restarted() == self
    }
}

/// The notification that the signal now shows `light`.
#[derive(Debug, Clone, Copy, PartialEq, Eq, Structural)]
pub struct LightChange {
    pub light: Light,
}

/// The one signal of the lane.
#[derive(Debug, Clone, Copy, PartialEq, Eq, Structural)]
pub struct TrafficLight {
    /// The light shown now.
    pub current_light: CurrentLight,
    /// The position of the stop line on the lane axis.
    pub position: i64,
    /// The phase timers.
    pub timers: LightChangeTimer,
}

impl TrafficLight {
    /// The signal as it is set up: red, with no time elapsed in any phase.
    pub open spec fn initial(position: i64, stop: u64, go: u64, yellow: u64) -> TrafficLight {
        TrafficLight {
            current_light: CurrentLight(Light::RedLight),
            position,
            timers: LightChangeTimer {
                go: Timer::started(go),
                stop: Timer::started(stop),
                yellow: Timer::started(yellow),
            },
        }
    }

    /// The signal with the timer of its current phase advanced by `delta`.
    pub open spec fn timed(self, delta: u64) -> TrafficLight {
        let light = self.current_light.0;
        TrafficLight { timers: self.timers.with(light, self.timers.of(light).ticked(delta)), ..self }
    }

    /// The timer of the current phase is finished after a tick of `delta`
    /// nanoseconds.
    pub open spec fn phase_ends(self, delta: u64) -> bool {
        self.timers.of(self.current_light.0).ticked(delta).finished
    }

    /// The signal showing `light`, with all phase timers restarted.
    pub open spec fn switched(self, light: Light) -> TrafficLight {
        TrafficLight { current_light: CurrentLight(light), timers: self.timers.restarted(), ..self }
    }

    /// The signal after every change in `changes` has been applied in order.
    pub open spec fn applied(self, changes: Seq<LightChange>) -> TrafficLight
        decreases changes.len(),
    {
        if changes.len() == 0 {
            self
        } else {
            self.applied(changes.drop_last()).switched(changes.last().light)
        }
    }

    /// The signal one tick of `delta` nanoseconds later: the timer of the
    /// current phase advances, and when it completes the next light is shown
    /// and all timers restart.
    pub open spec fn advanced(self, delta: u64) -> TrafficLight {
        if self.phase_ends(delta) {
            self.timed(delta).switched(self.current_light.0.next())
        } else {
            self.timed(delta)
        }
    }

    /// The change announced by a tick of `delta` nanoseconds, if any.
    pub open spec fn announced(self, delta: u64) -> Option<LightChange> {
        if self.phase_ends(delta) {
            Some(LightChange { light: self.current_light.0.next() })
        } else {
            None
        }
    }

    /// Advances the signal by one tick and returns the change of light it
    /// made, if the current phase came to its end.
    pub fn advance(&mut self, delta: u64) -> (change: Option<LightChange>)
        ensures
            *final(self) == old(self).advanced(delta),
            change == old(self).announced(delta),
            final(self).current_light.0 == old(self).current_light.0 || final(self).current_light.0
                == old(self).current_light.0.next(),
    {
        let change = update_event_emitter(self, delta);
        match change {
            Some(new_light) => {
                let mut changes: Vec<LightChange> = Vec::new();
                changes.push(new_light);
                proof {
                    let ghost timed = *self;
                    assert(changes@.drop_last() =~= Seq::<LightChange>::empty());
                    assert(timed.applied(changes@.drop_last()) == timed);
                    assert(timed.applied(changes@) == timed.switched(new_light.light));
                }
                update(self, &changes);
            },
            None => {},
        }
        change
    }
}

/// Sets up a signal at `position` with the given phase durations. It starts
/// red, and the red light is announced.
pub fn setup(position: i64, stop: u64, go: u64, yellow: u64) -> (created: (
    TrafficLight,
    LightChange,
))
    ensures
        created.0 == TrafficLight::initial(position, stop, go, yellow),
        created.1.light == Light::RedLight,
{
    let traffic_light = TrafficLight {
        current_light: CurrentLight(Light::RedLight),
        position,
        timers: LightChangeTimer {
            go: Timer::new(go),
            stop: Timer::new(stop),
            yellow: Timer::new(yellow),
        },
    };
    (traffic_light, LightChange { light: Light::RedLight })
}

/// Advances the timer of the current phase by `delta` nanoseconds and, when
/// that phase has run its whole duration, announces the light that follows.
/// The light itself changes only when the announcement is applied by
/// [`update`].
pub fn update_event_emitter(traffic_light: &mut TrafficLight, delta: u64) -> (change: Option<
    LightChange,
>)
    ensures
        *final(traffic_light) == old(traffic_light).timed(delta),
        change == old(traffic_light).announced(delta),
{
    match traffic_light.current_light.0 {
        Light::RedLight => {
            traffic_light.timers.stop.tick(delta);
            if traffic_light.timers.stop.finished() {
                Some(LightChange { light: Light::GreenLight })
            } else {
                None
            }
        },
        Light::YellowLight => {
            traffic_light.timers.yellow.tick(delta);
            if traffic_light.timers.yellow.finished() {
                Some(LightChange { light: Light::RedLight })
            } else {
                None
            }
        },
        Light::GreenLight => {
            traffic_light.timers.go.tick(delta);
            if traffic_light.timers.go.finished() {
                Some(LightChange { light: Light::YellowLight })
            } else {
                None
            }
        },
    }
}

/// Applies announced changes in order: each one sets the light shown and
/// restarts all three phase timers.
pub fn update(traffic_light: &mut TrafficLight, light_change_events: &Vec<LightChange>)
    ensures
        *final(traffic_light) == old(traffic_light).applied(light_change_events@),
{
    let mut index: usize = 0;
    while index < light_change_events.len()
        invariant
            index <= light_change_events.len(),
            *traffic_light == old(traffic_light).applied(
                light_change_events@.subrange(0, index as int),
            ),
        decreases light_change_events.len() - index,
    {
        let new_light = light_change_events[index];
        traffic_light.current_light = CurrentLight(new_light.light);
        traffic_light.timers.go.reset();
        traffic_light.timers.yellow.reset();
        traffic_light.timers.stop.reset();
        index = index + 1;
        proof {
            let upto = light_change_events@.subrange(0, index as int);
            assert(upto.drop_last() =~= light_change_events@.subrange(0, index - 1));
            assert(upto.last() == new_light);
        }
    }
    proof {
        assert(light_change_events@.subrange(0, index as int) =~= light_change_events@);
    }
}

/// One announcement that the signal is red for each of `count` requests.
pub open spec fn red_again(count: nat) -> Seq<LightChange> {
    Seq::new(count, |i: int| LightChange { light: Light::RedLight })
}

/// Answers every request to reset the simulation with the announcement that
/// the signal is red again.
pub fn reset_simulation_listener(reset_simulation_event: &Vec<ResetSimluation>) -> (changes: Vec<
    LightChange,
>)
    ensures
        changes@ == red_again(reset_simulation_event@.len()),
{
    let mut changes: Vec<LightChange> = Vec::new();
    let mut index: usize = 0;
    while index < reset_simulation_event.len()
        invariant
            index <= reset_simulation_event.len(),
            changes@ == red_again(index as nat),
        decreases reset_simulation_event.len() - index,
    {
        changes.push(LightChange { light: Light::RedLight });
        index = index + 1;
        proof {
            assert(changes@ =~= red_again(index as nat));
        }
    }
    changes
}

} // verus!

use traffic_sim::timer::Timer;
use traffic_sim::traffic_light::{
    reset_simulation_listener, setup, update, update_event_emitter, CurrentLight, Light,
    LightChange, LightChangeTimer, TrafficLight, GO_DURATION, STOP_DURATION, YELLOW_DURATION,
};
use traffic_sim::ui_components::reset_simulation_button::ResetSimluation;

/// A timer that has been advanced to `elapsed` since its last reset.
fn timer(elapsed: u64, duration: u64) -> Timer {
    Timer { elapsed, duration, finished: elapsed == duration }
}

fn signal(light: Light, stop: u64, go: u64, yellow: u64) -> TrafficLight {
    TrafficLight {
        current_light: CurrentLight(light),
        position: 0,
        timers: LightChangeTimer {
            stop: timer(stop, 10),
            go: timer(go, 20),
            yellow: timer(yellow, 5),
        },
    }
}

#[test]
fn light_names_are_those_of_the_assets() {
    assert_eq!(Light::RedLight.to_string(), "RedLight");
    assert_eq!(Light::GreenLight.to_string(), "GreenLight");
    assert_eq!(Light::YellowLight.to_string(), "YellowLight");
}

#[test]
fn lights_follow_one_another_in_the_cycle() {
    assert_eq!(Light::RedLight.successor(), Light::GreenLight);
    assert_eq!(Light::GreenLight.successor(), Light::YellowLight);
    assert_eq!(Light::YellowLight.successor(), Light::RedLight);
}

#[test]
fn signal_is_set_up_red_and_says_so() {
    let (traffic_light, announced) = setup(3_000_000, STOP_DURATION, GO_DURATION, YELLOW_DURATION);
    assert_eq!(announced, LightChange { light: Light::RedLight });
    assert_eq!(traffic_light.current_light, CurrentLight(Light::RedLight));
    assert_eq!(traffic_light.position, 3_000_000);
    assert_eq!(traffic_light.timers.stop, Timer::new(10_000_000_000));
    assert_eq!(traffic_light.timers.go, Timer::new(10_000_000_000));
    assert_eq!(traffic_light.timers.yellow, Timer::new(1_000_000_000));
    assert_eq!(
        Timer::new(1_000_000_000),
        Timer { elapsed: 0, duration: 1_000_000_000, finished: false }
    );
}

#[test]
fn emitter_advances_only_the_timer_of_the_current_phase() {
    let mut traffic_light = signal(Light::GreenLight, 1, 2, 3);
    assert_eq!(update_event_emitter(&mut traffic_light, 7), None);
    assert_eq!(traffic_light, signal(Light::GreenLight, 1, 9, 3));
}

#[test]
fn emitter_announces_the_next_light_when_the_phase_is_over() {
    let mut red = signal(Light::RedLight, 0, 0, 0);
    assert_eq!(update_event_emitter(&mut red, 9), None);
    assert_eq!(
        update_event_emitter(&mut red, 1),
        Some(LightChange { light: Light::GreenLight })
    );
    assert_eq!(red, signal(Light::RedLight, 10, 0, 0));

    let mut green = signal(Light::GreenLight, 0, 19, 0);
    assert_eq!(
        update_event_emitter(&mut green, 100),
        Some(LightChange { light: Light::YellowLight })
    );
    assert_eq!(green, signal(Light::GreenLight, 0, 20, 0));

    let mut yellow = signal(Light::YellowLight, 0, 0, 4);
    assert_eq!(update_event_emitter(&mut yellow, 0), None);
    assert_eq!(
        update_event_emitter(&mut yellow, 1),
        Some(LightChange { light: Light::RedLight })
    );
}

#[test]
fn update_shows_the_announced_light_and_restarts_all_timers() {
    let mut traffic_light = signal(Light::RedLight, 10, 4, 2);
    update(&mut traffic_light, &vec![LightChange { light: Light::GreenLight }]);
    assert_eq!(traffic_light, signal(Light::GreenLight, 0, 0, 0));
}

#[test]
fn update_without_announcements_changes_nothing() {
    let mut traffic_light = signal(Light::YellowLight, 10, 4, 2);
    update(&mut traffic_light, &Vec::new());
    assert_eq!(traffic_light, signal(Light::YellowLight, 10, 4, 2));
}

#[test]
fn update_applies_announcements_in_order() {
    let mut traffic_light = signal(Light::GreenLight, 10, 4, 2);
    update(
        &mut traffic_light,
        &vec![
            LightChange { light: Light::YellowLight },
            LightChange { light: Light::RedLight },
        ],
    );
    assert_eq!(traffic_light, signal(Light::RedLight, 0, 0, 0));
}

#[test]
fn advance_is_emitting_and_applying() {
    let mut traffic_light = signal(Light::RedLight, 3, 4, 2);
    assert_eq!(traffic_light.advance(6), None);
    assert_eq!(traffic_light, signal(Light::RedLight, 9, 4, 2));
    assert_eq!(
        traffic_light.advance(6),
        Some(LightChange { light: Light::GreenLight })
    );
    assert_eq!(traffic_light, signal(Light::GreenLight, 0, 0, 0));
}

#[test]
fn every_reset_request_is_answered_with_red() {
    assert_eq!(reset_simulation_listener(&Vec::new()), Vec::new());
    assert_eq!(
        reset_simulation_listener(&vec![ResetSimluation, ResetSimluation]),
        vec![
            LightChange { light: Light::RedLight },
            LightChange { light: Light::RedLight },
        ]
    );
}

#[test]
fn signal_cycle_on_a_fixed_step() {
    // phases of 10, 20 and 5 with a step of 3 last 4, 7 and 2 ticks
    let mut traffic_light = signal(Light::RedLight, 0, 0, 0);
    let mut seen: Vec<Light> = Vec::new();
    let mut announced: Vec<(usize, Light)> = Vec::new();
    for tick in 1..=26 {
        if let Some(change) = traffic_light.advance(3) {
            announced.push((tick, change.light));
        }
        seen.push(traffic_light.current_light.0);
    }
    assert_eq!(
        announced,
        vec![
            (4, Light::GreenLight),
            (11, Light::YellowLight),
            (13, Light::RedLight),
            (17, Light::GreenLight),
            (24, Light::YellowLight),
            (26, Light::RedLight),
        ]
    );
    assert_eq!(seen[2], Light::RedLight);
    assert_eq!(seen[3], Light::GreenLight);
    assert_eq!(seen[9], Light::GreenLight);
    assert_eq!(seen[10], Light::YellowLight);
    assert_eq!(seen[11], Light::YellowLight);
    assert_eq!(seen[12], Light::RedLight);
    assert_eq!(traffic_light, signal(Light::RedLight, 0, 0, 0));
}

#[test]
fn signal_never_skips_a_light_whatever_the_step() {
    let mut traffic_light = signal(Light::RedLight, 0, 0, 0);
    let mut step: u64 = 1;
    for _ in 0..500 {
        let before = traffic_light.current_light.0;
        let change = traffic_light.advance(step);
        let after = traffic_light.current_light.0;
        match change {
            Some(change) => {
                assert_eq!(change.light, before.successor());
                assert_eq!(after, before.successor());
            }
            None => assert_eq!(after, before),
        }
        step = (step * 7 + 3) % 23;
    }
}

#[test]
fn phase_of_no_duration_lasts_one_tick() {
    let mut traffic_light = TrafficLight {
        current_light: CurrentLight(Light::RedLight),
        position: 0,
        timers: LightChangeTimer {
            stop: Timer::new(0),
            go: Timer::new(0),
            yellow: Timer::new(0),
        },
    };
    assert_eq!(traffic_light.advance(1).map(|c| c.light), Some(Light::GreenLight));
    assert_eq!(traffic_light.advance(1).map(|c| c.light), Some(Light::YellowLight));
    assert_eq!(traffic_light.advance(1).map(|c| c.light), Some(Light::RedLight));
}

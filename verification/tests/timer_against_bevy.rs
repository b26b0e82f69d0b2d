use std::time::Duration;

use bevy::time::{Timer as BevyTimer, TimerMode};
use traffic_sim::timer::Timer;

fn agree(ours: &Timer, theirs: &BevyTimer) {
    assert_eq!(ours.elapsed() as u128, theirs.elapsed().as_nanos());
    assert_eq!(ours.duration() as u128, theirs.duration().as_nanos());
    assert_eq!(ours.finished(), theirs.finished());
}

fn pair(duration: u64) -> (Timer, BevyTimer) {
    (
        Timer::new(duration),
        BevyTimer::new(Duration::from_nanos(duration), TimerMode::Once),
    )
}

#[test]
fn new_timer_is_the_engine_timer() {
    for duration in [0, 1, 400_000_000, u64::MAX] {
        let (ours, theirs) = pair(duration);
        agree(&ours, &theirs);
    }
}

#[test]
fn timer_of_no_duration_is_the_engine_timer() {
    let (mut ours, mut theirs) = pair(0);
    ours.tick(0);
    theirs.tick(Duration::ZERO);
    agree(&ours, &theirs);
    ours.reset();
    theirs.reset();
    agree(&ours, &theirs);
}

#[test]
fn changed_duration_is_the_engine_timer() {
    let (mut ours, mut theirs) = pair(400_000_000);
    ours.tick(400_000_000);
    theirs.tick(Duration::from_nanos(400_000_000));
    agree(&ours, &theirs);
    ours.set_duration(300_000_000);
    theirs.set_duration(Duration::from_nanos(300_000_000));
    agree(&ours, &theirs);
    ours.set_duration(1_000_000_000);
    theirs.set_duration(Duration::from_nanos(1_000_000_000));
    ours.tick(5);
    theirs.tick(Duration::from_nanos(5));
    agree(&ours, &theirs);
}

#[test]
fn shortened_running_timer_is_the_engine_timer() {
    let (mut ours, mut theirs) = pair(1_000);
    ours.tick(700);
    theirs.tick(Duration::from_nanos(700));
    ours.set_duration(500);
    theirs.set_duration(Duration::from_nanos(500));
    agree(&ours, &theirs);
    ours.tick(0);
    theirs.tick(Duration::ZERO);
    agree(&ours, &theirs);
}

#[test]
fn long_ticks_are_the_engine_timer() {
    let (mut ours, mut theirs) = pair(u64::MAX);
    for _ in 0..3 {
        ours.tick(u64::MAX - 1);
        theirs.tick(Duration::from_nanos(u64::MAX - 1));
        agree(&ours, &theirs);
    }
}

#[test]
fn any_run_of_operations_is_the_engine_timer() {
    let mut seed: u64 = 2024;
    let mut next = move || {
        seed = seed
            .wrapping_mul(6364136223846793005)
            .wrapping_add(1442695040888963407);
        seed >> 33
    };
    for _ in 0..200 {
        let (mut ours, mut theirs) = pair(next() % 50);
        for _ in 0..60 {
            let amount = next() % 40;
            match next() % 8 {
                0 => {
                    ours.reset();
                    theirs.reset();
                }
                1 | 2 => {
                    ours.set_duration(amount);
                    theirs.set_duration(Duration::from_nanos(amount));
                }
                _ => {
                    ours.tick(amount);
                    theirs.tick(Duration::from_nanos(amount));
                }
            }
            agree(&ours, &theirs);
        }
    }
}

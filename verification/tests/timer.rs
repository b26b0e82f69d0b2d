use traffic_sim::lane::{advance, measure_ahead, Direction};
use traffic_sim::timer::Timer;

#[test]
fn timer_starts_empty() {
    let timer = Timer::new(1_000);
    assert_eq!(timer.elapsed(), 0);
    assert_eq!(timer.duration(), 1_000);
    assert!(!timer.finished());
}

#[test]
fn timer_accumulates_and_stops_at_its_duration() {
    let mut timer = Timer::new(1_000);
    timer.tick(400);
    assert_eq!(timer.elapsed(), 400);
    assert!(!timer.finished());
    timer.tick(599);
    assert_eq!(timer.elapsed(), 999);
    assert!(!timer.finished());
    timer.tick(1);
    assert_eq!(timer.elapsed(), 1_000);
    assert!(timer.finished());
    timer.tick(u64::MAX);
    assert_eq!(timer.elapsed(), 1_000);
    assert!(timer.finished());
}

#[test]
fn timer_tick_does_not_overflow() {
    let mut timer = Timer::new(u64::MAX);
    timer.tick(u64::MAX - 1);
    timer.tick(u64::MAX - 1);
    assert_eq!(timer.elapsed(), u64::MAX);
    assert!(timer.finished());
}

#[test]
fn timer_reset_restarts_it() {
    let mut timer = Timer::new(1_000);
    timer.tick(2_000);
    assert!(timer.finished());
    timer.reset();
    assert_eq!(timer, Timer { elapsed: 0, duration: 1_000, finished: false });
    assert!(!timer.finished());
}

#[test]
fn timer_of_no_duration_finishes_on_its_first_tick() {
    let mut timer = Timer::new(0);
    assert!(!timer.finished());
    timer.tick(0);
    assert!(timer.finished());
    timer.reset();
    assert!(!timer.finished());
}

#[test]
fn timer_set_duration_changes_the_duration_only() {
    let mut timer = Timer::new(1_000);
    timer.tick(700);
    timer.set_duration(2_000);
    assert_eq!(timer, Timer { elapsed: 700, duration: 2_000, finished: false });
    timer.set_duration(500);
    assert_eq!(timer, Timer { elapsed: 700, duration: 500, finished: false });
    assert!(!timer.finished());
    timer.tick(0);
    assert_eq!(timer, Timer { elapsed: 500, duration: 500, finished: true });
}

#[test]
fn finished_timer_stays_finished_when_its_duration_grows() {
    let mut timer = Timer::new(400);
    timer.tick(400);
    timer.set_duration(300);
    assert_eq!(timer, Timer { elapsed: 400, duration: 300, finished: true });
    timer.set_duration(1_000);
    timer.tick(50);
    assert_eq!(timer, Timer { elapsed: 400, duration: 1_000, finished: true });
    timer.reset();
    timer.tick(50);
    assert_eq!(timer, Timer { elapsed: 50, duration: 1_000, finished: false });
}

#[test]
fn distance_ahead_follows_the_direction() {
    assert_eq!(measure_ahead(Direction::Increasing, -10, 5), 15);
    assert_eq!(measure_ahead(Direction::Decreasing, -10, 5), -15);
    assert_eq!(measure_ahead(Direction::Decreasing, 13, 3), 10);
    assert_eq!(
        measure_ahead(Direction::Increasing, i64::MIN, i64::MAX),
        u64::MAX as i128
    );
    assert_eq!(
        measure_ahead(Direction::Decreasing, i64::MIN, i64::MAX),
        -(u64::MAX as i128)
    );
}

#[test]
fn advance_moves_in_the_direction_of_travel() {
    assert_eq!(advance(Direction::Increasing, 10, 3), 13);
    assert_eq!(advance(Direction::Decreasing, 10, 3), 7);
    assert_eq!(advance(Direction::Increasing, 10, 0), 10);
}

#[test]
fn advance_stops_at_the_end_of_the_axis() {
    assert_eq!(advance(Direction::Increasing, i64::MAX - 2, 3), i64::MAX);
    assert_eq!(advance(Direction::Increasing, i64::MAX - 3, 3), i64::MAX);
    assert_eq!(advance(Direction::Decreasing, i64::MIN + 2, 3), i64::MIN);
    assert_eq!(advance(Direction::Decreasing, i64::MIN + 4, 3), i64::MIN + 1);
}

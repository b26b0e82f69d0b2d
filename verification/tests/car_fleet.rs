use traffic_sim::car_fleet::car::{
    Acceleration, BrakingContext, Car, IsBreaking, ReactionTimer, StopLine, Velocity,
    REACTION_TIME,
};
use traffic_sim::car_fleet::car_fleet::{
    adjust_reaction_time, braking_context, positions, reaction_time_changes_listener,
    reset_simulation_listener, setup, slot_position, slots_are_in_range, update, CarFleet,
    FLEET_SIZE, SPACING,
};
use traffic_sim::lane::Direction;
use traffic_sim::timer::Timer;
use traffic_sim::traffic_light::{CurrentLight, Light, LightChangeTimer, TrafficLight};
use traffic_sim::ui_components::reaction_timer_controls::ReactionTimeChanged;
use traffic_sim::ui_components::reset_simulation_button::ResetSimluation;

const STEP: u64 = 15_625_000;

fn signal(light: Light, position: i64) -> TrafficLight {
    TrafficLight {
        current_light: CurrentLight(light),
        position,
        timers: LightChangeTimer {
            stop: Timer::new(10_000_000_000),
            go: Timer::new(10_000_000_000),
            yellow: Timer::new(1_000_000_000),
        },
    }
}

fn parked(position: i64, reaction_time: u64) -> Car {
    Car {
        position,
        velocity: Velocity(0),
        acceleration: Acceleration(0),
        reaction_timer: ReactionTimer(Timer { elapsed: 0, duration: reaction_time, finished: false }),
        is_breaking: IsBreaking(false),
    }
}

#[test]
fn slots_lie_behind_the_origin() {
    assert_eq!(slot_position(0, 10_000_000, Direction::Increasing, 0), -10_000_000);
    assert_eq!(slot_position(0, 10_000_000, Direction::Increasing, 5), -60_000_000);
    assert_eq!(slot_position(3_000_000, 10_000_000, Direction::Decreasing, 0), 13_000_000);
    assert_eq!(slot_position(3_000_000, 10_000_000, Direction::Decreasing, 2), 33_000_000);
    assert_eq!(slot_position(i64::MIN + 7, 1, Direction::Increasing, 6), i64::MIN);
}

#[test]
fn slots_in_and_out_of_range() {
    assert!(slots_are_in_range(0, i64::MAX, i64::MAX, Direction::Decreasing));
    assert!(slots_are_in_range(6, 0, 10_000_000, Direction::Increasing));
    assert!(slots_are_in_range(7, i64::MIN + 7, 1, Direction::Increasing));
    assert!(!slots_are_in_range(8, i64::MIN + 7, 1, Direction::Increasing));
    assert!(slots_are_in_range(8, i64::MIN + 7, 1, Direction::Decreasing));
    assert!(!slots_are_in_range(1, 1, i64::MAX, Direction::Decreasing));
    assert!(slots_are_in_range(1, 0, i64::MAX, Direction::Decreasing));
    assert!(!slots_are_in_range(usize::MAX, 0, i64::MIN, Direction::Increasing));
    assert!(slots_are_in_range(usize::MAX, 5, 0, Direction::Increasing));
}

#[test]
fn standard_fleet_is_six_cars_ten_units_apart() {
    assert_eq!(FLEET_SIZE, 6);
    assert_eq!(SPACING, 10_000_000);
    let fleet = setup(FLEET_SIZE, 0, SPACING, Direction::Increasing, None);
    assert_eq!(fleet.cars.len(), 6);
    for (index, car) in fleet.cars.iter().enumerate() {
        assert_eq!(*car, parked(-10_000_000 * (index as i64 + 1), REACTION_TIME));
    }
    assert_eq!(fleet.direction, Direction::Increasing);
    assert_eq!(fleet.origin, 0);
    assert_eq!(fleet.spacing, SPACING);
}

#[test]
fn empty_fleet_can_be_set_up_and_updated() {
    let mut fleet = setup(0, 0, SPACING, Direction::Increasing, None);
    update(&mut fleet, &signal(Light::RedLight, 0), STEP);
    assert!(fleet.cars.is_empty());
    assert_eq!(positions(&fleet), Vec::<i64>::new());
}

#[test]
fn snapshot_holds_the_positions_by_index() {
    let fleet = setup(3, 3_000_000, SPACING, Direction::Decreasing, Some(1));
    assert_eq!(positions(&fleet), vec![13_000_000, 23_000_000, 33_000_000]);
}

#[test]
fn context_shows_the_leader_and_the_line() {
    let snapshot = vec![-10_000_000, -20_000_000, -30_000_000];
    let red = signal(Light::RedLight, 0);
    let context = braking_context(&snapshot, -20_000_000, &red, Direction::Increasing);
    assert_eq!(context.car_infront, Some(-10_000_000));
    assert_eq!(
        context.stop_line,
        Some(StopLine { light: Light::RedLight, position: 0 })
    );
    let head = braking_context(&snapshot, -10_000_000, &red, Direction::Increasing);
    assert_eq!(head.car_infront, None);
}

#[test]
fn context_hides_a_line_that_has_been_passed() {
    let snapshot = vec![1, -5];
    let red = signal(Light::RedLight, 0);
    let passed = braking_context(&snapshot, 1, &red, Direction::Increasing);
    assert_eq!(passed.stop_line, None);
    let on_the_line: BrakingContext = braking_context(&snapshot, 0, &red, Direction::Increasing);
    assert_eq!(
        on_the_line.stop_line,
        Some(StopLine { light: Light::RedLight, position: 0 })
    );
    let other_way = braking_context(&snapshot, 1, &red, Direction::Decreasing);
    assert_eq!(
        other_way.stop_line,
        Some(StopLine { light: Light::RedLight, position: 0 })
    );
}

#[test]
fn cars_see_the_positions_from_the_start_of_the_tick() {
    // the leader moves away during the tick; the follower still decides by
    // where the leader was, in whichever order the two are stored
    let leader = Car {
        position: 0,
        velocity: Velocity(100_000),
        acceleration: Acceleration(3_000),
        reaction_timer: ReactionTimer(Timer { elapsed: 5, duration: 5, finished: true }),
        is_breaking: IsBreaking(false),
    };
    let follower = Car {
        position: -6_000_001,
        velocity: Velocity(3_000),
        acceleration: Acceleration(3_000),
        reaction_timer: ReactionTimer(Timer { elapsed: 5, duration: 5, finished: true }),
        is_breaking: IsBreaking(false),
    };
    let green = signal(Light::GreenLight, 100_000_000);
    for cars in [vec![leader, follower], vec![follower, leader]] {
        let follower_at = cars.iter().position(|car| *car == follower).unwrap();
        let mut fleet = CarFleet {
            cars,
            direction: Direction::Increasing,
            origin: 0,
            spacing: SPACING,
        };
        update(&mut fleet, &green, STEP);
        // gap 6.000001 - 6.0 = 0.000001 is less than the stopping distance
        assert!(fleet.cars[follower_at].is_breaking.0);
        assert_eq!(fleet.cars[follower_at].velocity.0, 0);
        assert_eq!(fleet.cars[follower_at].position, -6_000_001);
        assert_eq!(fleet.cars[1 - follower_at].position, 100_000);
    }
}

#[test]
fn reset_puts_every_car_back_into_its_slot() {
    let mut fleet = setup(3, 3_000_000, SPACING, Direction::Decreasing, Some(100_000_000));
    let green = signal(Light::GreenLight, 3_000_000);
    for _ in 0..200 {
        update(&mut fleet, &green, STEP);
    }
    assert!(fleet.cars.iter().all(|car| car.velocity.0 > 0));
    reset_simulation_listener(&vec![ResetSimluation], &mut fleet);
    assert_eq!(
        fleet.cars,
        vec![
            parked(13_000_000, 100_000_000),
            parked(23_000_000, 100_000_000),
            parked(33_000_000, 100_000_000),
        ]
    );
}

#[test]
fn no_reset_request_changes_nothing() {
    let mut fleet = setup(2, 0, SPACING, Direction::Increasing, None);
    let green = signal(Light::GreenLight, 0);
    for _ in 0..40 {
        update(&mut fleet, &green, STEP);
    }
    let before = fleet.cars.clone();
    reset_simulation_listener(&Vec::new(), &mut fleet);
    assert_eq!(fleet.cars, before);
}

#[test]
fn reaction_time_is_adjusted_but_never_to_zero() {
    assert_eq!(adjust_reaction_time(400_000_000, 100_000_000), 500_000_000);
    assert_eq!(adjust_reaction_time(400_000_000, -100_000_000), 300_000_000);
    assert_eq!(adjust_reaction_time(100_000_000, -100_000_000), 100_000_000);
    assert_eq!(adjust_reaction_time(100_000_000, -100_000_001), 100_000_000);
    assert_eq!(adjust_reaction_time(100_000_000, -99_999_999), 1);
    assert_eq!(adjust_reaction_time(0, 5), 5);
    assert_eq!(adjust_reaction_time(0, 0), 0);
}

#[test]
fn reaction_time_is_left_alone_when_it_would_not_fit() {
    assert_eq!(adjust_reaction_time(u64::MAX, 1), u64::MAX);
    assert_eq!(adjust_reaction_time(u64::MAX - 1, 1), u64::MAX);
    assert_eq!(adjust_reaction_time(u64::MAX, i64::MIN), u64::MAX - (1u64 << 63));
}

#[test]
fn reaction_time_requests_reach_every_car_in_order() {
    let mut fleet = setup(3, 0, SPACING, Direction::Increasing, Some(200_000_000));
    reaction_time_changes_listener(
        &vec![
            ReactionTimeChanged { delta: -100_000_000 },
            ReactionTimeChanged { delta: -100_000_000 },
            ReactionTimeChanged { delta: 100_000_000 },
        ],
        &mut fleet,
    );
    // 0.2 -> 0.1 -> (0.0 is refused) 0.1 -> 0.2
    for car in fleet.cars.iter() {
        assert_eq!(car.reaction_timer.0.duration, 200_000_000);
    }
    reaction_time_changes_listener(&vec![ReactionTimeChanged { delta: 50_000_000 }], &mut fleet);
    for car in fleet.cars.iter() {
        assert_eq!(
            car.reaction_timer.0,
            Timer { elapsed: 0, duration: 250_000_000, finished: false }
        );
    }
}

#[test]
fn reaction_time_request_leaves_everything_but_the_duration() {
    let mut fleet = setup(3, 0, SPACING, Direction::Increasing, Some(400_000_000));
    let green = signal(Light::GreenLight, 0);
    for _ in 0..40 {
        update(&mut fleet, &green, STEP);
    }
    let before = fleet.cars.clone();
    // every car is cruising: its reaction timer has run out
    assert!(before.iter().all(|car| car.reaction_timer.0
        == Timer { elapsed: 400_000_000, duration: 400_000_000, finished: true }));
    reaction_time_changes_listener(&vec![ReactionTimeChanged { delta: -100_000_000 }], &mut fleet);
    for (car, old) in fleet.cars.iter().zip(before.iter()) {
        assert_eq!(car.position, old.position);
        assert_eq!(car.velocity, old.velocity);
        assert_eq!(car.acceleration, old.acceleration);
        assert_eq!(car.is_breaking, old.is_breaking);
        assert_eq!(
            car.reaction_timer.0,
            Timer { elapsed: 400_000_000, duration: 300_000_000, finished: true }
        );
    }
    reaction_time_changes_listener(&Vec::new(), &mut fleet);
    assert_eq!(fleet.cars[0].reaction_timer.0.duration, 300_000_000);
}

#[test]
fn shorter_reaction_time_leaves_the_time_already_waited() {
    let mut fleet = setup(1, 0, SPACING, Direction::Increasing, Some(400_000_000));
    let red = signal(Light::RedLight, 0);
    for _ in 0..20 {
        update(&mut fleet, &red, STEP);
    }
    assert_eq!(fleet.cars[0].reaction_timer.0.elapsed, 312_500_000);
    reaction_time_changes_listener(&vec![ReactionTimeChanged { delta: -100_000_000 }], &mut fleet);
    assert_eq!(
        fleet.cars[0].reaction_timer.0,
        Timer { elapsed: 312_500_000, duration: 300_000_000, finished: false }
    );
    // the next tick finds the shorter time reached
    update(&mut fleet, &red, STEP);
    assert_eq!(
        fleet.cars[0].reaction_timer.0,
        Timer { elapsed: 300_000_000, duration: 300_000_000, finished: true }
    );
    assert_eq!(fleet.cars[0].velocity.0, 3_000);
}

use traffic_sim::car::{
    apply_movement, calculate_minimum_distance_to_stop, calculate_stopping_acceleration, setup,
    Acceleration, Car, ReactionTimer, Velocity, BREAK_LINE_POSITION, MAX_VELOCITY,
    REACTION_TIME_IN_NANOSECONDS, START_POSITION,
};
use traffic_sim::lane::Direction;
use traffic_sim::timer::Timer;
use traffic_sim::traffic_light::Light;

#[test]
fn stopping_distance_at_full_speed() {
    // 0.1 * 0.4 + 3 * 0.1^2 / (2 * 0.01) = 0.04 + 1.5
    assert_eq!(
        calculate_minimum_distance_to_stop(100_000, -10_000, 400_000_000),
        1_540_000
    );
}

#[test]
fn stopping_distance_at_rest_is_zero() {
    assert_eq!(calculate_minimum_distance_to_stop(0, -10_000, 400_000_000), 0);
}

#[test]
fn stopping_distance_takes_the_size_of_the_rate() {
    assert_eq!(
        calculate_minimum_distance_to_stop(50_000, 10_000, 500_000_000),
        calculate_minimum_distance_to_stop(50_000, -10_000, 500_000_000)
    );
    // 0.05 * 0.5 + 3 * 0.0025 / 0.02 = 0.025 + 0.375
    assert_eq!(
        calculate_minimum_distance_to_stop(50_000, -10_000, 500_000_000),
        400_000
    );
}

#[test]
fn stopping_distance_rounds_each_term_down() {
    // 7 * 0.3 s = 2.1 steps, 3 * 49 / 20000 = 0.00735 steps
    assert_eq!(calculate_minimum_distance_to_stop(7, -10_000, 300_000_000), 2);
    // 3 * 100^2 / (2 * 7) = 2142.86
    assert_eq!(calculate_minimum_distance_to_stop(100, 7, 0), 2_142);
}

#[test]
fn stopping_distance_with_the_longest_reaction_time() {
    assert_eq!(
        calculate_minimum_distance_to_stop(MAX_VELOCITY, -10_000, u64::MAX),
        1_844_674_407_370_955 + 1_500_000
    );
}

#[test]
fn stopping_distance_beyond_the_envelope() {
    // 1.0 * 0.5 + 3 * 1.0^2 / (2 * 0.5) = 0.5 + 3.0
    assert_eq!(
        calculate_minimum_distance_to_stop(1_000_000, -500_000, 500_000_000),
        3_500_000
    );
    // 2^62 steps per tick for one second, and 3 * 2^124 / 2^64 to brake
    assert_eq!(
        calculate_minimum_distance_to_stop(1i64 << 62, i64::MIN, 1_000_000_000),
        7i64 << 60
    );
}

#[test]
fn stopping_distance_of_a_vehicle_that_rolls_back() {
    // -0.1 * 0.4 + 3 * 0.1^2 / (2 * 0.01) = -0.04 + 1.5
    assert_eq!(
        calculate_minimum_distance_to_stop(-100_000, -10_000, 400_000_000),
        1_460_000
    );
    // the reaction term is rounded down: -7 * 0.3 s = -2.1 becomes -3
    assert_eq!(calculate_minimum_distance_to_stop(-7, -10_000, 300_000_000), -3);
}

#[test]
fn stopping_acceleration_rounds_its_size_up() {
    // -(0.0625^2) / (2 * 0.5) = -3906.25 steps
    assert_eq!(calculate_stopping_acceleration(62_500, 500_000), -3_907);
    assert_eq!(calculate_stopping_acceleration(-62_500, 500_000), -3_907);
    assert_eq!(calculate_stopping_acceleration(1_000_000, 500_000), -1_000_000);
    assert_eq!(calculate_stopping_acceleration(-5, 0), 5);
}

#[test]
fn stopping_acceleration_brings_the_vehicle_to_rest_at_the_target() {
    // -(0.1^2) / (2 * 1.0) = -0.005
    assert_eq!(calculate_stopping_acceleration(100_000, 1_000_000), -5_000);
    // -(0.05^2) / (2 * 7.0) = -0.000178..., size rounded up
    assert_eq!(calculate_stopping_acceleration(50_000, 7_000_000), -179);
    assert_eq!(calculate_stopping_acceleration(0, 7_000_000), 0);
}

#[test]
fn stopping_acceleration_guards_zero_distance() {
    assert_eq!(calculate_stopping_acceleration(50_000, 0), -50_000);
    assert_eq!(calculate_stopping_acceleration(50_000, -7), -50_000);
    assert_eq!(calculate_stopping_acceleration(0, 0), 0);
    assert_eq!(calculate_stopping_acceleration(100_000, i64::MIN), -100_000);
}

#[test]
fn stopping_acceleration_for_tiny_and_huge_distances() {
    assert_eq!(calculate_stopping_acceleration(100_000, 1), -5_000_000_000);
    assert_eq!(calculate_stopping_acceleration(100_000, i64::MAX), -1);
}

fn lone(position: i64, velocity: i64, acceleration: i64, elapsed: u64) -> Car {
    Car {
        position,
        velocity: Velocity(velocity),
        acceleration: Acceleration(acceleration),
        reaction_timer: ReactionTimer(Timer {
            elapsed,
            duration: REACTION_TIME_IN_NANOSECONDS,
            finished: false,
        }),
    }
}

#[test]
fn lone_car_is_set_up_at_rest() {
    let car = setup(START_POSITION);
    assert_eq!(car, lone(10_000_000, 0, 0, 0));
}

#[test]
fn lone_car_speeds_up_before_a_green_light() {
    let mut car = setup(START_POSITION);
    apply_movement(
        &mut car,
        15_625_000,
        Light::GreenLight,
        BREAK_LINE_POSITION,
        Direction::Decreasing,
    );
    assert_eq!(car, lone(9_997_000, 3_000, 3_000, 0));
}

#[test]
fn lone_car_keeps_its_rate_before_a_yellow_light() {
    let mut car = lone(9_000_000, 20_000, -1_000, 0);
    apply_movement(
        &mut car,
        15_625_000,
        Light::YellowLight,
        BREAK_LINE_POSITION,
        Direction::Decreasing,
    );
    assert_eq!(car, lone(8_981_000, 19_000, -1_000, 0));
}

#[test]
fn lone_car_speeds_up_past_the_line() {
    let mut car = lone(3_000_000, 99_000, -1_000, 0);
    apply_movement(
        &mut car,
        15_625_000,
        Light::RedLight,
        BREAK_LINE_POSITION,
        Direction::Decreasing,
    );
    assert_eq!(car, lone(2_900_000, 100_000, 3_000, 0));
}

#[test]
fn lone_car_far_from_a_red_light_speeds_up() {
    // 7.0 left, stopping distance 0.05 * 0.5 + 0.375 = 0.4: 7.0 - 3.0 is not less
    let mut car = lone(10_000_000, 50_000, 0, 0);
    apply_movement(
        &mut car,
        15_625_000,
        Light::RedLight,
        BREAK_LINE_POSITION,
        Direction::Decreasing,
    );
    assert_eq!(car, lone(9_947_000, 53_000, 3_000, 0));
}

#[test]
fn lone_car_in_braking_range_lets_its_reaction_time_pass() {
    // 3.2 left, stopping distance 0.4: 3.2 - 3.0 < 0.4 <= 3.2 + 3.0
    let mut car = lone(6_200_000, 50_000, 3_000, 0);
    apply_movement(
        &mut car,
        200_000_000,
        Light::RedLight,
        BREAK_LINE_POSITION,
        Direction::Decreasing,
    );
    assert_eq!(car, lone(6_147_000, 53_000, 3_000, 200_000_000));
}

#[test]
fn lone_car_brakes_for_the_line_once_its_reaction_time_has_passed() {
    let mut car = lone(6_200_000, 50_000, 3_000, 400_000_000);
    apply_movement(
        &mut car,
        100_000_000,
        Light::RedLight,
        BREAK_LINE_POSITION,
        Direction::Decreasing,
    );
    // -(0.05^2) / (2 * 3.2) = -0.000390625, size rounded up; the timer restarts
    assert_eq!(car, lone(6_150_391, 49_609, -391, 0));
}

#[test]
fn lone_car_too_near_to_stop_goes_on() {
    // with a reaction time of 100 s the stopping distance is 10.0 + 1.5, and
    // the line 0.5 ahead is too near even with the buffer added: 3.5 < 11.5
    let mut car = Car {
        position: 3_500_000,
        velocity: Velocity(100_000),
        acceleration: Acceleration(-10_000),
        reaction_timer: ReactionTimer(Timer {
            elapsed: 7,
            duration: 100_000_000_000,
            finished: false,
        }),
    };
    apply_movement(
        &mut car,
        15_625_000,
        Light::RedLight,
        BREAK_LINE_POSITION,
        Direction::Decreasing,
    );
    assert_eq!(
        car,
        Car {
            position: 3_400_000,
            velocity: Velocity(100_000),
            acceleration: Acceleration(3_000),
            reaction_timer: ReactionTimer(Timer {
                elapsed: 7,
                duration: 100_000_000_000,
                finished: false,
            }),
        }
    );
}

#[test]
fn lone_car_close_to_the_line_brakes_harder() {
    // the line 0.5 ahead: 0.5 + 3.0 < 0.1 * 0.5 + 1.5 is false, so it reacts
    let mut car = lone(3_500_000, 100_000, 3_000, 0);
    apply_movement(
        &mut car,
        500_000_000,
        Light::RedLight,
        BREAK_LINE_POSITION,
        Direction::Decreasing,
    );
    // -(0.1^2) / (2 * 0.5) = -0.01
    assert_eq!(car, lone(3_410_000, 90_000, -10_000, 0));
}

#[test]
fn lone_car_velocity_never_leaves_the_envelope() {
    let mut car = setup(START_POSITION);
    for tick in 0..4_000u32 {
        let light = match (tick / 640) % 3 {
            0 => Light::RedLight,
            1 => Light::GreenLight,
            _ => Light::YellowLight,
        };
        apply_movement(
            &mut car,
            15_625_000,
            light,
            BREAK_LINE_POSITION,
            Direction::Decreasing,
        );
        assert!(0 <= car.velocity.0 && car.velocity.0 <= MAX_VELOCITY);
    }
}

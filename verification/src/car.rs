//! The performance envelope shared by every vehicle; the stopping-distance
//! model: how far a vehicle travels before it can stand still, and how hard
//! it has to brake to stand still at a given point; and a vehicle that
//! drives alone towards the signal and brakes by that model.

use vstd::prelude::*;
use crate::lane::{advance, advanced, distance_ahead, measure_ahead, Direction};
use crate::timer::Timer;
use crate::traffic_light::Light;
use crate::units::NANOS_PER_SECOND;

verus! {

/// The highest velocity a vehicle reaches, in length steps per tick.
pub const MAX_VELOCITY: i64 = 100_000;

/// The rate at which a vehicle gains velocity, per tick.
pub const SPEED_UP_ACCELERATION: i64 = 3_000;

/// The rate at which a braking vehicle changes velocity, per tick.
pub const SLOW_DOWN_ACCELERATION: i64 = -10_000;

/// The reaction time of a vehicle that drives alone: half a second, in
/// nanoseconds.
pub const REACTION_TIME_IN_NANOSECONDS: u64 = 500_000_000;

/// Where a vehicle that drives alone starts.
pub const START_POSITION: i64 = 10_000_000;

/// The position of the stop line before a vehicle that drives alone.
pub const BREAK_LINE_POSITION: i64 = 3_000_000;

/// The distance before the stop line, on top of the stopping distance, from
/// which a vehicle that drives alone begins to brake for a red light.
pub const SLOW_DOWN_BUFFER: i64 = 3_000_000;

/// The rate at which the velocity of a vehicle changes, per tick.
#[derive(Debug, Clone, Copy, PartialEq, Eq, Structural)]
pub struct Acceleration(pub i64);

/// The distance a vehicle covers per tick.
#[derive(Debug, Clone, Copy, PartialEq, Eq, Structural)]
pub struct Velocity(pub i64);

/// The timer of a vehicle's reaction time.
#[derive(Debug, Clone, Copy, PartialEq, Eq, Structural)]
pub struct ReactionTimer(pub Timer);

/// A vehicle that drives alone towards the signal.
#[derive(Debug, Clone, Copy, PartialEq, Eq, Structural)]
pub struct Car {
    /// Where the vehicle is on the lane axis.
    pub position: i64,
    /// How fast it moves; never negative, never above [`MAX_VELOCITY`].
    pub velocity: Velocity,
    /// The rate currently applied to its velocity.
    pub acceleration: Acceleration,
    /// Delays the moment at which it begins to brake.
    pub reaction_timer: ReactionTimer,
}

/// The limit of `value` to the range from `low` to `high`.
pub open spec fn clamped(value: int, low: int, high: int) -> int {
    if value > high {
        high
    } else if value < low {
        low
    } else {
        value
    }
}

/// The absolute value of an integer.
pub open spec fn magnitude(x: int) -> int {
    if x < 0 {
        -x
    } else {
        x
    }
}

/// The distance needed to come to rest from `velocity` when braking at
/// `deceleration` (a positive rate): the distance covered during the reaction
/// time, plus three times the kinematic braking distance `v² / 2a` as a
/// safety margin. Each of the two terms is rounded down to a whole step.
pub open spec fn minimum_stopping_distance(
    velocity: int,
    deceleration: int,
    reaction_time: int,
) -> int
    recommends
        deceleration > 0,
{
    (velocity * reaction_time) / (NANOS_PER_SECOND as int) + (3 * (velocity * velocity)) / (2
        * deceleration)
}

/// The acceleration (never positive) that brings `velocity` to zero exactly
/// `remaining_distance` further on: `-v² / 2d`, its size rounded up to a whole
/// step. With no distance left the vehicle should already stand still, and
/// the answer is the rate that stops it within one tick.
pub open spec fn required_deceleration(velocity: int, remaining_distance: int) -> int {
    if remaining_distance > 0 {
        -((velocity * velocity + 2 * remaining_distance - 1) / (2 * remaining_distance))
    } else {
        -velocity
    }
}

/// Within the envelope the stopping distance is not negative and can be
/// represented, whatever the braking rate and the reaction time.
pub proof fn lemma_stopping_distance_in_envelope(
    velocity: int,
    deceleration: int,
    reaction_time: int,
)
    requires
        0 <= velocity <= MAX_VELOCITY,
        deceleration > 0,
        0 <= reaction_time <= u64::MAX,
    ensures
        0 <= minimum_stopping_distance(velocity, deceleration, reaction_time)
            <= 1_844_704_407_370_955,
{
    let covered = velocity * reaction_time;
    let square = velocity * velocity;
    assert(0 <= covered <= 1_844_674_407_370_955_161_500_000) by (nonlinear_arith)
        requires
            covered == velocity * reaction_time,
            0 <= velocity <= 100_000,
            0 <= reaction_time <= 18_446_744_073_709_551_615,
    ;
    assert(0 <= square <= 10_000_000_000) by (nonlinear_arith)
        requires
            square == velocity * velocity,
            0 <= velocity <= 100_000,
    ;
    let braking = (3 * square) / (2 * deceleration);
    assert(0 <= braking <= 3 * square) by (nonlinear_arith)
        requires
            braking == (3 * square) / (2 * deceleration),
            deceleration >= 1,
            square >= 0,
    ;
    assert(0 <= covered / 1_000_000_000 <= 1_844_674_407_370_955);
    assert(minimum_stopping_distance(velocity, deceleration, reaction_time) == covered
        / 1_000_000_000 + braking);
}

/// Within the envelope the required deceleration is not positive and no
/// stronger than the square of the highest velocity.
pub proof fn lemma_required_deceleration_in_envelope(velocity: int, remaining_distance: int)
    requires
        0 <= velocity <= MAX_VELOCITY,
    ensures
        -MAX_VELOCITY * MAX_VELOCITY <= required_deceleration(velocity, remaining_distance) <= 0,
{
    let square = velocity * velocity;
    assert(0 <= square <= 10_000_000_000) by (nonlinear_arith)
        requires
            square == velocity * velocity,
            0 <= velocity <= 100_000,
    ;
    if remaining_distance > 0 {
        let twice = 2 * remaining_distance;
        let size = (square + twice - 1) / twice;
        assert(0 <= size <= square) by (nonlinear_arith)
            requires
                size == (square + twice - 1) / twice,
                twice >= 2,
                square >= 0,
        ;
    }
}

/// Computes [`minimum_stopping_distance`], for every velocity whose stopping
/// distance can be represented. `acceleration` is the braking rate; only its
/// size matters, and it cannot be zero.
pub fn calculate_minimum_distance_to_stop(
    current_velocity: i64,
    acceleration: i64,
    reaction_time: u64,
) -> (distance: i64)
    requires
        acceleration != 0,
        i64::MIN <= minimum_stopping_distance(
            current_velocity as int,
            magnitude(acceleration as int),
            reaction_time as int,
        ) <= i64::MAX,
    ensures
        distance == minimum_stopping_distance(
            current_velocity as int,
            magnitude(acceleration as int),
            reaction_time as int,
        ),
{
    let speed: u128 = if current_velocity < 0 {
        (-(current_velocity as i128)) as u128
    } else {
        current_velocity as u128
    };
    let rate: u128 = if acceleration < 0 {
        (-(acceleration as i128)) as u128
    } else {
        acceleration as u128
    };
    let time: u128 = reaction_time as u128;
    assert(speed * time <= 0x8000_0000_0000_0000 * 0xffff_ffff_ffff_ffff && speed * speed
        <= 0x8000_0000_0000_0000 * 0x8000_0000_0000_0000) by (nonlinear_arith)
        requires
            0 <= speed <= 0x8000_0000_0000_0000,
            0 <= time <= 0xffff_ffff_ffff_ffff,
    ;
    let covered: u128 = speed * time;
    let square: u128 = speed * speed;
    assert(square == current_velocity * current_velocity && (current_velocity >= 0 ==> covered
        == current_velocity * reaction_time) && (current_velocity < 0 ==> covered == -(
    current_velocity * reaction_time))) by (nonlinear_arith)
        requires
            square == speed * speed,
            covered == speed * time,
            time == reaction_time,
            current_velocity >= 0 ==> speed == current_velocity,
            current_velocity < 0 ==> speed == -current_velocity,
    ;
    let braking: u128 = (3 * square) / (2 * rate);
    assert(2 * braking <= 3 * square) by (nonlinear_arith)
        requires
            braking == (3 * square) / (2 * rate),
            rate >= 1,
            square >= 0,
    ;
    let reaction: i128 = if current_velocity >= 0 {
        (covered / 1_000_000_000) as i128
    } else {
        -(((covered + 999_999_999) / 1_000_000_000) as i128)
    };
    assert(reaction == (current_velocity * reaction_time) / 1_000_000_000);
    (reaction + (braking as i128)) as i64
}

/// Computes [`required_deceleration`], for every velocity and distance whose
/// required deceleration can be represented.
pub fn calculate_stopping_acceleration(current_velocity: i64, distance: i64) -> (acceleration: i64)
    requires
        i64::MIN <= required_deceleration(current_velocity as int, distance as int) <= i64::MAX,
    ensures
        acceleration == required_deceleration(current_velocity as int, distance as int),
{
    if distance <= 0 {
        -current_velocity
    } else {
        let speed: u128 = if current_velocity < 0 {
            (-(current_velocity as i128)) as u128
        } else {
            current_velocity as u128
        };
        let twice: u128 = 2 * (distance as u128);
        assert(speed * speed <= 0x8000_0000_0000_0000 * 0x8000_0000_0000_0000)
            by (nonlinear_arith)
            requires
                0 <= speed <= 0x8000_0000_0000_0000,
        ;
        let square: u128 = speed * speed;
        assert(square == current_velocity * current_velocity) by (nonlinear_arith)
            requires
                square == speed * speed,
                speed == current_velocity || speed == -current_velocity,
        ;
        let size: u128 = (square + twice - 1) / twice;
        (-(size as i128)) as i64
    }
}

impl Car {
    /// The velocity lies within the envelope, the acceleration is no
    /// stronger than the strongest deceleration that
    /// [`required_deceleration`] asks of a vehicle within the envelope and
    /// no larger than the common rate of speeding up.
    pub open spec fn wf(self) -> bool {
        &&& 0 <= self.velocity.0 <= MAX_VELOCITY
        &&& -MAX_VELOCITY * MAX_VELOCITY <= self.acceleration.0 <= SPEED_UP_ACCELERATION
    }

    /// The vehicle as it is set up: standing still at `position`.
    pub open spec fn initial(position: i64) -> Car {
        Car {
            position,
            velocity: Velocity(0),
            acceleration: Acceleration(0),
            reaction_timer: ReactionTimer(Timer::started(REACTION_TIME_IN_NANOSECONDS)),
        }
    }

    /// The stopping distance of the vehicle from its present velocity.
    pub open spec fn needed(self) -> int {
        minimum_stopping_distance(
            self.velocity.0 as int,
            -SLOW_DOWN_ACCELERATION as int,
            self.reaction_timer.0.duration as int,
        )
    }

    /// The vehicle is before a red light and near enough to the line to
    /// have to brake, but not so near that it could no longer stand before
    /// it: what is left of the way, less the buffer, is shorter than the
    /// stopping distance, and with the buffer added it is not.
    pub open spec fn reacts(self, light: Light, line: i64, direction: Direction) -> bool {
        let left = distance_ahead(direction, self.position as int, line as int);
        &&& left > 0
        &&& light == Light::RedLight
        &&& left + SLOW_DOWN_BUFFER >= self.needed()
        &&& left - SLOW_DOWN_BUFFER < self.needed()
    }

    /// The vehicle keeps its acceleration: it is before a yellow light, or
    /// it has to brake and its reaction time has not passed.
    pub open spec fn holds_rate(self, delta: u64, light: Light, line: i64, direction: Direction) -> bool {
        ||| distance_ahead(direction, self.position as int, line as int) > 0 && light
            == Light::YellowLight
        ||| self.reacts(light, line, direction) && !self.reaction_timer.0.ticked(delta).finished
    }

    /// The reaction timer after a tick: it runs only while the vehicle has
    /// to brake, and restarts when it has run out.
    pub open spec fn next_timer(self, delta: u64, light: Light, line: i64, direction: Direction) -> Timer {
        if self.reacts(light, line, direction) {
            if self.reaction_timer.0.ticked(delta).finished {
                self.reaction_timer.0.restarted()
            } else {
                self.reaction_timer.0.ticked(delta)
            }
        } else {
            self.reaction_timer.0
        }
    }

    /// The acceleration after a tick: the deceleration that brings the
    /// vehicle to rest at the line when it has to brake and its reaction
    /// time has passed; the old rate when it keeps it; else the common rate
    /// of speeding up.
    pub open spec fn next_acceleration(
        self,
        delta: u64,
        light: Light,
        line: i64,
        direction: Direction,
    ) -> int {
        if self.holds_rate(delta, light, line, direction) {
            self.acceleration.0 as int
        } else if self.reacts(light, line, direction) {
            required_deceleration(
                self.velocity.0 as int,
                distance_ahead(direction, self.position as int, line as int),
            )
        } else {
            SPEED_UP_ACCELERATION as int
        }
    }

    /// The vehicle one tick of `delta` nanoseconds later.
    pub open spec fn moved(self, delta: u64, light: Light, line: i64, direction: Direction) -> Car {
        let acceleration = self.next_acceleration(delta, light, line, direction);
        let velocity = clamped(self.velocity.0 + acceleration, 0, MAX_VELOCITY as int);
        Car {
            position: advanced(direction, self.position, velocity),
            velocity: Velocity(velocity as i64),
            acceleration: Acceleration(acceleration as i64),
            reaction_timer: ReactionTimer(self.next_timer(delta, light, line, direction)),
        }
    }
}

impl Car {
    /// Tells whether the vehicle is well formed.
    pub fn is_well_formed(&self) -> (valid: bool)
        ensures
            valid == self.wf(),
    {
        0 <= self.velocity.0 && self.velocity.0 <= MAX_VELOCITY && -10_000_000_000
            <= self.acceleration.0 && self.acceleration.0 <= SPEED_UP_ACCELERATION
    }
}

/// Sets up a vehicle that drives alone: standing still at `position`, with
/// a reaction time of [`REACTION_TIME_IN_NANOSECONDS`].
pub fn setup(position: i64) -> (car: Car)
    ensures
        car == Car::initial(position),
        car.wf(),
{
    Car {
        position,
        velocity: Velocity(0),
        acceleration: Acceleration(0),
        reaction_timer: ReactionTimer(Timer::new(REACTION_TIME_IN_NANOSECONDS)),
    }
}

/// Moves a vehicle that drives alone through one tick of `delta`
/// nanoseconds. Past the line, before a green light, and before a red light
/// that is still far away or already too near to stop for, it speeds up.
/// Before a red light within braking range it lets its reaction time pass
/// and then takes the deceleration that brings it to rest at the line. The
/// timer is advanced once, then read, then restarted if it has run out. The
/// velocity stays between zero and [`MAX_VELOCITY`].
pub fn apply_movement(
    car: &mut Car,
    delta: u64,
    current_light: Light,
    break_line_position: i64,
    direction: Direction,
)
    requires
        old(car).wf(),
    ensures
        *final(car) == old(car).moved(delta, current_light, break_line_position, direction),
        final(car).wf(),
        0 <= final(car).velocity.0 <= MAX_VELOCITY,
{
    let left: i128 = measure_ahead(direction, car.position, break_line_position);
    let before_traffic_light: bool = left > 0;
    if before_traffic_light {
        match current_light {
            Light::GreenLight => {
                car.acceleration = Acceleration(SPEED_UP_ACCELERATION);
            },
            Light::RedLight => {
                proof {
                    lemma_stopping_distance_in_envelope(
                        car.velocity.0 as int,
                        -SLOW_DOWN_ACCELERATION as int,
                        car.reaction_timer.0.duration as int,
                    );
                }
                let minimum_distance_to_stop: i64 = calculate_minimum_distance_to_stop(
                    car.velocity.0,
                    SLOW_DOWN_ACCELERATION,
                    car.reaction_timer.0.duration(),
                );
                if left + (SLOW_DOWN_BUFFER as i128) < minimum_distance_to_stop as i128 {
                    car.acceleration = Acceleration(SPEED_UP_ACCELERATION);
                } else if left - (SLOW_DOWN_BUFFER as i128) < minimum_distance_to_stop as i128 {
                    car.reaction_timer.0.tick(delta);
                    if car.reaction_timer.0.finished() {
                        car.reaction_timer.0.reset();
                        let distance: i64 = if left > i64::MAX as i128 {
                            i64::MAX
                        } else {
                            left as i64
                        };
                        proof {
                            if left > i64::MAX {
                                lemma_far_enough(car.velocity.0 as int, left as int);
                            }
                            lemma_required_deceleration_in_envelope(
                                car.velocity.0 as int,
                                distance as int,
                            );
                        }
                        car.acceleration = Acceleration(
                            calculate_stopping_acceleration(car.velocity.0, distance),
                        );
                    }
                } else {
                    car.acceleration = Acceleration(SPEED_UP_ACCELERATION);
                }
            },
            Light::YellowLight => {},
        }
    } else {
        car.acceleration = Acceleration(SPEED_UP_ACCELERATION);
    }
    let new_velocity: i64 = car.velocity.0 + car.acceleration.0;
    if new_velocity > MAX_VELOCITY {
        car.velocity = Velocity(MAX_VELOCITY);
    } else if new_velocity < 0 {
        car.velocity = Velocity(0);
    } else {
        car.velocity = Velocity(new_velocity);
    }
    car.position = advance(direction, car.position, car.velocity.0);
}

/// Beyond the largest position difference that fits a position, the
/// required deceleration no longer depends on the distance: it is one step
/// for a moving vehicle and none for one at rest.
proof fn lemma_far_enough(velocity: int, distance: int)
    requires
        0 <= velocity <= MAX_VELOCITY,
        distance > i64::MAX,
    ensures
        required_deceleration(velocity, distance) == required_deceleration(
            velocity,
            i64::MAX as int,
        ),
{
    let square = velocity * velocity;
    assert(0 <= square <= 10_000_000_000) by (nonlinear_arith)
        requires
            0 <= velocity <= 100_000,
            square == velocity * velocity,
    ;
    let far = 2 * distance;
    let limit = 2 * (i64::MAX as int);
    if square == 0 {
        assert((square + far - 1) / far == 0) by (nonlinear_arith)
            requires
                square == 0,
                far > 1,
        ;
        assert((square + limit - 1) / limit == 0);
    } else {
        assert((square + far - 1) / far == 1) by (nonlinear_arith)
            requires
                0 < square <= 10_000_000_000,
                far > 20_000_000_000,
        ;
        assert((square + limit - 1) / limit == 1);
    }
}

} // verus!

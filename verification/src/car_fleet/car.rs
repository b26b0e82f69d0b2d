//! One vehicle: its state, what it sees of the lane ahead, whether it has to
//! brake, and how one tick changes it.

use vstd::prelude::*;
pub use crate::car::{Acceleration, ReactionTimer, Velocity};
use crate::car::{
    calculate_minimum_distance_to_stop,
    clamped,
    lemma_stopping_distance_in_envelope,
    minimum_stopping_distance,
    MAX_VELOCITY,
    SLOW_DOWN_ACCELERATION,
    SPEED_UP_ACCELERATION,
};
use crate::lane::{advance, advanced, distance_ahead, measure_ahead, Direction};
use crate::timer::Timer;
use crate::traffic_light::Light;

verus! {

/// The distance a vehicle leaves between itself and the obstacle ahead of
/// it, another vehicle or the stop line, on top of its stopping distance.
pub const BREAK_DISTANCE: i64 = 6_000_000;

/// The reaction time of a vehicle that was given none, in nanoseconds.
pub const REACTION_TIME: u64 = 400_000_000;

/// Whether a vehicle is currently holding back for an obstacle.
#[derive(Debug, Clone, Copy, PartialEq, Eq, Structural)]
pub struct IsBreaking(pub bool);

/// The stop line as a vehicle that has not passed it sees it.
#[derive(Debug, Clone, Copy, PartialEq, Eq, Structural)]
pub struct StopLine {
    /// The light shown at the start of the tick.
    pub light: Light,
    /// The position of the line on the lane axis.
    pub position: i64,
}

/// What one vehicle sees ahead of it at the start of a tick.
#[derive(Debug, Clone, Copy)]
pub struct BrakingContext {
    /// The position of the nearest vehicle ahead, if there is one.
    pub car_infront: Option<i64>,
    /// The stop line, if the vehicle has not passed it.
    pub stop_line: Option<StopLine>,
}

/// One vehicle of the fleet.
#[derive(Debug, Clone, Copy, PartialEq, Eq, Structural)]
pub struct Car {
    /// Where the vehicle is on the lane axis.
    pub position: i64,
    /// How fast it moves; never negative, never above [`MAX_VELOCITY`].
    pub velocity: Velocity,
    /// The rate currently applied to its velocity.
    pub acceleration: Acceleration,
    /// Delays its return to speeding up after the way has become free.
    pub reaction_timer: ReactionTimer,
    /// Whether it is holding back for an obstacle.
    pub is_breaking: IsBreaking,
}

/// An obstacle is too close when what is left of the way to it, once
/// [`BREAK_DISTANCE`] is set aside, is less than the stopping distance.
pub open spec fn too_close(
    direction: Direction,
    position: i64,
    obstacle: i64,
    stopping_distance: int,
) -> bool {
    distance_ahead(direction, position as int, obstacle as int) - BREAK_DISTANCE < stopping_distance
}

/// The stopping distance of a vehicle at `velocity` that brakes at the common
/// rate after `reaction_time`.
pub open spec fn stopping_distance(velocity: int, reaction_time: int) -> int {
    minimum_stopping_distance(velocity, -SLOW_DOWN_ACCELERATION as int, reaction_time)
}

/// A vehicle has to brake when the vehicle ahead is too close, or when the
/// light at a stop line it has not passed is red and the line is too close.
pub open spec fn should_brake(
    position: i64,
    velocity: i64,
    reaction_time: u64,
    context: BrakingContext,
    direction: Direction,
) -> bool {
    let needed = stopping_distance(velocity as int, reaction_time as int);
    let for_car = match context.car_infront {
        Some(car_infront) => too_close(direction, position, car_infront, needed),
        None => false,
    };
    let for_light = match context.stop_line {
        Some(stop_line) => stop_line.light == Light::RedLight && too_close(
            direction,
            position,
            stop_line.position,
            needed,
        ),
        None => false,
    };
    for_car || for_light
}

/// `candidate` is the position of a vehicle strictly ahead of `current`, and
/// no vehicle strictly ahead is nearer.
pub open spec fn is_nearest_ahead(
    positions: Seq<i64>,
    current: i64,
    direction: Direction,
    candidate: i64,
) -> bool {
    &&& positions.contains(candidate)
    &&& distance_ahead(direction, current as int, candidate as int) > 0
    &&& forall|i: int|
        0 <= i < positions.len() && distance_ahead(direction, current as int, positions[i] as int)
            > 0 ==> distance_ahead(direction, current as int, candidate as int) <= distance_ahead(
            direction,
            current as int,
            #[trigger] positions[i] as int,
        )
}

/// The position of the nearest vehicle strictly ahead of `current` among
/// `positions`, if any vehicle is ahead.
pub open spec fn car_infront(positions: Seq<i64>, current: i64, direction: Direction) -> Option<
    i64,
> {
    if exists|candidate: i64| is_nearest_ahead(positions, current, direction, candidate) {
        Some(choose|candidate: i64| is_nearest_ahead(positions, current, direction, candidate))
    } else {
        None
    }
}

impl Car {
    /// The velocity and the acceleration lie within the common envelope, and
    /// a vehicle that is holding back brakes at the common rate.
    pub open spec fn wf(self) -> bool {
        &&& 0 <= self.velocity.0 <= MAX_VELOCITY
        &&& SLOW_DOWN_ACCELERATION <= self.acceleration.0 <= SPEED_UP_ACCELERATION
        &&& (self.is_breaking.0 ==> self.acceleration.0 == SLOW_DOWN_ACCELERATION)
    }

    /// The vehicle has to brake in `context`.
    pub open spec fn brakes(self, context: BrakingContext, direction: Direction) -> bool {
        should_brake(
            self.position,
            self.velocity.0,
            self.reaction_timer.0.duration,
            context,
            direction,
        )
    }

    /// The reaction timer after a tick of `delta` nanoseconds. It stands
    /// still while the vehicle has to brake; it restarts when the vehicle
    /// stops having to; and it runs while the way is free.
    pub open spec fn next_timer(self, brake: bool, delta: u64) -> Timer {
        if brake {
            self.reaction_timer.0
        } else if self.is_breaking.0 {
            self.reaction_timer.0.restarted().ticked(delta)
        } else {
            self.reaction_timer.0.ticked(delta)
        }
    }

    /// The acceleration after a tick of `delta` nanoseconds. A vehicle that
    /// starts to hold back brakes at once; one whose way is free speeds up
    /// once its reaction timer has run out; otherwise the rate stays.
    pub open spec fn next_acceleration(self, brake: bool, delta: u64) -> i64 {
        if brake {
            if self.is_breaking.0 {
                self.acceleration.0
            } else {
                SLOW_DOWN_ACCELERATION
            }
        } else if self.next_timer(brake, delta).finished {
            SPEED_UP_ACCELERATION
        } else {
            self.acceleration.0
        }
    }

    /// The velocity after a tick of `delta` nanoseconds: the old one changed
    /// by the new acceleration, kept between zero and [`MAX_VELOCITY`].
    pub open spec fn next_velocity(self, brake: bool, delta: u64) -> i64 {
        clamped(self.velocity.0 + self.next_acceleration(brake, delta), 0, MAX_VELOCITY as int) as i64
    }

    /// The vehicle one tick of `delta` nanoseconds later, given whether it
    /// has to brake: timer, acceleration and velocity are updated in that
    /// order, and the vehicle moves on by its new velocity.
    pub open spec fn driven(self, brake: bool, delta: u64, direction: Direction) -> Car {
        Car {
            position: advanced(direction, self.position, self.next_velocity(brake, delta) as int),
            velocity: Velocity(self.next_velocity(brake, delta)),
            acceleration: Acceleration(self.next_acceleration(brake, delta)),
            reaction_timer: ReactionTimer(self.next_timer(brake, delta)),
            is_breaking: IsBreaking(brake),
        }
    }

    /// The vehicle one tick of `delta` nanoseconds later in `context`.
    pub open spec fn moved(self, context: BrakingContext, delta: u64, direction: Direction) -> Car {
        self.driven(self.brakes(context, direction), delta, direction)
    }

    /// The vehicle as it is created: standing still unless told otherwise,
    /// not holding back, its reaction timer at zero.
    pub open spec fn created(
        position: i64,
        velocity: Option<i64>,
        acceleration: Option<i64>,
        reaction_time: Option<u64>,
    ) -> Car {
        Car {
            position,
            velocity: Velocity(
                match velocity {
                    Some(given) => given,
                    None => 0,
                },
            ),
            acceleration: Acceleration(
                match acceleration {
                    Some(given) => given,
                    None => 0,
                },
            ),
            reaction_timer: ReactionTimer(
                Timer::started(
                    match reaction_time {
                        Some(given) => given,
                        None => REACTION_TIME,
                    },
                ),
            ),
            is_breaking: IsBreaking(false),
        }
    }
}

impl Car {
    /// Tells whether the vehicle is well formed.
    pub fn is_well_formed(&self) -> (valid: bool)
        ensures
            valid == self.wf(),
    {
        0 <= self.velocity.0 && self.velocity.0 <= MAX_VELOCITY && SLOW_DOWN_ACCELERATION
            <= self.acceleration.0 && self.acceleration.0 <= SPEED_UP_ACCELERATION && (
        !self.is_breaking.0 || self.acceleration.0 == SLOW_DOWN_ACCELERATION)
    }
}

/// Creates a vehicle at `position`. A velocity, acceleration or reaction
/// time that is not given is zero, zero and [`REACTION_TIME`].
pub fn get_car_bundle(
    position: i64,
    velocity: Option<i64>,
    acceleration: Option<i64>,
    reaction_time_in_nanoseconds: Option<u64>,
) -> (car: Car)
    requires
        velocity matches Some(given) ==> 0 <= given <= MAX_VELOCITY,
        acceleration matches Some(given) ==> SLOW_DOWN_ACCELERATION <= given
            <= SPEED_UP_ACCELERATION,
    ensures
        car == Car::created(position, velocity, acceleration, reaction_time_in_nanoseconds),
        car.wf(),
{
    Car {
        position,
        velocity: Velocity(velocity.unwrap_or(0)),
        acceleration: Acceleration(acceleration.unwrap_or(0)),
        reaction_timer: ReactionTimer(Timer::new(reaction_time_in_nanoseconds.unwrap_or(REACTION_TIME))),
        is_breaking: IsBreaking(false),
    }
}

/// Computes the stopping distance of a vehicle at `current_velocity` with
/// the given reaction time, for every velocity whose stopping distance can be
/// represented; every velocity within the envelope is one.
pub fn calculate_stopping_distance(current_velocity: i64, reaction_time: u64) -> (distance: i64)
    requires
        i64::MIN <= stopping_distance(current_velocity as int, reaction_time as int) <= i64::MAX,
    ensures
        distance == stopping_distance(current_velocity as int, reaction_time as int),
{
    calculate_minimum_distance_to_stop(current_velocity, SLOW_DOWN_ACCELERATION, reaction_time)
}

/// Finds the position of the nearest vehicle strictly ahead of the one at
/// `current_car_z_position`, by one pass over the positions of all vehicles.
pub fn get_car_infront_z_position(
    cars_z_positions: &Vec<i64>,
    current_car_z_position: i64,
    direction: Direction,
) -> (found: Option<i64>)
    ensures
        found == car_infront(cars_z_positions@, current_car_z_position, direction),
        found matches Some(position) ==> is_nearest_ahead(
            cars_z_positions@,
            current_car_z_position,
            direction,
            position,
        ),
        found is None ==> forall|i: int|
            0 <= i < cars_z_positions@.len() ==> distance_ahead(
                direction,
                current_car_z_position as int,
                #[trigger] cars_z_positions@[i] as int,
            ) <= 0,
{
    let mut nearest: Option<i64> = None;
    let mut index: usize = 0;
    while index < cars_z_positions.len()
        invariant
            index <= cars_z_positions.len(),
            nearest matches Some(position) ==> is_nearest_ahead(
                cars_z_positions@.subrange(0, index as int),
                current_car_z_position,
                direction,
                position,
            ),
            nearest is None ==> forall|i: int|
                0 <= i < index ==> distance_ahead(
                    direction,
                    current_car_z_position as int,
                    #[trigger] cars_z_positions@[i] as int,
                ) <= 0,
        decreases cars_z_positions.len() - index,
    {
        let other_car_z_position: i64 = cars_z_positions[index];
        let gap: i128 = measure_ahead(direction, current_car_z_position, other_car_z_position);
        let ghost seen = cars_z_positions@.subrange(0, index as int);
        let ghost grown = cars_z_positions@.subrange(0, index + 1);
        proof {
            assert(grown.drop_last() =~= seen);
            assert(grown.last() == other_car_z_position);
            assert forall|i: int| 0 <= i < seen.len() implies seen[i] == grown[i] by {}
        }
        let nearer: bool = match nearest {
            Some(position) => gap < measure_ahead(direction, current_car_z_position, position),
            None => true,
        };
        if gap > 0 && nearer {
            nearest = Some(other_car_z_position);
            proof {
                assert(grown[index as int] == other_car_z_position);
                assert forall|i: int|
                    0 <= i < grown.len() && distance_ahead(
                        direction,
                        current_car_z_position as int,
                        grown[i] as int,
                    ) > 0 implies gap <= distance_ahead(
                    direction,
                    current_car_z_position as int,
                    #[trigger] grown[i] as int,
                ) by {
                    if i < index {
                        assert(seen[i] == grown[i]);
                    }
                }
            }
        } else {
            proof {
                match nearest {
                    Some(position) => {
                        let at = choose|i: int| 0 <= i < seen.len() && seen[i] == position;
                        assert(grown[at] == position);
                        assert forall|i: int|
                            0 <= i < grown.len() && distance_ahead(
                                direction,
                                current_car_z_position as int,
                                grown[i] as int,
                            ) > 0 implies distance_ahead(
                            direction,
                            current_car_z_position as int,
                            position as int,
                        ) <= distance_ahead(
                            direction,
                            current_car_z_position as int,
                            #[trigger] grown[i] as int,
                        ) by {
                            if i < index {
                                assert(seen[i] == grown[i]);
                            }
                        }
                    },
                    None => {},
                }
            }
        }
        index = index + 1;
    }
    proof {
        assert(cars_z_positions@.subrange(0, index as int) =~= cars_z_positions@);
        lemma_car_infront_is_unique(cars_z_positions@, current_car_z_position, direction, nearest);
    }
    nearest
}

/// The nearest vehicle ahead is determined by the positions: whatever
/// satisfies [`is_nearest_ahead`] is the value of [`car_infront`], and when
/// no vehicle is ahead that value is `None`.
pub proof fn lemma_car_infront_is_unique(
    positions: Seq<i64>,
    current: i64,
    direction: Direction,
    found: Option<i64>,
)
    requires
        found matches Some(position) ==> is_nearest_ahead(positions, current, direction, position),
        found is None ==> forall|i: int|
            0 <= i < positions.len() ==> distance_ahead(
                direction,
                current as int,
                #[trigger] positions[i] as int,
            ) <= 0,
    ensures
        found == car_infront(positions, current, direction),
{
    match found {
        Some(position) => {
            let chosen = choose|candidate: i64|
                is_nearest_ahead(positions, current, direction, candidate);
            let at = choose|i: int| 0 <= i < positions.len() && positions[i] == position;
            let chosen_at = choose|i: int| 0 <= i < positions.len() && positions[i] == chosen;
            assert(positions[at] == position);
            assert(positions[chosen_at] == chosen);
        },
        None => {
            if exists|candidate: i64| is_nearest_ahead(positions, current, direction, candidate) {
                let chosen = choose|candidate: i64|
                    is_nearest_ahead(positions, current, direction, candidate);
                let chosen_at = choose|i: int| 0 <= i < positions.len() && positions[i] == chosen;
                assert(positions[chosen_at] == chosen);
            }
        },
    }
}

/// The nearest vehicle ahead depends on which positions are taken, not on
/// the order in which the vehicles are stored.
pub proof fn lemma_car_infront_ignores_order(
    positions: Seq<i64>,
    reordered: Seq<i64>,
    current: i64,
    direction: Direction,
)
    requires
        forall|position: i64| positions.contains(position) <==> reordered.contains(position),
    ensures
        car_infront(positions, current, direction) == car_infront(reordered, current, direction),
{
    let found = car_infront(positions, current, direction);
    match found {
        Some(position) => {
            assert(is_nearest_ahead(positions, current, direction, position));
            assert forall|i: int|
                0 <= i < reordered.len() && distance_ahead(
                    direction,
                    current as int,
                    reordered[i] as int,
                ) > 0 implies distance_ahead(direction, current as int, position as int)
                <= distance_ahead(direction, current as int, #[trigger] reordered[i] as int) by {
                assert(reordered.contains(reordered[i]));
                let at = choose|j: int| 0 <= j < positions.len() && positions[j] == reordered[i];
                assert(positions[at] == reordered[i]);
            }
            assert(is_nearest_ahead(reordered, current, direction, position));
        },
        None => {
            assert forall|i: int| 0 <= i < reordered.len() implies distance_ahead(
                direction,
                current as int,
                #[trigger] reordered[i] as int,
            ) <= 0 by {
                if distance_ahead(direction, current as int, reordered[i] as int) > 0 {
                    assert(reordered.contains(reordered[i]));
                    lemma_some_car_is_nearest(positions, current, direction, reordered[i]);
                }
            }
        },
    }
    lemma_car_infront_is_unique(reordered, current, direction, found);
}

/// Where some vehicle is ahead, one of those ahead is the nearest.
pub proof fn lemma_some_car_is_nearest(
    positions: Seq<i64>,
    current: i64,
    direction: Direction,
    ahead: i64,
)
    requires
        positions.contains(ahead),
        distance_ahead(direction, current as int, ahead as int) > 0,
    ensures
        exists|candidate: i64| is_nearest_ahead(positions, current, direction, candidate),
    decreases positions.len(),
{
    let last = positions.last();
    let earlier = positions.drop_last();
    let at = choose|i: int| 0 <= i < positions.len() && positions[i] == ahead;
    assert(positions[at] == ahead);
    let last_is_ahead = distance_ahead(direction, current as int, last as int) > 0;
    if exists|i: int|
        0 <= i < earlier.len() && distance_ahead(direction, current as int, earlier[i] as int)
            > 0 {
        let i = choose|i: int|
            0 <= i < earlier.len() && distance_ahead(direction, current as int, earlier[i] as int)
                > 0;
        assert(earlier.contains(earlier[i]));
        lemma_some_car_is_nearest(earlier, current, direction, earlier[i]);
        let best = choose|candidate: i64| is_nearest_ahead(earlier, current, direction, candidate);
        let best_at = choose|j: int| 0 <= j < earlier.len() && earlier[j] == best;
        assert(positions[best_at] == best);
        let winner = if last_is_ahead && distance_ahead(direction, current as int, last as int)
            < distance_ahead(direction, current as int, best as int) {
            last
        } else {
            best
        };
        assert(positions[positions.len() - 1] == last);
        assert forall|j: int|
            0 <= j < positions.len() && distance_ahead(
                direction,
                current as int,
                positions[j] as int,
            ) > 0 implies distance_ahead(direction, current as int, winner as int)
            <= distance_ahead(direction, current as int, #[trigger] positions[j] as int) by {
            if j < earlier.len() {
                assert(earlier[j] == positions[j]);
            }
        }
        assert(is_nearest_ahead(positions, current, direction, winner));
    } else {
        assert(at == positions.len() - 1) by {
            if at < earlier.len() {
                assert(earlier[at] == positions[at]);
            }
        }
        assert forall|j: int|
            0 <= j < positions.len() && distance_ahead(
                direction,
                current as int,
                positions[j] as int,
            ) > 0 implies distance_ahead(direction, current as int, last as int)
            <= distance_ahead(direction, current as int, #[trigger] positions[j] as int) by {
            if j < earlier.len() {
                assert(earlier[j] == positions[j]);
            }
        }
        assert(is_nearest_ahead(positions, current, direction, last));
    }
}

/// Decides whether a vehicle has to brake: for the vehicle ahead, or for a
/// red light at a stop line that it has not passed. The velocity may be any
/// whose stopping distance can be represented; every velocity within the
/// envelope is one.
pub fn should_break(
    position: i64,
    velocity: i64,
    reaction_time: u64,
    context: &BrakingContext,
    direction: Direction,
) -> (brake: bool)
    requires
        i64::MIN <= stopping_distance(velocity as int, reaction_time as int) <= i64::MAX,
    ensures
        brake == should_brake(position, velocity, reaction_time, *context, direction),
{
    let minimum_distance_to_stop: i64 = calculate_stopping_distance(velocity, reaction_time);
    match context.car_infront {
        Some(car_infront_z_position) => {
            let gap: i128 = measure_ahead(direction, position, car_infront_z_position);
            if gap - (BREAK_DISTANCE as i128) < minimum_distance_to_stop as i128 {
                return true;
            }
        },
        None => {},
    }
    match context.stop_line {
        Some(stop_line) => {
            match stop_line.light {
                Light::RedLight => {
                    let gap: i128 = measure_ahead(direction, position, stop_line.position);
                    gap - (BREAK_DISTANCE as i128) < minimum_distance_to_stop as i128
                },
                _ => false,
            }
        },
        None => false,
    }
}

/// Moves a vehicle through one tick of `delta` nanoseconds. Holding back
/// begins at once and at the common braking rate; it ends by restarting the
/// reaction timer, and the vehicle speeds up again only when that timer has
/// run out. The timer is advanced once, then read. The velocity stays between
/// zero and [`MAX_VELOCITY`].
pub fn apply_movement(
    car: &mut Car,
    context: &BrakingContext,
    delta: u64,
    direction: Direction,
)
    requires
        old(car).wf(),
    ensures
        *final(car) == old(car).moved(*context, delta, direction),
        final(car).wf(),
        0 <= final(car).velocity.0 <= MAX_VELOCITY,
{
    proof {
        lemma_stopping_distance_in_envelope(
            car.velocity.0 as int,
            -SLOW_DOWN_ACCELERATION as int,
            car.reaction_timer.0.duration as int,
        );
    }
    let should_break: bool = should_break(
        car.position,
        car.velocity.0,
        car.reaction_timer.0.duration(),
        context,
        direction,
    );
    if should_break {
        if !car.is_breaking.0 {
            car.is_breaking = IsBreaking(true);
            car.acceleration = Acceleration(SLOW_DOWN_ACCELERATION);
        }
    } else {
        if car.is_breaking.0 {
            car.is_breaking = IsBreaking(false);
            car.reaction_timer.0.reset();
        }
        car.reaction_timer.0.tick(delta);
        if car.reaction_timer.0.finished() {
            car.acceleration = Acceleration(SPEED_UP_ACCELERATION);
        }
    }
    let new_velocity: i64 = car.velocity.0 + car.acceleration.0;
    if new_velocity > MAX_VELOCITY {
        car.velocity = Velocity(MAX_VELOCITY);
    } else if new_velocity < 0 {
        car.velocity = Velocity(0);
    } else {
        car.velocity = Velocity(new_velocity);
    }
    car.position = advance(direction, car.position, car.velocity.0);
}

} // verus!

//! A vehicle with nothing to hold back for speeds up: once its reaction timer
//! has run out it gains velocity on every tick until it has reached the
//! maximum, and it never loses any.

use vstd::prelude::*;
use crate::car::{MAX_VELOCITY, SPEED_UP_ACCELERATION};
use crate::car_fleet::car::{BrakingContext, Car};
use crate::car_fleet::car_fleet::CarFleetView;
use crate::lane::Direction;
use crate::laws::stopping::{in_file, lemma_file_head};
use crate::timer::lemma_ticks_to_cover;
use crate::traffic_light::{Light, TrafficLight};

verus! {

/// The number of ticks in which a vehicle that speeds up on every tick goes
/// from rest to [`MAX_VELOCITY`].
pub const SPEED_UP_TICKS: u64 = 34;

/// Nothing ahead asks the vehicle to hold back: no vehicle is ahead of it,
/// and the stop line is passed or its light is not red.
pub open spec fn is_free(context: BrakingContext) -> bool {
    &&& context.car_infront is None
    &&& match context.stop_line {
        Some(stop_line) => stop_line.light != Light::RedLight,
        None => true,
    }
}

/// The vehicle after `ticks` ticks of `delta` nanoseconds on a free road.
pub open spec fn cruised(car: Car, delta: u64, direction: Direction, ticks: nat) -> Car
    decreases ticks,
{
    if ticks == 0 {
        car
    } else {
        cruised(car, delta, direction, (ticks - 1) as nat).driven(false, delta, direction)
    }
}

/// The number of ticks of `delta` nanoseconds after which the reaction timer
/// of the vehicle has run out.
pub open spec fn reaction_ticks(car: Car, delta: u64) -> nat
    recommends
        delta > 0,
{
    car.reaction_timer.0.ticks_left(delta)
}

/// On a free road a vehicle does not brake, so its tick is the tick of a
/// vehicle that was told not to.
pub proof fn lemma_free_road_needs_no_brake(
    car: Car,
    context: BrakingContext,
    delta: u64,
    direction: Direction,
)
    requires
        is_free(context),
    ensures
        !car.brakes(context, direction),
        car.moved(context, delta, direction) == car.driven(false, delta, direction),
{
}

/// What holds of a vehicle on a free road after any number of ticks, if it
/// started without holding back and without a negative acceleration.
proof fn lemma_cruise(car: Car, delta: u64, direction: Direction, ticks: nat)
    requires
        car.wf(),
        delta > 0,
        !car.is_breaking.0,
        car.acceleration.0 >= 0,
    ensures
        ({
            let now = cruised(car, delta, direction, ticks);
            let wait = reaction_ticks(car, delta);
            &&& now.wf()
            &&& !now.is_breaking.0
            &&& now.acceleration.0 >= 0
            &&& now.reaction_timer.0.duration == car.reaction_timer.0.duration
            &&& now.velocity.0 >= car.velocity.0
            &&& ticks < wait ==> {
                &&& now.reaction_timer.0.elapsed == car.reaction_timer.0.elapsed + ticks * delta
                &&& now.reaction_timer.0.finished == car.reaction_timer.0.finished
            }
            &&& ticks >= wait ==> {
                &&& now.reaction_timer.0.finished
                &&& now.acceleration.0 == SPEED_UP_ACCELERATION
                &&& (now.velocity.0 == MAX_VELOCITY || now.velocity.0 >= (ticks - wait + 1)
                    * SPEED_UP_ACCELERATION)
            }
        }),
        ticks > 0 ==> cruised(car, delta, direction, ticks).velocity.0 >= cruised(
            car,
            delta,
            direction,
            (ticks - 1) as nat,
        ).velocity.0,
    decreases ticks,
{
    let wait = reaction_ticks(car, delta);
    let timer = car.reaction_timer.0;
    let left = if timer.elapsed >= timer.duration {
        0
    } else {
        (timer.duration - timer.elapsed) as u64
    };
    lemma_ticks_to_cover(left, delta);
    if ticks == 0 {
        assert(0 * delta == 0) by (nonlinear_arith);
    } else {
        let fewer = (ticks - 1) as nat;
        lemma_cruise(car, delta, direction, fewer);
        let before = cruised(car, delta, direction, fewer);
        let now = before.driven(false, delta, direction);
        assert(ticks * delta == fewer * delta + delta) by (nonlinear_arith)
            requires
                ticks == fewer + 1,
        ;
        if ticks < wait {
            assert(ticks * delta <= (wait - 1) * delta) by (nonlinear_arith)
                requires
                    ticks <= wait - 1,
                    delta > 0,
            ;
        } else if ticks == wait {
            assert(timer.finished || timer.elapsed >= timer.duration || wait * delta >= left);
            assert(now.reaction_timer.0.finished);
            assert((ticks - wait + 1) * SPEED_UP_ACCELERATION == SPEED_UP_ACCELERATION)
                by (nonlinear_arith)
                requires
                    ticks == wait,
            ;
        } else {
            assert((ticks - wait + 1) * SPEED_UP_ACCELERATION == (fewer - wait + 1)
                * SPEED_UP_ACCELERATION + SPEED_UP_ACCELERATION) by (nonlinear_arith)
                requires
                    ticks == fewer + 1,
            ;
        }
    }
}

/// No-leader acceleration. A vehicle on a free road that is not holding back
/// and has no negative acceleration never loses velocity from one tick to
/// the next, and it moves at [`MAX_VELOCITY`] after every number of ticks
/// from [`reaction_ticks`] plus [`SPEED_UP_TICKS`] less one onwards, however
/// far away the stop line is.
pub proof fn lemma_no_leader_acceleration(car: Car, delta: u64, direction: Direction, ticks: nat)
    requires
        car.wf(),
        delta > 0,
        !car.is_breaking.0,
        car.acceleration.0 >= 0,
    ensures
        cruised(car, delta, direction, ticks + 1).velocity.0 >= cruised(
            car,
            delta,
            direction,
            ticks,
        ).velocity.0,
        ticks + 1 >= reaction_ticks(car, delta) + SPEED_UP_TICKS ==> cruised(
            car,
            delta,
            direction,
            ticks,
        ).velocity.0 == MAX_VELOCITY,
{
    lemma_cruise(car, delta, direction, ticks);
    lemma_cruise(car, delta, direction, ticks + 1);
    let wait = reaction_ticks(car, delta);
    if ticks + 1 >= wait + SPEED_UP_TICKS {
        assert((ticks - wait + 1) * SPEED_UP_ACCELERATION >= 34 * SPEED_UP_ACCELERATION)
            by (nonlinear_arith)
            requires
                ticks - wait + 1 >= 34,
        ;
    }
}

/// In a tick that begins with the light not at red, the coordinator moves
/// the vehicle at the head of a file, which a lone vehicle is, exactly as
/// [`cruised`] does.
pub proof fn lemma_head_cruises(fleet: CarFleetView, traffic_light: TrafficLight, delta: u64)
    requires
        in_file(fleet),
        fleet.cars.len() > 0,
        traffic_light.current_light.0 != Light::RedLight,
    ensures
        fleet.stepped(traffic_light, delta).cars[0] == cruised(
            fleet.cars[0],
            delta,
            fleet.direction,
            1,
        ),
{
    lemma_file_head(fleet, traffic_light);
    let context = fleet.context(0, traffic_light);
    assert(is_free(context));
    lemma_free_road_needs_no_brake(fleet.cars[0], context, delta, fleet.direction);
    assert(cruised(fleet.cars[0], delta, fleet.direction, 1) == cruised(
        fleet.cars[0],
        delta,
        fleet.direction,
        0,
    ).driven(false, delta, fleet.direction));
}

} // verus!

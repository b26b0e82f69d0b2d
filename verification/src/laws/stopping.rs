//! A vehicle never comes nearer to what it holds back for, the stop line at
//! red or the vehicle ahead, than the braking buffer less a small tolerance.
//!
//! The argument rests on one quantity: the point at which a vehicle would
//! stand if it braked from now on. A braking tick leaves that point where it
//! is. A tick without braking is only taken when the obstacle is further
//! away than the stopping distance plus the buffer, and the stopping
//! distance is generous enough to cover one more tick of acceleration.

use vstd::prelude::*;
use crate::car::{MAX_VELOCITY, SLOW_DOWN_ACCELERATION, SPEED_UP_ACCELERATION};
use crate::car_fleet::car::{
    is_nearest_ahead,
    lemma_car_infront_is_unique,
    stopping_distance,
    too_close,
    BrakingContext,
    Car,
    StopLine,
    BREAK_DISTANCE,
};
use crate::car_fleet::car_fleet::{slot, CarFleetView};
use crate::lane::{distance_ahead, Direction};
use crate::laws::velocity::{
    lemma_retimed_keeps_wf,
    lemma_step_keeps_wf,
    lemma_velocity_bound,
    run,
    Tick,
};
use crate::simulation::{SimulationConfig, SimulationView};
use crate::timer::{
    lemma_ticks_to_cover,
    lemma_ticks_to_cover_falls,
    lemma_ticks_to_cover_grows,
    ticks_to_cover,
};
use crate::traffic_light::{Light, TrafficLight};
use crate::ui_components::reaction_timer_controls::ReactionTimeChanged;

verus! {

/// By how much a vehicle may come nearer to an obstacle than
/// [`BREAK_DISTANCE`]: the decision to brake is taken once per tick, after
/// the vehicle has moved.
pub const OVERSHOOT_TOLERANCE: i64 = 5_000;

/// The distance a vehicle covers from `velocity` until it stands when it
/// brakes at the common rate on every tick.
pub open spec fn braking_distance(velocity: int) -> int
    decreases velocity,
{
    if velocity <= -SLOW_DOWN_ACCELERATION {
        0
    } else {
        (velocity + SLOW_DOWN_ACCELERATION) + braking_distance(velocity + SLOW_DOWN_ACCELERATION)
    }
}

/// The vehicle can still stand clear of `obstacle`: even after braking to
/// rest from its present velocity it is at least [`BREAK_DISTANCE`] less
/// [`OVERSHOOT_TOLERANCE`] short of it.
pub open spec fn clear_of(car: Car, obstacle: i64, direction: Direction) -> bool {
    distance_ahead(direction, car.position as int, obstacle as int) - braking_distance(
        car.velocity.0 as int,
    ) >= BREAK_DISTANCE - OVERSHOOT_TOLERANCE
}

/// Every vehicle but the first can stand clear of the vehicle with the next
/// lower index: the fleet is a file with vehicle `0` at its head.
pub open spec fn in_file(fleet: CarFleetView) -> bool {
    forall|index: int|
        0 < index < fleet.cars.len() ==> clear_of(
            #[trigger] fleet.cars[index],
            fleet.cars[index - 1].position,
            fleet.direction,
        )
}

/// The braking distance is never negative.
pub proof fn lemma_braking_distance_nonnegative(velocity: int)
    ensures
        0 <= braking_distance(velocity),
    decreases velocity,
{
    if velocity > 10_000 {
        lemma_braking_distance_nonnegative(velocity - 10_000);
    }
}

/// The braking distance is never negative, and is bounded by a square:
/// `8a · distance <= (2v - a)²` for the braking rate `a`.
pub proof fn lemma_braking_distance_bound(velocity: int)
    requires
        0 <= velocity,
    ensures
        0 <= braking_distance(velocity),
        80_000 * braking_distance(velocity) <= (2 * velocity - 10_000) * (2 * velocity - 10_000),
    decreases velocity,
{
    if velocity <= 10_000 {
        assert(0 <= (2 * velocity - 10_000) * (2 * velocity - 10_000)) by (nonlinear_arith);
    } else {
        let slower = velocity - 10_000;
        lemma_braking_distance_bound(slower);
        assert(80_000 * slower + (2 * slower - 10_000) * (2 * slower - 10_000) == (2 * velocity
            - 10_000) * (2 * velocity - 10_000)) by (nonlinear_arith)
            requires
                slower == velocity - 10_000,
        ;
    }
}

/// One more tick at a velocity and then braking covers the braking distance
/// from a velocity one braking step higher.
pub proof fn lemma_braking_distance_step(velocity: int)
    requires
        0 <= velocity,
    ensures
        velocity + braking_distance(velocity) == braking_distance(velocity + 10_000),
{
    if velocity == 0 {
        assert(braking_distance(10_000) == 0);
        assert(braking_distance(0) == 0);
    }
}

/// The stopping distance covers one more tick of acceleration followed by
/// braking to rest, up to the tolerance.
pub proof fn lemma_stopping_distance_suffices(velocity: int, reaction_time: int, next: int)
    requires
        0 <= velocity <= MAX_VELOCITY,
        0 <= reaction_time,
        0 <= next <= velocity + SPEED_UP_ACCELERATION,
    ensures
        next + braking_distance(next) <= stopping_distance(velocity, reaction_time)
            + OVERSHOOT_TOLERANCE,
{
    lemma_braking_distance_step(next);
    lemma_braking_distance_bound(next + 10_000);
    let covered = braking_distance(next + 10_000);
    let square = velocity * velocity;
    let reacting = (velocity * reaction_time) / 1_000_000_000;
    let braking = (3 * square) / 20_000;
    assert(0 <= velocity * reaction_time) by (nonlinear_arith)
        requires
            0 <= velocity,
            0 <= reaction_time,
    ;
    assert(0 <= reacting);
    assert(stopping_distance(velocity, reaction_time) == reacting + braking);
    assert(20_000 * braking >= 3 * square - 19_999);
    assert((2 * next + 10_000) * (2 * next + 10_000) <= 4 * square + 64_000 * velocity
        + 256_000_000) by (nonlinear_arith)
        requires
            0 <= next <= velocity + 3_000,
            0 <= velocity,
            square == velocity * velocity,
    ;
    assert(8 * square - 64_000 * velocity + 128_000_000 >= 0) by (nonlinear_arith)
        requires
            square == velocity * velocity,
    ;
    assert((2 * (next + 10_000) - 10_000) * (2 * (next + 10_000) - 10_000) == (2 * next + 10_000)
        * (2 * next + 10_000)) by (nonlinear_arith);
}

/// The step on which everything rests. A vehicle that can stand clear of an
/// obstacle and sees it, as the vehicle ahead or as a stop line at red, can
/// still stand clear of it after the tick, provided the obstacle has not
/// come nearer meanwhile.
pub proof fn lemma_keeps_clear(
    car: Car,
    context: BrakingContext,
    delta: u64,
    direction: Direction,
    obstacle: i64,
    obstacle_after: i64,
)
    requires
        car.wf(),
        clear_of(car, obstacle, direction),
        distance_ahead(direction, obstacle as int, obstacle_after as int) >= 0,
        context.car_infront == Some(obstacle) || context.stop_line == Some(
            StopLine { light: Light::RedLight, position: obstacle },
        ),
    ensures
        clear_of(car.moved(context, delta, direction), obstacle_after, direction),
{
    let after = car.moved(context, delta, direction);
    let brake = car.brakes(context, direction);
    let next = after.velocity.0 as int;
    let velocity = car.velocity.0 as int;
    assert(0 <= distance_ahead(direction, car.position as int, after.position as int) <= next);
    lemma_braking_distance_bound(next);
    if brake {
        assert(car.next_acceleration(brake, delta) == SLOW_DOWN_ACCELERATION);
        if velocity > 10_000 {
            assert(next == velocity - 10_000);
            assert(braking_distance(velocity) == next + braking_distance(next));
        } else {
            assert(next == 0);
            assert(braking_distance(0) == 0);
            lemma_braking_distance_bound(velocity);
        }
    } else {
        let needed = stopping_distance(velocity, car.reaction_timer.0.duration as int);
        assert(!too_close(direction, car.position, obstacle, needed));
        lemma_stopping_distance_suffices(velocity, car.reaction_timer.0.duration as int, next);
    }
}

/// Red-light stop, safety. A vehicle that can stand clear of the stop line
/// keeps that ability through every tick that begins with the light at
/// red, whatever else is ahead of it: it never comes nearer to the line than
/// [`BREAK_DISTANCE`] less [`OVERSHOOT_TOLERANCE`], so it never passes it.
pub proof fn lemma_red_light_stop(
    fleet: CarFleetView,
    traffic_light: TrafficLight,
    delta: u64,
    index: int,
)
    requires
        fleet.wf(),
        0 <= index < fleet.cars.len(),
        traffic_light.current_light.0 == Light::RedLight,
        clear_of(fleet.cars[index], traffic_light.position, fleet.direction),
    ensures
        clear_of(
            fleet.stepped(traffic_light, delta).cars[index],
            traffic_light.position,
            fleet.direction,
        ),
        distance_ahead(
            fleet.direction,
            fleet.stepped(traffic_light, delta).cars[index].position as int,
            traffic_light.position as int,
        ) >= BREAK_DISTANCE - OVERSHOOT_TOLERANCE,
{
    let car = fleet.cars[index];
    lemma_braking_distance_bound(car.velocity.0 as int);
    let context = fleet.context(index, traffic_light);
    assert(context.stop_line == Some(
        StopLine { light: Light::RedLight, position: traffic_light.position },
    ));
    lemma_keeps_clear(
        car,
        context,
        delta,
        fleet.direction,
        traffic_light.position,
        traffic_light.position,
    );
    lemma_braking_distance_bound(car.moved(context, delta, fleet.direction).velocity.0 as int);
}

/// Red-light stop, rest. A vehicle within [`BREAK_DISTANCE`] of a stop line
/// at red that it has not passed brakes on every tick: its velocity falls by
/// the braking rate until it is zero, it does not speed up, and once it
/// stands it stays where it is.
pub proof fn lemma_brakes_before_red_light(
    car: Car,
    context: BrakingContext,
    delta: u64,
    direction: Direction,
    line: i64,
)
    requires
        car.wf(),
        context.stop_line == Some(StopLine { light: Light::RedLight, position: line }),
        distance_ahead(direction, car.position as int, line as int) < BREAK_DISTANCE,
    ensures
        car.moved(context, delta, direction).is_breaking.0,
        car.moved(context, delta, direction).velocity.0 == if car.velocity.0
            > -SLOW_DOWN_ACCELERATION {
            car.velocity.0 + SLOW_DOWN_ACCELERATION
        } else {
            0
        },
        car.velocity.0 == 0 ==> car.moved(context, delta, direction).position == car.position,
{
    let velocity = car.velocity.0 as int;
    let reaction_time = car.reaction_timer.0.duration as int;
    assert(0 <= velocity * reaction_time) by (nonlinear_arith)
        requires
            0 <= velocity,
            0 <= reaction_time,
    ;
    assert(0 <= velocity * velocity) by (nonlinear_arith);
    assert(stopping_distance(velocity, reaction_time) >= 0);
    assert(car.brakes(context, direction));
}

/// What a vehicle with no vehicle ahead sees of a stop line at red.
pub open spec fn facing_red(line: i64) -> BrakingContext {
    BrakingContext {
        car_infront: None,
        stop_line: Some(StopLine { light: Light::RedLight, position: line }),
    }
}

/// The vehicle after `ticks` ticks of `delta` nanoseconds, alone on the lane,
/// before a stop line at `line` whose light stays red.
pub open spec fn waited(car: Car, line: i64, delta: u64, direction: Direction, ticks: nat) -> Car
    decreases ticks,
{
    if ticks == 0 {
        car
    } else {
        waited(car, line, delta, direction, (ticks - 1) as nat).moved(
            facing_red(line),
            delta,
            direction,
        )
    }
}

/// The number of ticks in which a vehicle that brakes on every tick comes
/// to rest from [`MAX_VELOCITY`].
pub const BRAKING_TICKS: u64 = 10;

/// What holds after any number of ticks of a vehicle that is within
/// [`BREAK_DISTANCE`] of a red light and can stand clear of the line.
proof fn lemma_waiting_in_buffer(car: Car, line: i64, delta: u64, direction: Direction, ticks: nat)
    requires
        car.wf(),
        clear_of(car, line, direction),
        distance_ahead(direction, car.position as int, line as int) < BREAK_DISTANCE,
    ensures
        ({
            let now = waited(car, line, delta, direction, ticks);
            &&& now.wf()
            &&& clear_of(now, line, direction)
            &&& distance_ahead(direction, now.position as int, line as int) < BREAK_DISTANCE
            &&& distance_ahead(direction, now.position as int, line as int) >= BREAK_DISTANCE
                - OVERSHOOT_TOLERANCE
            &&& (now.velocity.0 == 0 || now.velocity.0 <= car.velocity.0 - ticks * 10_000)
            &&& ticks > 0 ==> now.is_breaking.0
        }),
    decreases ticks,
{
    lemma_braking_distance_nonnegative(car.velocity.0 as int);
    if ticks == 0 {
        assert(ticks * 10_000 == 0);
    } else {
        let fewer = (ticks - 1) as nat;
        lemma_waiting_in_buffer(car, line, delta, direction, fewer);
        let before = waited(car, line, delta, direction, fewer);
        lemma_keeps_clear(before, facing_red(line), delta, direction, line, line);
        lemma_brakes_before_red_light(before, facing_red(line), delta, direction, line);
        lemma_braking_distance_nonnegative(
            before.moved(facing_red(line), delta, direction).velocity.0 as int,
        );
        assert(ticks * 10_000 == fewer * 10_000 + 10_000);
    }
}

/// Red-light stop, coming to rest. A vehicle alone before a red light that
/// is within [`BREAK_DISTANCE`] of the line and can stand clear of it stands
/// still after [`BRAKING_TICKS`] ticks at the latest, does not move again
/// while the light is red, and stands no nearer to the line than
/// [`BREAK_DISTANCE`] less [`OVERSHOOT_TOLERANCE`].
pub proof fn lemma_comes_to_rest(
    car: Car,
    line: i64,
    delta: u64,
    direction: Direction,
    ticks: nat,
)
    requires
        car.wf(),
        clear_of(car, line, direction),
        distance_ahead(direction, car.position as int, line as int) < BREAK_DISTANCE,
        ticks >= BRAKING_TICKS,
    ensures
        waited(car, line, delta, direction, ticks).velocity.0 == 0,
        waited(car, line, delta, direction, ticks + 1).position == waited(
            car,
            line,
            delta,
            direction,
            ticks,
        ).position,
        distance_ahead(
            direction,
            waited(car, line, delta, direction, ticks).position as int,
            line as int,
        ) >= BREAK_DISTANCE - OVERSHOOT_TOLERANCE,
{
    lemma_waiting_in_buffer(car, line, delta, direction, ticks);
    let now = waited(car, line, delta, direction, ticks);
    assert(now.velocity.0 == 0) by {
        assert(ticks * 10_000 >= 100_000);
    }
    lemma_brakes_before_red_light(now, facing_red(line), delta, direction, line);
    assert(waited(car, line, delta, direction, ticks + 1) == now.moved(
        facing_red(line),
        delta,
        direction,
    ));
}

/// Waiting one tick and then some more is waiting that many ticks after
/// the first.
pub proof fn lemma_waited_shift(car: Car, line: i64, delta: u64, direction: Direction, ticks: nat)
    ensures
        waited(car, line, delta, direction, ticks + 1) == waited(
            car.moved(facing_red(line), delta, direction),
            line,
            delta,
            direction,
            ticks,
        ),
    decreases ticks,
{
    if ticks > 0 {
        lemma_waited_shift(car, line, delta, direction, (ticks - 1) as nat);
    } else {
        assert(waited(car, line, delta, direction, 1) == waited(car, line, delta, direction, 0).moved(
            facing_red(line),
            delta,
            direction,
        ));
    }
}

/// Waiting for two stretches of ticks one after the other is waiting for
/// their sum.
pub proof fn lemma_waited_sum(
    car: Car,
    line: i64,
    delta: u64,
    direction: Direction,
    first: nat,
    second: nat,
)
    ensures
        waited(car, line, delta, direction, first + second) == waited(
            waited(car, line, delta, direction, first),
            line,
            delta,
            direction,
            second,
        ),
    decreases second,
{
    if second > 0 {
        lemma_waited_sum(car, line, delta, direction, first, (second - 1) as nat);
    }
}

/// How many ticks a vehicle that stands still can go on standing still
/// before it moves again, at most; larger for a vehicle that moves.
pub open spec fn patience(car: Car, delta: u64) -> nat {
    if car.velocity.0 > 0 {
        ticks_to_cover(car.reaction_timer.0.duration, delta) + 2
    } else if car.is_breaking.0 {
        ticks_to_cover(car.reaction_timer.0.duration, delta) + 1
    } else {
        car.reaction_timer.0.ticks_left(delta)
    }
}

/// Red-light stop, the approach. A vehicle alone before a red light that
/// can stand clear of the line is within [`BREAK_DISTANCE`] of it after the
/// number of ticks that this proof returns: it does not wait short of the
/// buffer for ever.
pub proof fn lemma_reaches_buffer(car: Car, line: i64, delta: u64, direction: Direction) -> (ticks:
    nat)
    requires
        car.wf(),
        delta > 0,
        clear_of(car, line, direction),
    ensures
        waited(car, line, delta, direction, ticks).wf(),
        clear_of(waited(car, line, delta, direction, ticks), line, direction),
        distance_ahead(
            direction,
            waited(car, line, delta, direction, ticks).position as int,
            line as int,
        ) < BREAK_DISTANCE,
    decreases
            distance_ahead(direction, car.position as int, line as int) - BREAK_DISTANCE,
            patience(car, delta),
{
    let away = distance_ahead(direction, car.position as int, line as int);
    if away < BREAK_DISTANCE {
        return 0;
    }
    let context = facing_red(line);
    let next = car.moved(context, delta, direction);
    let away_next = distance_ahead(direction, next.position as int, line as int);
    lemma_keeps_clear(car, context, delta, direction, line, line);
    lemma_waited_shift(car, line, delta, direction, 0);
    assert(waited(next, line, delta, direction, 0) == next);
    if away_next < BREAK_DISTANCE {
        return 1;
    }
    assert(away_next == away - next.velocity.0);
    if next.velocity.0 == 0 {
        let duration = car.reaction_timer.0.duration;
        lemma_ticks_to_cover(duration, delta);
        if car.brakes(context, direction) {
            let velocity = car.velocity.0 as int;
            if velocity == 0 {
                assert(velocity * (duration as int) == 0 && velocity * velocity == 0)
                    by (nonlinear_arith)
                    requires
                        velocity == 0,
                ;
                assert(stopping_distance(velocity, duration as int) == 0);
            }
            assert(patience(next, delta) < patience(car, delta));
        } else {
            let timer = next.reaction_timer.0;
            assert(!timer.finished);
            assert(timer.elapsed < duration);
            lemma_ticks_to_cover_grows((duration - timer.elapsed) as u64, duration, delta);
            if car.velocity.0 == 0 && !car.is_breaking.0 {
                lemma_ticks_to_cover_falls(
                    (duration - car.reaction_timer.0.elapsed) as u64,
                    delta,
                );
            }
            assert(patience(next, delta) < patience(car, delta));
        }
    }
    let more = lemma_reaches_buffer(next, line, delta, direction);
    lemma_waited_shift(car, line, delta, direction, more);
    more + 1
}

/// Red-light stop. A vehicle alone before a red light that can stand clear
/// of the line always comes to rest: from the number of ticks that this
/// proof returns onwards, for as long as the light is red, its velocity is
/// zero, it stays at one position, and that position is within
/// [`BREAK_DISTANCE`] of the line but no nearer to it than [`BREAK_DISTANCE`]
/// less [`OVERSHOOT_TOLERANCE`].
pub proof fn lemma_red_light_rest(car: Car, line: i64, delta: u64, direction: Direction) -> (ticks:
    nat)
    requires
        car.wf(),
        delta > 0,
        clear_of(car, line, direction),
    ensures
        forall|later: nat|
            later >= ticks ==> {
                let standing = #[trigger] waited(car, line, delta, direction, later);
                &&& standing.velocity.0 == 0
                &&& standing.position == waited(car, line, delta, direction, ticks).position
                &&& BREAK_DISTANCE - OVERSHOOT_TOLERANCE <= distance_ahead(
                    direction,
                    standing.position as int,
                    line as int,
                ) < BREAK_DISTANCE
            },
{
    let approach = lemma_reaches_buffer(car, line, delta, direction);
    let near = waited(car, line, delta, direction, approach);
    let ticks = approach + BRAKING_TICKS as nat;
    assert forall|later: nat| later >= ticks implies {
        let standing = #[trigger] waited(car, line, delta, direction, later);
        &&& standing.velocity.0 == 0
        &&& standing.position == waited(car, line, delta, direction, ticks).position
        &&& BREAK_DISTANCE - OVERSHOOT_TOLERANCE <= distance_ahead(
            direction,
            standing.position as int,
            line as int,
        ) < BREAK_DISTANCE
    } by {
        let extra = (later - approach) as nat;
        lemma_waited_sum(car, line, delta, direction, approach, extra);
        lemma_waited_sum(car, line, delta, direction, approach, BRAKING_TICKS as nat);
        lemma_stands_still(near, line, delta, direction, extra);
        lemma_waiting_in_buffer(near, line, delta, direction, extra);
    }
    ticks
}

/// A vehicle in the buffer before a red light is, from [`BRAKING_TICKS`]
/// ticks onwards, where it was after [`BRAKING_TICKS`] ticks.
proof fn lemma_stands_still(car: Car, line: i64, delta: u64, direction: Direction, ticks: nat)
    requires
        car.wf(),
        clear_of(car, line, direction),
        distance_ahead(direction, car.position as int, line as int) < BREAK_DISTANCE,
        ticks >= BRAKING_TICKS,
    ensures
        waited(car, line, delta, direction, ticks).velocity.0 == 0,
        waited(car, line, delta, direction, ticks).position == waited(
            car,
            line,
            delta,
            direction,
            BRAKING_TICKS as nat,
        ).position,
    decreases ticks,
{
    lemma_comes_to_rest(car, line, delta, direction, ticks);
    if ticks > BRAKING_TICKS {
        lemma_stands_still(car, line, delta, direction, (ticks - 1) as nat);
        lemma_comes_to_rest(car, line, delta, direction, (ticks - 1) as nat);
    }
}

/// In a file, every vehicle lies ahead of all vehicles with a higher index,
/// by at least the gap that standing clear leaves for each place between
/// them.
pub proof fn lemma_file_is_ordered(fleet: CarFleetView, ahead: int, behind: int)
    requires
        in_file(fleet),
        0 <= ahead <= behind < fleet.cars.len(),
    ensures
        distance_ahead(
            fleet.direction,
            fleet.cars[behind].position as int,
            fleet.cars[ahead].position as int,
        ) >= (behind - ahead) * (BREAK_DISTANCE - OVERSHOOT_TOLERANCE),
    decreases behind - ahead,
{
    if ahead < behind {
        lemma_file_is_ordered(fleet, ahead, behind - 1);
        assert(clear_of(fleet.cars[behind], fleet.cars[behind - 1].position, fleet.direction));
        lemma_braking_distance_nonnegative(fleet.cars[behind].velocity.0 as int);
        assert((behind - ahead) * (BREAK_DISTANCE - OVERSHOOT_TOLERANCE) == (behind - 1 - ahead)
            * (BREAK_DISTANCE - OVERSHOOT_TOLERANCE) + (BREAK_DISTANCE - OVERSHOOT_TOLERANCE))
            by (nonlinear_arith);
    } else {
        assert((behind - ahead) * (BREAK_DISTANCE - OVERSHOOT_TOLERANCE) == 0) by (nonlinear_arith)
            requires
                behind == ahead,
        ;
    }
}

/// In a file, the nearest vehicle ahead of each vehicle but the first is the
/// one with the next lower index.
pub proof fn lemma_file_leader(fleet: CarFleetView, traffic_light: TrafficLight, index: int)
    requires
        fleet.wf(),
        in_file(fleet),
        0 < index < fleet.cars.len(),
    ensures
        fleet.context(index, traffic_light).car_infront == Some(fleet.cars[index - 1].position),
{
    let positions = fleet.positions();
    let current = fleet.cars[index].position;
    let leader = fleet.cars[index - 1].position;
    lemma_file_is_ordered(fleet, index - 1, index);
    assert(positions[index - 1] == leader);
    assert forall|other: int|
        0 <= other < positions.len() && distance_ahead(
            fleet.direction,
            current as int,
            positions[other] as int,
        ) > 0 implies distance_ahead(fleet.direction, current as int, leader as int)
        <= distance_ahead(fleet.direction, current as int, #[trigger] positions[other] as int) by {
        if other >= index {
            lemma_file_is_ordered(fleet, index, other);
            assert((other - index) * (BREAK_DISTANCE - OVERSHOOT_TOLERANCE) >= 0)
                by (nonlinear_arith)
                requires
                    other >= index,
            ;
        } else {
            lemma_file_is_ordered(fleet, other, index - 1);
            assert((index - 1 - other) * (BREAK_DISTANCE - OVERSHOOT_TOLERANCE) >= 0)
                by (nonlinear_arith)
                requires
                    other <= index - 1,
            ;
        }
    }
    assert(is_nearest_ahead(positions, current, fleet.direction, leader));
    lemma_car_infront_is_unique(positions, current, fleet.direction, Some(leader));
}

/// The vehicle at the head of a file has no vehicle ahead of it. So what it
/// sees is the stop line alone: before a red light that it has not passed
/// it is the vehicle of [`lemma_red_light_rest`].
pub proof fn lemma_file_head(fleet: CarFleetView, traffic_light: TrafficLight)
    requires
        in_file(fleet),
        fleet.cars.len() > 0,
    ensures
        fleet.context(0, traffic_light).car_infront is None,
        traffic_light.current_light.0 == Light::RedLight && distance_ahead(
            fleet.direction,
            fleet.cars[0].position as int,
            traffic_light.position as int,
        ) >= 0 ==> fleet.context(0, traffic_light) == facing_red(traffic_light.position),
{
    let positions = fleet.positions();
    let current = fleet.cars[0].position;
    assert forall|other: int| 0 <= other < positions.len() implies distance_ahead(
        fleet.direction,
        current as int,
        #[trigger] positions[other] as int,
    ) <= 0 by {
        lemma_file_is_ordered(fleet, 0, other);
        assert((other - 0) * (BREAK_DISTANCE - OVERSHOOT_TOLERANCE) >= 0) by (nonlinear_arith)
            requires
                other >= 0,
        ;
    }
    lemma_car_infront_is_unique(positions, current, fleet.direction, None);
}

/// In a tick that begins with the light at red, the coordinator moves the
/// vehicle at the head of a file that can stand clear of the line exactly
/// as [`waited`] does.
pub proof fn lemma_head_waits_at_red(fleet: CarFleetView, traffic_light: TrafficLight, delta: u64)
    requires
        in_file(fleet),
        fleet.cars.len() > 0,
        traffic_light.current_light.0 == Light::RedLight,
        clear_of(fleet.cars[0], traffic_light.position, fleet.direction),
    ensures
        fleet.stepped(traffic_light, delta).cars[0] == waited(
            fleet.cars[0],
            traffic_light.position,
            delta,
            fleet.direction,
            1,
        ),
{
    lemma_file_head(fleet, traffic_light);
    lemma_braking_distance_nonnegative(fleet.cars[0].velocity.0 as int);
    lemma_waited_shift(fleet.cars[0], traffic_light.position, delta, fleet.direction, 0);
}

/// Follower spacing. A fleet that is a file stays a file through every
/// tick, whatever the light shows: each vehicle keeps the ability to stand
/// clear of the one ahead of it.
pub proof fn lemma_follower_spacing(fleet: CarFleetView, traffic_light: TrafficLight, delta: u64)
    requires
        fleet.wf(),
        in_file(fleet),
    ensures
        in_file(fleet.stepped(traffic_light, delta)),
{
    let after = fleet.stepped(traffic_light, delta);
    assert forall|index: int| 0 < index < after.cars.len() implies clear_of(
        #[trigger] after.cars[index],
        after.cars[index - 1].position,
        after.direction,
    ) by {
        let car = fleet.cars[index];
        let leader = fleet.cars[index - 1];
        assert(car.wf());
        assert(leader.wf());
        lemma_file_leader(fleet, traffic_light, index);
        assert(clear_of(car, leader.position, fleet.direction));
        lemma_keeps_clear(
            car,
            fleet.context(index, traffic_light),
            delta,
            fleet.direction,
            leader.position,
            after.cars[index - 1].position,
        );
    }
}

/// In a file, the distance between a vehicle and the one ahead of it is
/// never less than [`BREAK_DISTANCE`] less [`OVERSHOOT_TOLERANCE`].
pub proof fn lemma_file_gap(fleet: CarFleetView, index: int)
    requires
        in_file(fleet),
        0 < index < fleet.cars.len(),
    ensures
        distance_ahead(
            fleet.direction,
            fleet.cars[index].position as int,
            fleet.cars[index - 1].position as int,
        ) >= BREAK_DISTANCE - OVERSHOOT_TOLERANCE,
{
    lemma_file_is_ordered(fleet, index - 1, index);
    assert((index - (index - 1)) * (BREAK_DISTANCE - OVERSHOOT_TOLERANCE) == BREAK_DISTANCE
        - OVERSHOOT_TOLERANCE) by (nonlinear_arith);
}

/// A fleet standing in its starting slots is a file when the slots are at
/// least [`BREAK_DISTANCE`] less [`OVERSHOOT_TOLERANCE`] apart, and every
/// vehicle can then stand clear of a stop line at the origin of the slots.
pub proof fn lemma_start_is_file(
    count: nat,
    origin: i64,
    spacing: i64,
    direction: Direction,
    reaction_time: Option<u64>,
)
    requires
        CarFleetView::initial(count, origin, spacing, direction, reaction_time).wf(),
        spacing >= BREAK_DISTANCE - OVERSHOOT_TOLERANCE,
    ensures
        in_file(CarFleetView::initial(count, origin, spacing, direction, reaction_time)),
        forall|index: int|
            0 <= index < count ==> clear_of(
                #[trigger] CarFleetView::initial(
                    count,
                    origin,
                    spacing,
                    direction,
                    reaction_time,
                ).cars[index],
                origin,
                direction,
            ),
{
    let fleet = CarFleetView::initial(count, origin, spacing, direction, reaction_time);
    assert(braking_distance(0) == 0);
    assert forall|index: int| 0 <= index < count implies clear_of(
        #[trigger] fleet.cars[index],
        origin,
        direction,
    ) by {
        let here = slot(origin, spacing, direction, index);
        assert(i64::MIN <= here <= i64::MAX);
        assert(spacing * (index + 1) >= spacing) by (nonlinear_arith)
            requires
                spacing >= 0,
                index >= 0,
        ;
    }
    assert forall|index: int| 0 < index < fleet.cars.len() implies clear_of(
        #[trigger] fleet.cars[index],
        fleet.cars[index - 1].position,
        fleet.direction,
    ) by {
        let here = slot(origin, spacing, direction, index);
        let before = slot(origin, spacing, direction, index - 1);
        assert(i64::MIN <= here <= i64::MAX);
        assert(i64::MIN <= before <= i64::MAX);
        assert(spacing * (index + 1) == spacing * (index - 1 + 1) + spacing) by (nonlinear_arith);
    }
}

/// A fleet that has just been put back into its starting slots is a file
/// when the slots are at least [`BREAK_DISTANCE`] less
/// [`OVERSHOOT_TOLERANCE`] apart.
pub proof fn lemma_restart_is_file(fleet: CarFleetView)
    requires
        fleet.wf(),
        fleet.spacing >= BREAK_DISTANCE - OVERSHOOT_TOLERANCE,
    ensures
        in_file(fleet.restarted()),
{
    let parked = fleet.restarted();
    assert(braking_distance(0) == 0);
    assert forall|index: int| 0 < index < parked.cars.len() implies clear_of(
        #[trigger] parked.cars[index],
        parked.cars[index - 1].position,
        parked.direction,
    ) by {
        let here = slot(fleet.origin, fleet.spacing, fleet.direction, index);
        let before = slot(fleet.origin, fleet.spacing, fleet.direction, index - 1);
        assert(i64::MIN <= here <= i64::MAX);
        assert(i64::MIN <= before <= i64::MAX);
        assert(fleet.spacing * (index + 1) == fleet.spacing * (index - 1 + 1) + fleet.spacing)
            by (nonlinear_arith);
    }
}

/// Follower spacing, for all ticks. A simulation whose fleet is a file and
/// whose starting slots are at least [`BREAK_DISTANCE`] less
/// [`OVERSHOOT_TOLERANCE`] apart has a fleet that is a file after every
/// tick, whatever the light shows and whatever control signals arrive. So
/// from the start on, no vehicle is ever nearer to the one ahead of it than
/// [`BREAK_DISTANCE`] less [`OVERSHOOT_TOLERANCE`].
pub proof fn lemma_simulation_stays_file(
    simulation: SimulationView,
    delta: u64,
    resets: nat,
    reaction_time_changes: Seq<ReactionTimeChanged>,
)
    requires
        simulation.wf(),
        in_file(simulation.fleet),
        simulation.fleet.spacing >= BREAK_DISTANCE - OVERSHOOT_TOLERANCE,
    ensures
        in_file(simulation.stepped(delta, resets, reaction_time_changes).fleet),
        simulation.stepped(delta, resets, reaction_time_changes).fleet.spacing
            == simulation.fleet.spacing,
{
    let moved = simulation.fleet.stepped(simulation.traffic_light, delta);
    lemma_follower_spacing(simulation.fleet, simulation.traffic_light, delta);
    lemma_step_keeps_wf(simulation, delta, 0, Seq::empty());
    assert(moved.retimed_by(Seq::empty()) == moved);
    assert(moved.wf());
    lemma_retimed_keeps_wf(moved, reaction_time_changes);
    let retimed = moved.retimed_by(reaction_time_changes);
    assert forall|index: int| 0 < index < retimed.cars.len() implies clear_of(
        #[trigger] retimed.cars[index],
        retimed.cars[index - 1].position,
        retimed.direction,
    ) by {
        assert(clear_of(moved.cars[index], moved.cars[index - 1].position, moved.direction));
        assert(retimed.cars[index].position == moved.cars[index].position);
        assert(retimed.cars[index].velocity == moved.cars[index].velocity);
        assert(retimed.cars[index - 1].position == moved.cars[index - 1].position);
    }
    if resets > 0 {
        lemma_restart_is_file(retimed);
    }
}

/// Follower spacing, from the start. In every state that a simulation
/// reaches from the one it was set up in, with starting slots at least
/// [`BREAK_DISTANCE`] less [`OVERSHOOT_TOLERANCE`] apart, each vehicle but the
/// first is at least that far behind the one ahead of it.
pub proof fn lemma_spacing_from_start(config: SimulationConfig, ticks: Seq<Tick>)
    requires
        config.wf(),
        config.spacing >= BREAK_DISTANCE - OVERSHOOT_TOLERANCE,
    ensures
        in_file(run(SimulationView::initial(config), ticks).fleet),
        forall|index: int|
            0 < index < run(SimulationView::initial(config), ticks).fleet.cars.len()
                ==> distance_ahead(
                config.direction,
                (#[trigger] run(
                    SimulationView::initial(config),
                    ticks,
                ).fleet.cars[index]).position as int,
                run(SimulationView::initial(config), ticks).fleet.cars[index - 1].position as int,
            ) >= BREAK_DISTANCE - OVERSHOOT_TOLERANCE,
{
    let start = SimulationView::initial(config);
    assert(start.wf()) by {
        assert forall|index: int| 0 <= index < start.fleet.cars.len() implies (
        #[trigger] start.fleet.cars[index]).wf() by {}
    }
    lemma_start_is_file(
        config.fleet_size as nat,
        config.traffic_light_position,
        config.spacing,
        config.direction,
        Some(config.reaction_time),
    );
    lemma_run_stays_file(start, ticks);
    let reached = run(start, ticks);
    assert forall|index: int| 0 < index < reached.fleet.cars.len() implies distance_ahead(
        config.direction,
        (#[trigger] reached.fleet.cars[index]).position as int,
        reached.fleet.cars[index - 1].position as int,
    ) >= BREAK_DISTANCE - OVERSHOOT_TOLERANCE by {
        lemma_file_gap(reached.fleet, index);
    }
}

/// A simulation whose fleet is a file, with starting slots far enough
/// apart, has a fleet that is a file after any number of ticks.
pub proof fn lemma_run_stays_file(simulation: SimulationView, ticks: Seq<Tick>)
    requires
        simulation.wf(),
        in_file(simulation.fleet),
        simulation.fleet.spacing >= BREAK_DISTANCE - OVERSHOOT_TOLERANCE,
    ensures
        in_file(run(simulation, ticks).fleet),
        run(simulation, ticks).fleet.spacing == simulation.fleet.spacing,
        run(simulation, ticks).fleet.direction == simulation.fleet.direction,
    decreases ticks.len(),
{
    if ticks.len() > 0 {
        lemma_run_stays_file(simulation, ticks.drop_last());
        lemma_velocity_bound(simulation, ticks.drop_last());
        lemma_simulation_stays_file(
            run(simulation, ticks.drop_last()),
            ticks.last().delta,
            ticks.last().resets,
            ticks.last().reaction_time_changes,
        );
        lemma_retimed_keeps_wf(
            run(simulation, ticks.drop_last()).fleet.stepped(
                run(simulation, ticks.drop_last()).traffic_light,
                ticks.last().delta,
            ),
            ticks.last().reaction_time_changes,
        );
    }
}

} // verus!

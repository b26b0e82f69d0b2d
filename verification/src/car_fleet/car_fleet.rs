//! The fleet coordinator: it lays the vehicles out behind the stop line,
//! shows each of them the lane as it was at the start of the tick, and
//! answers the requests to reset the fleet and to change its reaction time.

use vstd::prelude::*;
use crate::car_fleet::car::{
    apply_movement,
    car_infront,
    get_car_bundle,
    get_car_infront_z_position,
    Acceleration,
    BrakingContext,
    Car,
    IsBreaking,
    ReactionTimer,
    StopLine,
    Velocity,
};
use crate::lane::{distance_ahead, measure_ahead, Direction};
use crate::traffic_light::TrafficLight;
use crate::ui_components::reaction_timer_controls::ReactionTimeChanged;
use crate::ui_components::reset_simulation_button::ResetSimluation;

verus! {

/// The number of vehicles in a fleet that is not told otherwise.
pub const FLEET_SIZE: usize = 6;

/// The distance between neighbouring starting slots of a fleet that is not
/// told otherwise.
pub const SPACING: i64 = 10_000_000;

/// All vehicles of the lane, each known by its index, with the layout of
/// their starting slots.
#[derive(Debug, Clone)]
pub struct CarFleet {
    /// The vehicles; the index of a vehicle never changes.
    pub cars: Vec<Car>,
    /// The direction in which all vehicles travel.
    pub direction: Direction,
    /// The position from which the starting slots are counted back.
    pub origin: i64,
    /// The distance between neighbouring starting slots.
    pub spacing: i64,
}

/// The mathematical value of a [`CarFleet`].
pub struct CarFleetView {
    pub cars: Seq<Car>,
    pub direction: Direction,
    pub origin: i64,
    pub spacing: i64,
}

impl View for CarFleet {
    type V = CarFleetView;

    open spec fn view(&self) -> CarFleetView {
        CarFleetView {
            cars: self.cars@,
            direction: self.direction,
            origin: self.origin,
            spacing: self.spacing,
        }
    }
}

/// The starting slot of the vehicle with the given index: slot `0` lies
/// `spacing` behind `origin`, and every further slot `spacing` behind the one
/// before.
pub open spec fn slot(origin: i64, spacing: i64, direction: Direction, index: int) -> int {
    match direction {
        Direction::Increasing => origin - spacing * (index + 1),
        Direction::Decreasing => origin + spacing * (index + 1),
    }
}

/// The first `count` starting slots are positions that can be represented.
pub open spec fn slots_fit(origin: i64, spacing: i64, direction: Direction, count: nat) -> bool {
    forall|index: int|
        0 <= index < count ==> i64::MIN <= #[trigger] slot(origin, spacing, direction, index)
            <= i64::MAX
}

/// What the vehicle at `position` sees ahead of it: the nearest vehicle ahead
/// among `positions`, and the stop line with its light unless the vehicle
/// has passed it.
pub open spec fn seen_from(
    positions: Seq<i64>,
    position: i64,
    traffic_light: TrafficLight,
    direction: Direction,
) -> BrakingContext {
    BrakingContext {
        car_infront: car_infront(positions, position, direction),
        stop_line: if distance_ahead(direction, position as int, traffic_light.position as int)
            >= 0 {
            Some(
                StopLine {
                    light: traffic_light.current_light.0,
                    position: traffic_light.position,
                },
            )
        } else {
            None
        },
    }
}

/// How a request for a change of `delta` nanoseconds changes a reaction time
/// of `current` nanoseconds: the change is made unless the result would be
/// zero, negative or too large to be represented.
pub open spec fn adjusted_reaction_time(current: u64, delta: i64) -> u64 {
    if 0 < current + delta <= u64::MAX {
        (current + delta) as u64
    } else {
        current
    }
}

impl Car {
    /// The vehicle put back into the starting slot at `position`: standing
    /// still, not holding back, its reaction timer restarted.
    pub open spec fn parked(self, position: i64) -> Car {
        Car {
            position,
            velocity: Velocity(0),
            acceleration: Acceleration(0),
            reaction_timer: ReactionTimer(self.reaction_timer.0.restarted()),
            is_breaking: IsBreaking(false),
        }
    }

    /// `other` is this vehicle but for the duration of its reaction timer:
    /// position, velocity, acceleration, braking flag, and the elapsed time
    /// and finished flag of the timer are the same.
    pub open spec fn differs_in_reaction_time_only(self, other: Car) -> bool {
        other == Car {
            reaction_timer: ReactionTimer(
                self.reaction_timer.0.with_duration(other.reaction_timer.0.duration),
            ),
            ..self
        }
    }

    /// The vehicle after a request to change its reaction time by `delta`:
    /// the duration of its reaction timer is adjusted, and nothing else.
    pub open spec fn retimed(self, delta: i64) -> Car {
        Car {
            reaction_timer: ReactionTimer(
                self.reaction_timer.0.with_duration(
                    adjusted_reaction_time(self.reaction_timer.0.duration, delta),
                ),
            ),
            ..self
        }
    }
}

impl CarFleetView {
    /// Every vehicle is well formed and every starting slot can be
    /// represented.
    pub open spec fn wf(self) -> bool {
        &&& forall|index: int| 0 <= index < self.cars.len() ==> (#[trigger] self.cars[index]).wf()
        &&& slots_fit(self.origin, self.spacing, self.direction, self.cars.len())
    }

    /// The positions of all vehicles, by index.
    pub open spec fn positions(self) -> Seq<i64> {
        Seq::new(self.cars.len(), |index: int| self.cars[index].position)
    }

    /// What the vehicle with the given index sees ahead of it.
    pub open spec fn context(self, index: int, traffic_light: TrafficLight) -> BrakingContext {
        seen_from(self.positions(), self.cars[index].position, traffic_light, self.direction)
    }

    /// The fleet as it is set up: `count` vehicles in their starting slots.
    pub open spec fn initial(
        count: nat,
        origin: i64,
        spacing: i64,
        direction: Direction,
        reaction_time: Option<u64>,
    ) -> CarFleetView {
        CarFleetView {
            cars: Seq::new(
                count,
                |index: int|
                    Car::created(
                        slot(origin, spacing, direction, index) as i64,
                        None,
                        None,
                        reaction_time,
                    ),
            ),
            direction,
            origin,
            spacing,
        }
    }

    /// The fleet one tick of `delta` nanoseconds later. Every vehicle moves
    /// by what it saw at the start of the tick, so the order in which the
    /// vehicles are taken makes no difference.
    pub open spec fn stepped(self, traffic_light: TrafficLight, delta: u64) -> CarFleetView {
        CarFleetView {
            cars: Seq::new(
                self.cars.len(),
                |index: int|
                    self.cars[index].moved(
                        self.context(index, traffic_light),
                        delta,
                        self.direction,
                    ),
            ),
            ..self
        }
    }

    /// The fleet with every vehicle back in its starting slot.
    pub open spec fn restarted(self) -> CarFleetView {
        CarFleetView {
            cars: Seq::new(
                self.cars.len(),
                |index: int|
                    self.cars[index].parked(
                        slot(self.origin, self.spacing, self.direction, index) as i64,
                    ),
            ),
            ..self
        }
    }

    /// The fleet after one request to change the reaction time by `delta`.
    pub open spec fn retimed(self, delta: i64) -> CarFleetView {
        CarFleetView {
            cars: Seq::new(self.cars.len(), |index: int| self.cars[index].retimed(delta)),
            ..self
        }
    }

    /// The fleet after every request in `changes`, in order.
    pub open spec fn retimed_by(self, changes: Seq<ReactionTimeChanged>) -> CarFleetView
        decreases changes.len(),
    {
        if changes.len() == 0 {
            self
        } else {
            self.retimed_by(changes.drop_last()).retimed(changes.last().delta)
        }
    }
}

/// Computes the starting slot of the vehicle with the given index.
pub fn slot_position(origin: i64, spacing: i64, direction: Direction, index: usize) -> (position:
    i64)
    requires
        i64::MIN <= slot(origin, spacing, direction, index as int) <= i64::MAX,
    ensures
        position == slot(origin, spacing, direction, index as int),
{
    let behind: i128 = (spacing as i128) * ((index as i128) + 1);
    match direction {
        Direction::Increasing => ((origin as i128) - behind) as i64,
        Direction::Decreasing => ((origin as i128) + behind) as i64,
    }
}

/// The starting slots lie in index order between the origin and the last
/// of them, so all of them can be represented when the last one can.
pub proof fn lemma_last_slot_decides(origin: i64, spacing: i64, direction: Direction, count: nat)
    requires
        count > 0,
    ensures
        slots_fit(origin, spacing, direction, count) <==> i64::MIN <= slot(
            origin,
            spacing,
            direction,
            count - 1,
        ) <= i64::MAX,
{
    if i64::MIN <= slot(origin, spacing, direction, count - 1) <= i64::MAX {
        assert forall|index: int| 0 <= index < count implies i64::MIN <= #[trigger] slot(
            origin,
            spacing,
            direction,
            index,
        ) <= i64::MAX by {
            assert(spacing >= 0 ==> 0 <= spacing * (index + 1) <= spacing * count)
                by (nonlinear_arith)
                requires
                    0 <= index < count,
            ;
            assert(spacing <= 0 ==> spacing * count <= spacing * (index + 1) <= 0)
                by (nonlinear_arith)
                requires
                    0 <= index < count,
            ;
        }
    } else {
        assert(!(i64::MIN <= slot(origin, spacing, direction, count - 1) <= i64::MAX));
    }
}

/// Tells whether the first `count` starting slots can all be represented.
pub fn slots_are_in_range(count: usize, origin: i64, spacing: i64, direction: Direction) -> (fit:
    bool)
    ensures
        fit == slots_fit(origin, spacing, direction, count as nat),
{
    if count == 0 {
        return true;
    }
    proof {
        lemma_last_slot_decides(origin, spacing, direction, count as nat);
    }
    let wide_spacing: i128 = spacing as i128;
    let wide_count: i128 = count as i128;
    assert(-0x7fff_ffff_ffff_ffff_ffff_ffff_ffff_ffff <= wide_spacing * wide_count
        <= 0x7fff_ffff_ffff_ffff_ffff_ffff_ffff_ffff) by (nonlinear_arith)
        requires
            -0x8000_0000_0000_0000 <= wide_spacing <= 0x7fff_ffff_ffff_ffff,
            0 <= wide_count <= 0xffff_ffff_ffff_ffff,
    ;
    let behind: i128 = wide_spacing * wide_count;
    if behind < -0x2_0000_0000_0000_0000 || behind > 0x2_0000_0000_0000_0000 {
        return false;
    }
    let last: i128 = match direction {
        Direction::Increasing => (origin as i128) - behind,
        Direction::Decreasing => (origin as i128) + behind,
    };
    assert(last == slot(origin, spacing, direction, count - 1));
    i64::MIN as i128 <= last && last <= i64::MAX as i128
}

/// Sets up a fleet of `count` vehicles in their starting slots, standing
/// still, each with the given reaction time.
pub fn setup(
    count: usize,
    origin: i64,
    spacing: i64,
    direction: Direction,
    reaction_time_in_nanoseconds: Option<u64>,
) -> (fleet: CarFleet)
    requires
        slots_fit(origin, spacing, direction, count as nat),
    ensures
        fleet@ == CarFleetView::initial(
            count as nat,
            origin,
            spacing,
            direction,
            reaction_time_in_nanoseconds,
        ),
        fleet@.wf(),
{
    let mut cars: Vec<Car> = Vec::new();
    let mut index: usize = 0;
    while index < count
        invariant
            index <= count,
            slots_fit(origin, spacing, direction, count as nat),
            cars@.len() == index,
            forall|i: int|
                0 <= i < index ==> #[trigger] cars@[i] == Car::created(
                    slot(origin, spacing, direction, i) as i64,
                    None,
                    None,
                    reaction_time_in_nanoseconds,
                ),
            forall|i: int| 0 <= i < index ==> (#[trigger] cars@[i]).wf(),
        decreases count - index,
    {
        assert(i64::MIN <= slot(origin, spacing, direction, index as int) <= i64::MAX);
        let position: i64 = slot_position(origin, spacing, direction, index);
        cars.push(get_car_bundle(position, None, None, reaction_time_in_nanoseconds));
        index = index + 1;
    }
    let fleet = CarFleet { cars, direction, origin, spacing };
    proof {
        assert(fleet@.cars =~= CarFleetView::initial(
            count as nat,
            origin,
            spacing,
            direction,
            reaction_time_in_nanoseconds,
        ).cars);
    }
    fleet
}

/// Tells whether the fleet is well formed.
pub fn is_well_formed(fleet: &CarFleet) -> (valid: bool)
    ensures
        valid == fleet@.wf(),
{
    if !slots_are_in_range(fleet.cars.len(), fleet.origin, fleet.spacing, fleet.direction) {
        return false;
    }
    let mut index: usize = 0;
    while index < fleet.cars.len()
        invariant
            index <= fleet.cars.len(),
            forall|i: int| 0 <= i < index ==> (#[trigger] fleet.cars@[i]).wf(),
        decreases fleet.cars.len() - index,
    {
        if !fleet.cars[index].is_well_formed() {
            return false;
        }
        index = index + 1;
    }
    true
}

/// Takes the snapshot of the positions of all vehicles.
pub fn positions(fleet: &CarFleet) -> (cars_z_positions: Vec<i64>)
    ensures
        cars_z_positions@ == fleet@.positions(),
{
    let mut cars_z_positions: Vec<i64> = Vec::new();
    let mut index: usize = 0;
    while index < fleet.cars.len()
        invariant
            index <= fleet.cars.len(),
            cars_z_positions@.len() == index,
            forall|i: int| 0 <= i < index ==> #[trigger] cars_z_positions@[i] == fleet.cars@[i].position,
        decreases fleet.cars.len() - index,
    {
        cars_z_positions.push(fleet.cars[index].position);
        index = index + 1;
    }
    proof {
        assert(cars_z_positions@ =~= fleet@.positions());
    }
    cars_z_positions
}

/// Builds what the vehicle at `position` sees ahead of it from the snapshot
/// of all positions and the signal.
pub fn braking_context(
    cars_z_positions: &Vec<i64>,
    position: i64,
    traffic_light: &TrafficLight,
    direction: Direction,
) -> (context: BrakingContext)
    ensures
        context == seen_from(cars_z_positions@, position, *traffic_light, direction),
{
    let car_infront: Option<i64> = get_car_infront_z_position(cars_z_positions, position, direction);
    let before_traffic_light: bool = measure_ahead(direction, position, traffic_light.position)
        >= 0;
    BrakingContext {
        car_infront,
        stop_line: if before_traffic_light {
            Some(
                StopLine {
                    light: traffic_light.current_light.0,
                    position: traffic_light.position,
                },
            )
        } else {
            None
        },
    }
}

/// Moves every vehicle through one tick of `delta` nanoseconds. Each sees
/// the positions of the others and the light as they were when the tick
/// began.
pub fn update(fleet: &mut CarFleet, traffic_light: &TrafficLight, delta: u64)
    requires
        old(fleet)@.wf(),
    ensures
        final(fleet)@ == old(fleet)@.stepped(*traffic_light, delta),
        final(fleet)@.wf(),
        final(fleet)@.cars.len() == old(fleet)@.cars.len(),
{
    let cars_z_positions: Vec<i64> = positions(fleet);
    let mut index: usize = 0;
    while index < fleet.cars.len()
        invariant
            index <= fleet.cars.len(),
            fleet.cars@.len() == old(fleet).cars@.len(),
            fleet.direction == old(fleet).direction,
            fleet.origin == old(fleet).origin,
            fleet.spacing == old(fleet).spacing,
            old(fleet)@.wf(),
            cars_z_positions@ == old(fleet)@.positions(),
            forall|i: int|
                0 <= i < index ==> #[trigger] fleet.cars@[i] == old(fleet).cars@[i].moved(
                    old(fleet)@.context(i, *traffic_light),
                    delta,
                    old(fleet).direction,
                ),
            forall|i: int| 0 <= i < index ==> (#[trigger] fleet.cars@[i]).wf(),
            forall|i: int| index <= i < fleet.cars@.len() ==> fleet.cars@[i] == old(fleet).cars@[i],
        decreases fleet.cars.len() - index,
    {
        let mut car: Car = fleet.cars[index];
        let context: BrakingContext = braking_context(
            &cars_z_positions,
            car.position,
            traffic_light,
            fleet.direction,
        );
        assert(car.wf());
        apply_movement(&mut car, &context, delta, fleet.direction);
        fleet.cars.set(index, car);
        index = index + 1;
    }
    proof {
        assert(fleet@.cars =~= old(fleet)@.stepped(*traffic_light, delta).cars);
    }
}

/// Answers a request to reset the simulation: every vehicle goes back to
/// its starting slot, stands still, stops holding back and restarts its
/// reaction timer. Further requests in the same tick change nothing more.
pub fn reset_simulation_listener(
    reset_simulation_event: &Vec<ResetSimluation>,
    fleet: &mut CarFleet,
)
    requires
        old(fleet)@.wf(),
    ensures
        final(fleet)@ == if reset_simulation_event@.len() > 0 {
            old(fleet)@.restarted()
        } else {
            old(fleet)@
        },
        final(fleet)@.wf(),
        final(fleet)@.cars.len() == old(fleet)@.cars.len(),
{
    if reset_simulation_event.len() == 0 {
        return ;
    }
    let mut index: usize = 0;
    while index < fleet.cars.len()
        invariant
            index <= fleet.cars.len(),
            fleet.cars@.len() == old(fleet).cars@.len(),
            fleet.direction == old(fleet).direction,
            fleet.origin == old(fleet).origin,
            fleet.spacing == old(fleet).spacing,
            old(fleet)@.wf(),
            forall|i: int|
                0 <= i < index ==> #[trigger] fleet.cars@[i] == old(fleet).cars@[i].parked(
                    slot(old(fleet).origin, old(fleet).spacing, old(fleet).direction, i) as i64,
                ),
            forall|i: int| index <= i < fleet.cars@.len() ==> fleet.cars@[i] == old(fleet).cars@[i],
        decreases fleet.cars.len() - index,
    {
        assert(i64::MIN <= slot(fleet.origin, fleet.spacing, fleet.direction, index as int)
            <= i64::MAX);
        let mut car: Car = fleet.cars[index];
        car.position = slot_position(fleet.origin, fleet.spacing, fleet.direction, index);
        car.velocity = Velocity(0);
        car.acceleration = Acceleration(0);
        car.reaction_timer.0.reset();
        car.is_breaking = IsBreaking(false);
        fleet.cars.set(index, car);
        index = index + 1;
    }
    proof {
        assert(fleet@.cars =~= old(fleet)@.restarted().cars);
    }
}

/// Computes [`adjusted_reaction_time`].
pub fn adjust_reaction_time(current: u64, delta: i64) -> (adjusted: u64)
    ensures
        adjusted == adjusted_reaction_time(current, delta),
        current > 0 ==> adjusted > 0,
{
    let new_reaction_time: i128 = (current as i128) + (delta as i128);
    if new_reaction_time > 0 && new_reaction_time <= u64::MAX as i128 {
        new_reaction_time as u64
    } else {
        current
    }
}

/// Answers the requests to change the reaction time, in order: each one
/// changes the reaction time of every vehicle by the same amount, and is
/// passed over for a vehicle whose reaction time it would bring to zero or
/// below. Only the durations of the reaction timers change: where every
/// vehicle is, how fast it moves, whether it holds back, and how much of its
/// reaction time has elapsed stay as they are.
pub fn reaction_time_changes_listener(
    reaction_time_changed_event: &Vec<ReactionTimeChanged>,
    fleet: &mut CarFleet,
)
    requires
        old(fleet)@.wf(),
    ensures
        final(fleet)@ == old(fleet)@.retimed_by(reaction_time_changed_event@),
        final(fleet)@.wf(),
        final(fleet)@.cars.len() == old(fleet)@.cars.len(),
        forall|index: int|
            0 <= index < old(fleet)@.cars.len() ==> (#[trigger] old(fleet)@.cars[index]).differs_in_reaction_time_only(final(fleet)@.cars[index]),
        forall|index: int|
            0 <= index < old(fleet)@.cars.len() ==> (#[trigger] final(fleet)@.cars[index]).reaction_timer.0.elapsed == old(fleet)@.cars[index].reaction_timer.0.elapsed,
        reaction_time_changed_event@.len() == 0 ==> final(fleet)@ == old(fleet)@,
{
    let mut event: usize = 0;
    while event < reaction_time_changed_event.len()
        invariant
            event <= reaction_time_changed_event.len(),
            fleet@ == old(fleet)@.retimed_by(reaction_time_changed_event@.subrange(0, event as int)),
            fleet@.wf(),
            fleet@.cars.len() == old(fleet)@.cars.len(),
            forall|index: int|
                0 <= index < old(fleet)@.cars.len() ==> (#[trigger] old(fleet)@.cars[index]).differs_in_reaction_time_only(fleet@.cars[index]),
        decreases reaction_time_changed_event.len() - event,
    {
        let delta: i64 = reaction_time_changed_event[event].delta;
        let ghost before = fleet@;
        let mut index: usize = 0;
        while index < fleet.cars.len()
            invariant
                index <= fleet.cars.len(),
                fleet.cars@.len() == before.cars.len(),
                fleet.direction == before.direction,
                fleet.origin == before.origin,
                fleet.spacing == before.spacing,
                before.wf(),
                forall|i: int| 0 <= i < index ==> #[trigger] fleet.cars@[i] == before.cars[i].retimed(delta),
                forall|i: int| index <= i < fleet.cars@.len() ==> fleet.cars@[i] == before.cars[i],
            decreases fleet.cars.len() - index,
        {
            let mut car: Car = fleet.cars[index];
            let current_reaction_time: u64 = car.reaction_timer.0.duration();
            car.reaction_timer.0.set_duration(adjust_reaction_time(current_reaction_time, delta));
            fleet.cars.set(index, car);
            index = index + 1;
        }
        event = event + 1;
        proof {
            assert(fleet@.cars =~= before.retimed(delta).cars);
            let upto = reaction_time_changed_event@.subrange(0, event as int);
            assert(upto.drop_last() =~= reaction_time_changed_event@.subrange(0, event - 1));
            assert(upto.last().delta == delta);
            assert(fleet@ == before.retimed(delta));
        }
    }
    proof {
        assert(reaction_time_changed_event@.subrange(0, event as int)
            =~= reaction_time_changed_event@);
    }
}

} // verus!

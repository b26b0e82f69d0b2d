//! The whole simulation: the signal and the fleet, advanced together on the
//! same tick, and the control signals that reach them.

use vstd::prelude::*;
use crate::car_fleet::car::REACTION_TIME;
use crate::car_fleet::car_fleet::{
    slots_are_in_range,
    slots_fit,
    CarFleet,
    CarFleetView,
    FLEET_SIZE,
    SPACING,
};
use crate::lane::Direction;
use crate::traffic_light::{
    red_again,
    Light,
    LightChange,
    TrafficLight,
    GO_DURATION,
    STOP_DURATION,
    YELLOW_DURATION,
};
use crate::ui_components::reaction_timer_controls::ReactionTimeChanged;
use crate::ui_components::reset_simulation_button::ResetSimluation;

verus! {

/// What a simulation is set up from.
#[derive(Debug, Clone, Copy, PartialEq, Eq, Structural)]
pub struct SimulationConfig {
    /// The position of the stop line on the lane axis.
    pub traffic_light_position: i64,
    /// How long the signal stays red, in nanoseconds.
    pub stop_duration: u64,
    /// How long the signal stays green, in nanoseconds.
    pub go_duration: u64,
    /// How long the signal stays yellow, in nanoseconds.
    pub yellow_duration: u64,
    /// The number of vehicles.
    pub fleet_size: usize,
    /// The distance between neighbouring starting slots; the first slot lies
    /// this far behind the stop line.
    pub spacing: i64,
    /// The direction in which the vehicles travel.
    pub direction: Direction,
    /// The reaction time of every vehicle, in nanoseconds.
    pub reaction_time: u64,
}

/// Why a simulation cannot be set up from a configuration.
#[derive(Debug, Clone, Copy, PartialEq, Eq, Structural)]
pub enum ConfigError {
    /// The fleet would have no vehicle.
    EmptyFleet,
    /// A starting slot lies beyond the positions that can be represented.
    SlotOutOfRange,
}

impl SimulationConfig {
    /// There is at least one vehicle, and every starting slot can be
    /// represented.
    pub open spec fn wf(self) -> bool {
        &&& self.fleet_size > 0
        &&& slots_fit(
            self.traffic_light_position,
            self.spacing,
            self.direction,
            self.fleet_size as nat,
        )
    }

    /// The configuration used when none is given: six vehicles ten units
    /// apart, travelling towards larger positions to a stop line at zero.
    pub open spec fn standard() -> SimulationConfig {
        SimulationConfig {
            traffic_light_position: 0,
            stop_duration: STOP_DURATION,
            go_duration: GO_DURATION,
            yellow_duration: YELLOW_DURATION,
            fleet_size: FLEET_SIZE,
            spacing: SPACING,
            direction: Direction::Increasing,
            reaction_time: REACTION_TIME,
        }
    }
}

impl Default for SimulationConfig {
    fn default() -> (config: SimulationConfig)
        ensures
            config == SimulationConfig::standard(),
            config.wf(),
    {
        let config = SimulationConfig {
            traffic_light_position: 0,
            stop_duration: STOP_DURATION,
            go_duration: GO_DURATION,
            yellow_duration: YELLOW_DURATION,
            fleet_size: FLEET_SIZE,
            spacing: SPACING,
            direction: Direction::Increasing,
            reaction_time: REACTION_TIME,
        };
        proof {
            assert forall|index: int| 0 <= index < 6 implies i64::MIN <= #[trigger] crate::car_fleet::car_fleet::slot(
                0,
                SPACING,
                Direction::Increasing,
                index,
            ) <= i64::MAX by {
                assert(0 <= SPACING * (index + 1) <= 70_000_000) by (nonlinear_arith)
                    requires
                        0 <= index < 6,
                        SPACING == 10_000_000,
                ;
            }
        }
        config
    }
}

/// What the presentation may know of one vehicle.
#[derive(Debug, Clone, Copy, PartialEq, Eq, Structural)]
pub struct CarSnapshot {
    /// Where the vehicle is on the lane axis.
    pub position: i64,
    /// How fast it moves, in length steps per tick.
    pub velocity: i64,
    /// Whether it is holding back for an obstacle.
    pub is_breaking: bool,
}

/// The signal and the fleet of one lane.
#[derive(Debug, Clone)]
pub struct Simulation {
    pub traffic_light: TrafficLight,
    pub fleet: CarFleet,
}

/// The mathematical value of a [`Simulation`].
pub struct SimulationView {
    pub traffic_light: TrafficLight,
    pub fleet: CarFleetView,
}

impl View for Simulation {
    type V = SimulationView;

    open spec fn view(&self) -> SimulationView {
        SimulationView { traffic_light: self.traffic_light, fleet: self.fleet@ }
    }
}

impl SimulationView {
    /// The fleet is well formed and has at least one vehicle.
    pub open spec fn wf(self) -> bool {
        self.fleet.wf() && self.fleet.cars.len() > 0
    }

    /// The simulation as it is set up from `config`: the signal red, the
    /// vehicles standing in their starting slots.
    pub open spec fn initial(config: SimulationConfig) -> SimulationView {
        SimulationView {
            traffic_light: TrafficLight::initial(
                config.traffic_light_position,
                config.stop_duration,
                config.go_duration,
                config.yellow_duration,
            ),
            fleet: CarFleetView::initial(
                config.fleet_size as nat,
                config.traffic_light_position,
                config.spacing,
                config.direction,
                Some(config.reaction_time),
            ),
        }
    }

    /// What the presentation may know of the vehicles, by index.
    pub open spec fn snapshot(self) -> Seq<CarSnapshot> {
        Seq::new(
            self.fleet.cars.len(),
            |index: int|
                CarSnapshot {
                    position: self.fleet.cars[index].position,
                    velocity: self.fleet.cars[index].velocity.0,
                    is_breaking: self.fleet.cars[index].is_breaking.0,
                },
        )
    }

    /// The changes of light announced during one tick: the one that ends the
    /// current phase, if it ends, and then red once for every request to
    /// reset.
    pub open spec fn announced(self, delta: u64, resets: nat) -> Seq<LightChange> {
        let ended = match self.traffic_light.announced(delta) {
            Some(change) => seq![change],
            None => Seq::empty(),
        };
        ended + red_again(resets)
    }

    /// The simulation one tick of `delta` nanoseconds later. The vehicles
    /// move by the light shown when the tick began; the signal advances; then
    /// the requests to change the reaction time and to reset are answered.
    pub open spec fn stepped(
        self,
        delta: u64,
        resets: nat,
        reaction_time_changes: Seq<ReactionTimeChanged>,
    ) -> SimulationView {
        let moved = self.fleet.stepped(self.traffic_light, delta).retimed_by(reaction_time_changes);
        SimulationView {
            traffic_light: self.traffic_light.timed(delta).applied(self.announced(delta, resets)),
            fleet: if resets > 0 {
                moved.restarted()
            } else {
                moved
            },
        }
    }
}

impl Simulation {
    /// Sets the simulation up from `config`. The signal starts red, which is
    /// announced. A configuration without a vehicle is refused, and so is
    /// one with a starting slot that cannot be represented.
    pub fn init(config: &SimulationConfig) -> (created: Result<
        (Simulation, LightChange),
        ConfigError,
    >)
        ensures
            match created {
                Ok((simulation, announced)) => {
                    &&& config.wf()
                    &&& simulation@ == SimulationView::initial(*config)
                    &&& simulation@.wf()
                    &&& announced.light == Light::RedLight
                },
                Err(ConfigError::EmptyFleet) => config.fleet_size == 0,
                Err(ConfigError::SlotOutOfRange) => config.fleet_size > 0 && !config.wf(),
            },
    {
        if config.fleet_size == 0 {
            return Err(ConfigError::EmptyFleet);
        }
        if !slots_are_in_range(
            config.fleet_size,
            config.traffic_light_position,
            config.spacing,
            config.direction,
        ) {
            return Err(ConfigError::SlotOutOfRange);
        }
        let (traffic_light, red) = crate::traffic_light::setup(
            config.traffic_light_position,
            config.stop_duration,
            config.go_duration,
            config.yellow_duration,
        );
        let fleet = crate::car_fleet::car_fleet::setup(
            config.fleet_size,
            config.traffic_light_position,
            config.spacing,
            config.direction,
            Some(config.reaction_time),
        );
        Ok((Simulation { traffic_light, fleet }, red))
    }

    /// The light that the signal shows.
    pub fn current_light(&self) -> (light: Light)
        ensures
            light == self@.traffic_light.current_light.0,
    {
        self.traffic_light.current_light.0
    }

    /// The position, the velocity and the braking flag of every vehicle, by
    /// index.
    pub fn snapshot(&self) -> (cars: Vec<CarSnapshot>)
        ensures
            cars@ == self@.snapshot(),
    {
        let mut cars: Vec<CarSnapshot> = Vec::new();
        let mut index: usize = 0;
        while index < self.fleet.cars.len()
            invariant
                index <= self.fleet.cars.len(),
                cars@.len() == index,
                forall|i: int| 0 <= i < index ==> #[trigger] cars@[i] == self@.snapshot()[i],
            decreases self.fleet.cars.len() - index,
        {
            let car = self.fleet.cars[index];
            cars.push(
                CarSnapshot {
                    position: car.position,
                    velocity: car.velocity.0,
                    is_breaking: car.is_breaking.0,
                },
            );
            index = index + 1;
        }
        proof {
            assert(cars@ =~= self@.snapshot());
        }
        cars
    }

    /// Tells whether the simulation is well formed. Every simulation that
    /// [`Simulation::init`] has made and [`Simulation::update`] has advanced
    /// is.
    pub fn is_well_formed(&self) -> (valid: bool)
        ensures
            valid == self@.wf(),
    {
        crate::car_fleet::car_fleet::is_well_formed(&self.fleet) && self.fleet.cars.len() > 0
    }

    /// Advances the simulation by one tick of `delta` nanoseconds and
    /// answers the control signals raised since the last tick. Returns the
    /// changes of light announced during the tick, in order.
    pub fn update(
        &mut self,
        delta: u64,
        reset_simulation_event: &Vec<ResetSimluation>,
        reaction_time_changed_event: &Vec<ReactionTimeChanged>,
    ) -> (light_changes: Vec<LightChange>)
        requires
            old(self)@.wf(),
        ensures
            final(self)@ == old(self)@.stepped(
                delta,
                reset_simulation_event@.len(),
                reaction_time_changed_event@,
            ),
            light_changes@ == old(self)@.announced(delta, reset_simulation_event@.len()),
            final(self)@.wf(),
    {
        crate::car_fleet::car_fleet::update(&mut self.fleet, &self.traffic_light, delta);
        let mut light_changes: Vec<LightChange> = Vec::new();
        match crate::traffic_light::update_event_emitter(&mut self.traffic_light, delta) {
            Some(change) => {
                light_changes.push(change);
            },
            None => {},
        }
        crate::car_fleet::car_fleet::reaction_time_changes_listener(
            reaction_time_changed_event,
            &mut self.fleet,
        );
        crate::car_fleet::car_fleet::reset_simulation_listener(
            reset_simulation_event,
            &mut self.fleet,
        );
        let mut red: Vec<LightChange> = crate::traffic_light::reset_simulation_listener(
            reset_simulation_event,
        );
        light_changes.append(&mut red);
        proof {
            assert(light_changes@ =~= old(self)@.announced(delta, reset_simulation_event@.len()));
        }
        crate::traffic_light::update(&mut self.traffic_light, &light_changes);
        light_changes
    }
}

} // verus!

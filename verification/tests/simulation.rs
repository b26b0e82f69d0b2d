use traffic_sim::car_fleet::car::REACTION_TIME;
use traffic_sim::lane::Direction;
use traffic_sim::simulation::{CarSnapshot, ConfigError, Simulation, SimulationConfig};
use traffic_sim::traffic_light::{Light, LightChange};
use traffic_sim::ui_components::reaction_timer_controls::ReactionTimeChanged;
use traffic_sim::ui_components::reset_simulation_button::ResetSimluation;

const STEP: u64 = 15_625_000;

fn start(config: &SimulationConfig) -> Simulation {
    match Simulation::init(config) {
        Ok((simulation, announced)) => {
            assert_eq!(announced, LightChange { light: Light::RedLight });
            simulation
        }
        Err(error) => panic!("{:?}", error),
    }
}

#[test]
fn standard_configuration() {
    let config = SimulationConfig::default();
    assert_eq!(
        config,
        SimulationConfig {
            traffic_light_position: 0,
            stop_duration: 10_000_000_000,
            go_duration: 10_000_000_000,
            yellow_duration: 1_000_000_000,
            fleet_size: 6,
            spacing: 10_000_000,
            direction: Direction::Increasing,
            reaction_time: 400_000_000,
        }
    );
    let simulation = start(&config);
    assert_eq!(simulation.fleet.cars.len(), 6);
    assert_eq!(simulation.traffic_light.current_light.0, Light::RedLight);
}

#[test]
fn empty_fleet_is_refused() {
    let config = SimulationConfig { fleet_size: 0, ..SimulationConfig::default() };
    assert_eq!(Simulation::init(&config).err(), Some(ConfigError::EmptyFleet));
}

#[test]
fn slot_out_of_range_is_refused() {
    let config = SimulationConfig {
        traffic_light_position: i64::MIN + 50_000_000,
        ..SimulationConfig::default()
    };
    assert_eq!(Simulation::init(&config).err(), Some(ConfigError::SlotOutOfRange));
    let fits = SimulationConfig {
        traffic_light_position: i64::MIN + 60_000_000,
        ..SimulationConfig::default()
    };
    assert!(Simulation::init(&fits).is_ok());
}

#[test]
fn tick_without_events_announces_nothing_until_the_phase_ends() {
    let mut simulation = start(&SimulationConfig::default());
    // ten seconds of red are 640 ticks of 1/64 s
    for _ in 0..639 {
        assert!(simulation.update(STEP, &Vec::new(), &Vec::new()).is_empty());
        assert_eq!(simulation.traffic_light.current_light.0, Light::RedLight);
    }
    assert_eq!(
        simulation.update(STEP, &Vec::new(), &Vec::new()),
        vec![LightChange { light: Light::GreenLight }]
    );
    assert_eq!(simulation.traffic_light.current_light.0, Light::GreenLight);
    assert_eq!(simulation.traffic_light.timers.stop.elapsed, 0);
}

#[test]
fn cars_see_the_light_from_the_start_of_the_tick() {
    let config = SimulationConfig {
        stop_duration: STEP,
        fleet_size: 1,
        spacing: 6_000_000,
        reaction_time: 1,
        ..SimulationConfig::default()
    };
    let mut simulation = start(&config);
    simulation.fleet.cars[0].position = -5_000_000;
    // the light turns green in this tick, but the car inside the buffer still
    // saw red when the tick began
    let changes = simulation.update(STEP, &Vec::new(), &Vec::new());
    assert_eq!(changes, vec![LightChange { light: Light::GreenLight }]);
    assert!(simulation.fleet.cars[0].is_breaking.0);
    assert_eq!(simulation.fleet.cars[0].velocity.0, 0);
    simulation.update(STEP, &Vec::new(), &Vec::new());
    assert!(!simulation.fleet.cars[0].is_breaking.0);
    assert_eq!(simulation.fleet.cars[0].velocity.0, 3_000);
}

#[test]
fn reset_request_is_announced_as_red_after_the_change_of_the_tick() {
    let config = SimulationConfig { stop_duration: STEP, ..SimulationConfig::default() };
    let mut simulation = start(&config);
    let changes = simulation.update(STEP, &vec![ResetSimluation, ResetSimluation], &Vec::new());
    assert_eq!(
        changes,
        vec![
            LightChange { light: Light::GreenLight },
            LightChange { light: Light::RedLight },
            LightChange { light: Light::RedLight },
        ]
    );
    assert_eq!(simulation.traffic_light.current_light.0, Light::RedLight);
}

#[test]
fn reaction_time_requests_are_answered_in_the_tick() {
    let mut simulation = start(&SimulationConfig::default());
    simulation.update(
        STEP,
        &Vec::new(),
        &vec![
            ReactionTimeChanged { delta: 100_000_000 },
            ReactionTimeChanged { delta: 100_000_000 },
        ],
    );
    for car in simulation.fleet.cars.iter() {
        assert_eq!(car.reaction_timer.0.duration, REACTION_TIME + 200_000_000);
        assert_eq!(car.reaction_timer.0.elapsed, STEP);
    }
}

#[test]
fn reaction_time_never_falls_to_zero() {
    let mut simulation = start(&SimulationConfig::default());
    let less = vec![ReactionTimeChanged { delta: -100_000_000 }];
    for _ in 0..10 {
        simulation.update(STEP, &Vec::new(), &less);
        for car in simulation.fleet.cars.iter() {
            assert!(car.reaction_timer.0.duration > 0);
        }
    }
    assert_eq!(simulation.fleet.cars[0].reaction_timer.0.duration, 100_000_000);
}

#[test]
fn snapshot_shows_position_velocity_and_braking_flag() {
    let config = SimulationConfig { fleet_size: 2, reaction_time: 1, ..SimulationConfig::default() };
    let mut simulation = start(&config);
    assert_eq!(simulation.current_light(), Light::RedLight);
    assert_eq!(
        simulation.snapshot(),
        vec![
            CarSnapshot { position: -10_000_000, velocity: 0, is_breaking: false },
            CarSnapshot { position: -20_000_000, velocity: 0, is_breaking: false },
        ]
    );
    simulation.update(STEP, &Vec::new(), &Vec::new());
    assert_eq!(
        simulation.snapshot(),
        vec![
            CarSnapshot { position: -9_997_000, velocity: 3_000, is_breaking: false },
            CarSnapshot { position: -19_997_000, velocity: 3_000, is_breaking: false },
        ]
    );
    assert!(simulation.is_well_formed());
}

#[test]
fn simulation_changed_from_outside_is_not_well_formed() {
    let mut simulation = start(&SimulationConfig::default());
    simulation.fleet.cars[3].velocity.0 = 100_001;
    assert!(!simulation.is_well_formed());
    simulation.fleet.cars[3].velocity.0 = 100_000;
    assert!(simulation.is_well_formed());
    simulation.fleet.cars[3].is_breaking.0 = true;
    assert!(!simulation.is_well_formed());
    simulation.fleet.cars[3].acceleration.0 = -10_000;
    assert!(simulation.is_well_formed());
    simulation.fleet.cars.clear();
    assert!(!simulation.is_well_formed());
}

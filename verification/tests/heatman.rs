use auto_heater::config::{Config, State};
use auto_heater::heater::ActuatorError;
use auto_heater::heatman::{
    check_heater, record_outcome, Call, Outcome, Phase, Reply, Tick, TickError,
    ECHO_TIMEOUT_SECONDS, TICK_SECONDS,
};
use auto_heater::metrics::GatewayError;
use auto_heater::pc::{LockStatus, ProbeError};
use auto_heater::reading::{Reading, Temperature};

#[derive(Clone, Copy)]
struct Surroundings {
    readings: Result<Reading, GatewayError>,
    powered_on: Result<bool, ProbeError>,
    lock_status: LockStatus,
    heater_on: Result<bool, ActuatorError>,
    switched: Result<(), ActuatorError>,
}

fn tick_reading(temperature: f32, co2: i32) -> Reading {
    Reading { temperature: Temperature::from_bits(temperature.to_bits()), co2 }
}

fn cosy(heater_on: bool) -> Surroundings {
    Surroundings {
        readings: Ok(tick_reading(17.0, 520)),
        powered_on: Ok(true),
        lock_status: LockStatus::Unlocked,
        heater_on: Ok(heater_on),
        switched: Ok(()),
    }
}

fn answer(world: &Surroundings, call: Call) -> Reply {
    match call {
        Call::FetchReadings => Reply::Readings(world.readings),
        Call::ProbePower => Reply::Power(world.powered_on),
        Call::ProbeLock => Reply::Lock(world.lock_status),
        Call::QueryPower => Reply::Actuator(world.heater_on),
        Call::SetPower(_) => Reply::Switched(world.switched),
    }
}

fn reconcile(config: &Config, world: &Surroundings) -> (Vec<Call>, Outcome) {
    let mut tick = check_heater(config);
    let mut calls = Vec::new();
    while let Some(call) = tick.next_call() {
        assert!(tick.outcome().is_none());
        calls.push(call);
        tick = tick.advance(answer(world, call));
        assert!(calls.len() <= 5);
    }
    (calls, tick.outcome().unwrap())
}

const PROBES: [Call; 4] = [Call::FetchReadings, Call::ProbePower, Call::ProbeLock, Call::QueryPower];

fn probes_and(last: Call) -> Vec<Call> {
    let mut calls = PROBES.to_vec();
    calls.push(last);
    calls
}

#[test]
fn timing_constants() {
    assert_eq!(TICK_SECONDS, 15);
    assert_eq!(ECHO_TIMEOUT_SECONDS, 1);
}

#[test]
fn heater_on_against_the_policy_is_switched_off_once() {
    let mut world = cosy(true);
    world.lock_status = LockStatus::Locked;
    let (calls, outcome) = reconcile(&Config::default(), &world);
    assert_eq!(calls, probes_and(Call::SetPower(false)));
    assert_eq!(outcome, Outcome::Reconciled);
}

#[test]
fn heater_off_as_the_policy_wants_is_left_alone() {
    let mut world = cosy(false);
    world.lock_status = LockStatus::Locked;
    let (calls, outcome) = reconcile(&Config::default(), &world);
    assert_eq!(calls, PROBES.to_vec());
    assert_eq!(outcome, Outcome::Reconciled);
}

#[test]
fn heater_off_against_the_policy_is_switched_on_once() {
    let (calls, outcome) = reconcile(&Config::default(), &cosy(false));
    assert_eq!(calls, probes_and(Call::SetPower(true)));
    assert_eq!(outcome, Outcome::Reconciled);
}

#[test]
fn heater_on_as_the_policy_wants_is_left_alone() {
    let (calls, outcome) = reconcile(&Config::default(), &cosy(true));
    assert_eq!(calls, PROBES.to_vec());
    assert_eq!(outcome, Outcome::Reconciled);
}

#[test]
fn repeated_ticks_on_a_settled_heater_never_switch() {
    let world = cosy(true);
    for _ in 0..10 {
        let (calls, outcome) = reconcile(&Config::default(), &world);
        assert!(calls.iter().all(|call| !matches!(call, Call::SetPower(_))));
        assert_eq!(outcome, Outcome::Reconciled);
    }
}

#[test]
fn master_switch_off_makes_no_call() {
    let config = Config { master_switch: false, ..Config::default() };
    let tick = check_heater(&config);
    assert_eq!(tick.next_call(), None);
    assert_eq!(tick.outcome(), Some(Outcome::Skipped));
    for heater_on in [false, true] {
        let (calls, outcome) = reconcile(&config, &cosy(heater_on));
        assert_eq!(calls, Vec::<Call>::new());
        assert_eq!(outcome, Outcome::Skipped);
    }
}

#[test]
fn master_switch_off_beats_force() {
    let config = Config { master_switch: false, force: true, ..Config::default() };
    let (calls, outcome) = reconcile(&config, &cosy(false));
    assert_eq!(calls, Vec::<Call>::new());
    assert_eq!(outcome, Outcome::Skipped);
}

#[test]
fn force_still_probes_and_switches_on() {
    let config = Config { force: true, ..Config::default() };
    let world = Surroundings {
        readings: Ok(tick_reading(30.0, 0)),
        powered_on: Ok(false),
        lock_status: LockStatus::Locked,
        heater_on: Ok(false),
        switched: Ok(()),
    };
    let (calls, outcome) = reconcile(&config, &world);
    assert_eq!(calls, probes_and(Call::SetPower(true)));
    assert_eq!(outcome, Outcome::Reconciled);
}

#[test]
fn unreachable_exporter_ends_the_tick_at_once() {
    let mut world = cosy(false);
    world.readings = Err(GatewayError::Unreachable);
    let (calls, outcome) = reconcile(&Config::default(), &world);
    assert_eq!(calls, vec![Call::FetchReadings]);
    assert_eq!(outcome, Outcome::Failed(TickError::Gateway(GatewayError::Unreachable)));
}

#[test]
fn every_gateway_error_is_passed_on() {
    for error in [GatewayError::Unreachable, GatewayError::MissingMetric, GatewayError::ParseError] {
        let mut world = cosy(false);
        world.readings = Err(error);
        let (calls, outcome) = reconcile(&Config::default(), &world);
        assert_eq!(calls, vec![Call::FetchReadings]);
        assert_eq!(outcome, Outcome::Failed(TickError::Gateway(error)));
    }
}

#[test]
fn failed_liveness_probe_ends_the_tick() {
    let mut world = cosy(false);
    world.powered_on = Err(ProbeError::Transport);
    let (calls, outcome) = reconcile(&Config::default(), &world);
    assert_eq!(calls, vec![Call::FetchReadings, Call::ProbePower]);
    assert_eq!(outcome, Outcome::Failed(TickError::Probe(ProbeError::Transport)));
}

#[test]
fn unreachable_plug_ends_the_tick_without_a_switch() {
    for error in [ActuatorError::Unreachable, ActuatorError::MalformedResponse] {
        let mut world = cosy(false);
        world.heater_on = Err(error);
        let (calls, outcome) = reconcile(&Config::default(), &world);
        assert_eq!(calls, PROBES.to_vec());
        assert_eq!(outcome, Outcome::Failed(TickError::Actuator(error)));
    }
}

#[test]
fn failed_switch_fails_the_tick() {
    let mut world = cosy(false);
    world.switched = Err(ActuatorError::Unreachable);
    let (calls, outcome) = reconcile(&Config::default(), &world);
    assert_eq!(calls, probes_and(Call::SetPower(true)));
    assert_eq!(outcome, Outcome::Failed(TickError::Actuator(ActuatorError::Unreachable)));
}

#[test]
fn unknown_lock_status_does_not_fail_the_tick() {
    let mut world = cosy(false);
    world.lock_status = LockStatus::Unknown;
    let (calls, outcome) = reconcile(&Config::default(), &world);
    assert_eq!(calls, probes_and(Call::SetPower(true)));
    assert_eq!(outcome, Outcome::Reconciled);
}

#[test]
fn computer_off_switches_the_heater_off() {
    let mut world = cosy(true);
    world.powered_on = Ok(false);
    let (calls, outcome) = reconcile(&Config::default(), &world);
    assert_eq!(calls, probes_and(Call::SetPower(false)));
    assert_eq!(outcome, Outcome::Reconciled);
}

#[test]
fn at_most_one_switch_in_every_world() {
    let readings = [Ok(tick_reading(17.0, 520)), Ok(tick_reading(19.0, 520)), Err(GatewayError::ParseError)];
    let powers = [Ok(true), Ok(false), Err(ProbeError::Transport)];
    let locks = [LockStatus::Locked, LockStatus::Unlocked, LockStatus::Unknown];
    let heaters = [Ok(true), Ok(false), Err(ActuatorError::Unreachable)];
    let switches = [Ok(()), Err(ActuatorError::Unreachable)];
    for &master_switch in &[false, true] {
        for &force in &[false, true] {
            for &readings in &readings {
                for &powered_on in &powers {
                    for &lock_status in &locks {
                        for &heater_on in &heaters {
                            for &switched in &switches {
                                let config = Config { master_switch, force, ..Config::default() };
                                let world = Surroundings { readings, powered_on, lock_status, heater_on, switched };
                                let (calls, _) = reconcile(&config, &world);
                                let switches_made: Vec<&Call> = calls
                                    .iter()
                                    .filter(|call| matches!(call, Call::SetPower(_)))
                                    .collect();
                                assert!(switches_made.len() <= 1);
                                if let Some(Call::SetPower(on)) = switches_made.first() {
                                    assert_eq!(heater_on, Ok(!*on));
                                    assert_eq!(calls.last(), Some(&Call::SetPower(*on)));
                                }
                                if !master_switch {
                                    assert!(calls.is_empty());
                                }
                            }
                        }
                    }
                }
            }
        }
    }
}

#[test]
fn reply_to_another_call_ends_the_tick() {
    let tick = check_heater(&Config::default());
    let next = tick.advance(Reply::Lock(LockStatus::Unlocked));
    assert_eq!(next.next_call(), None);
    assert_eq!(next.outcome(), Some(Outcome::Failed(TickError::UnexpectedReply)));
    let tick = check_heater(&Config::default()).advance(Reply::Readings(Ok(tick_reading(17.0, 520))));
    assert_eq!(tick.next_call(), Some(Call::ProbePower));
    let next = tick.advance(Reply::Actuator(Ok(true)));
    assert_eq!(next.outcome(), Some(Outcome::Failed(TickError::UnexpectedReply)));
}

#[test]
fn finished_tick_stays_finished() {
    let config = Config { master_switch: false, ..Config::default() };
    let tick = check_heater(&config);
    let later = tick.advance(Reply::Actuator(Ok(false)));
    assert_eq!(later, tick);
    let failed = Tick { config, phase: Phase::Finished(Outcome::Failed(TickError::Probe(ProbeError::Transport))) };
    assert_eq!(failed.advance(Reply::Switched(Ok(()))), failed);
    assert_eq!(failed.next_call(), None);
}

#[test]
fn phases_follow_one_another() {
    let config = Config::default();
    let reading = tick_reading(17.0, 520);
    let t0 = check_heater(&config);
    assert_eq!(t0, Tick { config, phase: Phase::AwaitReadings });
    let t1 = t0.advance(Reply::Readings(Ok(reading)));
    assert_eq!(t1.phase, Phase::AwaitPower(reading));
    let t2 = t1.advance(Reply::Power(Ok(true)));
    assert_eq!(t2.phase, Phase::AwaitLock(reading, true));
    let t3 = t2.advance(Reply::Lock(LockStatus::Unknown));
    assert_eq!(t3.phase, Phase::AwaitActuator(true));
    let t4 = t3.advance(Reply::Actuator(Ok(false)));
    assert_eq!(t4.phase, Phase::AwaitSwitch(true));
    assert_eq!(t4.next_call(), Some(Call::SetPower(true)));
    let t5 = t4.advance(Reply::Switched(Ok(())));
    assert_eq!(t5.phase, Phase::Finished(Outcome::Reconciled));
    assert_eq!(t5.config, config);
}

#[test]
fn outcome_sets_the_availability() {
    let mut state = State::new(Config::default());
    assert!(!record_outcome(&mut state, &Outcome::Reconciled));
    assert!(state.available);
    let unreachable = Outcome::Failed(TickError::Actuator(ActuatorError::Unreachable));
    assert!(record_outcome(&mut state, &unreachable));
    assert!(!state.available);
    let missing = Outcome::Failed(TickError::Gateway(GatewayError::MissingMetric));
    assert!(!record_outcome(&mut state, &missing));
    assert!(!state.available);
    assert!(record_outcome(&mut state, &Outcome::Reconciled));
    assert!(state.available);
    assert_eq!(state.config, Config::default());
}

#[test]
fn skipped_tick_leaves_an_unavailable_plug_unavailable() {
    let off = Config { master_switch: false, ..Config::default() };
    let mut world = cosy(true);
    world.heater_on = Err(ActuatorError::Unreachable);
    let mut state = State { config: off, available: false };
    for _ in 0..5 {
        let (calls, outcome) = reconcile(&state.config, &world);
        assert!(calls.is_empty());
        assert_eq!(outcome, Outcome::Skipped);
        assert!(!record_outcome(&mut state, &outcome));
        assert!(!state.available);
        assert_eq!(state, State { config: off, available: false });
    }
}

#[test]
fn skipped_tick_leaves_an_available_plug_available() {
    let off = Config { master_switch: false, ..Config::default() };
    let mut state = State::new(off);
    let (_, outcome) = reconcile(&state.config, &cosy(true));
    assert!(!record_outcome(&mut state, &outcome));
    assert_eq!(state, State { config: off, available: true });
}

#[test]
fn master_switch_does_not_make_the_availability_flap() {
    let mut world = cosy(true);
    world.heater_on = Err(ActuatorError::Unreachable);
    let mut state = State::new(Config::default());
    let mut reports = Vec::new();
    let switches = [true, false, false, true, false, true, true, false];
    for (tick, &master_switch) in switches.iter().enumerate() {
        state.set_config(Config { master_switch, ..Config::default() });
        let (_, outcome) = reconcile(&state.config, &world);
        if record_outcome(&mut state, &outcome) {
            reports.push((tick, state.available));
        }
        assert!(!state.available);
    }
    assert_eq!(reports, vec![(0, false)]);
}

#[test]
fn availability_follows_the_plug_over_many_ticks() {
    let mut state = State::new(Config::default());
    let mut reports = Vec::new();
    let reachable = [true, true, false, false, false, true, true];
    for (tick, &up) in reachable.iter().enumerate() {
        let mut world = cosy(true);
        if !up {
            world.heater_on = Err(ActuatorError::Unreachable);
        }
        let (_, outcome) = reconcile(&state.config, &world);
        if record_outcome(&mut state, &outcome) {
            reports.push((tick, state.available));
        }
    }
    assert_eq!(reports, vec![(2, false), (5, true)]);
}

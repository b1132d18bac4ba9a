//! The policy that decides whether the heater should run, and the
//! reconciliation that brings the plug in line with it.
//!
//! A reconciliation is a [`Tick`]: a small state machine that names the next
//! network call to make and takes its result. The caller makes the calls;
//! the machine decides which, in what order, and when to stop.

use vstd::prelude::*;
use crate::config::{Config, State};
use crate::heater::ActuatorError;
use crate::metrics::GatewayError;
use crate::pc::{LockStatus, ProbeError};
use crate::reading::{less_than, Reading};

verus! {

/// Seconds between two reconciliations.
pub const TICK_SECONDS: u64 = 15;

/// Seconds after which an echo request counts as unanswered.
pub const ECHO_TIMEOUT_SECONDS: u64 = 1;

/// Whether the heater should be on.
pub open spec fn decide(
    config: Config,
    reading: Reading,
    powered_on: bool,
    lock_status: LockStatus,
) -> bool {
    config.force || {
        &&& less_than(reading.temperature.bits, config.target_temp.bits)
        &&& (config.co2_target is None || reading.co2 >= config.co2_target->0)
        &&& powered_on
        &&& lock_status != LockStatus::Locked
    }
}

/// Decides whether the heater should be on. With `force` it always should;
/// otherwise the room must be colder than the target, the CO2 concentration
/// at least the configured one if there is one, and the computer on and not
/// known to be locked.
pub fn should_be_on(
    config: &Config,
    reading: &Reading,
    powered_on: bool,
    lock_status: LockStatus,
) -> (on: bool)
    ensures
        on == decide(*config, *reading, powered_on, lock_status),
        config.force ==> on,
        !config.force ==> (on <==> {
            &&& less_than(reading.temperature.bits, config.target_temp.bits)
            &&& (config.co2_target is None || reading.co2 >= config.co2_target->0)
            &&& powered_on
            &&& lock_status != LockStatus::Locked
        }),
{
    if config.force {
        return true;
    }
    let enough_co2: bool = match config.co2_target {
        None => true,
        Some(target) => reading.co2 >= target,
    };
    reading.temperature.below(config.target_temp) && enough_co2 && powered_on
        && !lock_status.is_locked()
}

/// An unknown lock status is treated exactly as an unlocked session.
pub proof fn lemma_unknown_counts_as_unlocked(config: Config, reading: Reading, powered_on: bool)
    ensures
        decide(config, reading, powered_on, LockStatus::Unknown) == decide(
            config,
            reading,
            powered_on,
            LockStatus::Unlocked,
        ),
{
}

/// A network call that a reconciliation asks for.
#[derive(Clone, Copy, Debug, PartialEq, Eq)]
pub enum Call {
    /// Fetch temperature and CO2 from the metrics exporter.
    FetchReadings,
    /// Send one echo request to the computer.
    ProbePower,
    /// Ask the computer whether its session is locked.
    ProbeLock,
    /// Ask the plug whether the heater is on.
    QueryPower,
    /// Switch the heater on or off.
    SetPower(bool),
}

/// The result of a network call.
#[derive(Clone, Copy, Debug, PartialEq, Eq)]
pub enum Reply {
    Readings(Result<Reading, GatewayError>),
    Power(Result<bool, ProbeError>),
    Lock(LockStatus),
    Actuator(Result<bool, ActuatorError>),
    Switched(Result<(), ActuatorError>),
}

/// Why a reconciliation was given up.
#[derive(Clone, Copy, Debug, PartialEq, Eq)]
pub enum TickError {
    Gateway(GatewayError),
    Probe(ProbeError),
    Actuator(ActuatorError),
    /// The reply handed in does not answer the call that was pending.
    UnexpectedReply,
}

/// How a reconciliation ended.
#[derive(Clone, Copy, Debug, PartialEq, Eq)]
pub enum Outcome {
    /// The master switch was off: nothing was probed, so nothing was learned.
    Skipped,
    /// Every call that was made succeeded, and the heater is as the policy
    /// wants it or has been told to be.
    Reconciled,
    /// A call failed and the rest was given up.
    Failed(TickError),
}

/// What the end of a reconciliation tells about reachability: `true` where
/// it ran and succeeded, `false` where it ran and failed, nothing where it
/// did not run.
pub open spec fn reachability(outcome: Outcome) -> Option<bool> {
    match outcome {
        Outcome::Skipped => None,
        Outcome::Reconciled => Some(true),
        Outcome::Failed(_) => Some(false),
    }
}

/// How far a reconciliation has come.
#[derive(Clone, Copy, Debug, PartialEq, Eq)]
pub enum Phase {
    AwaitReadings,
    AwaitPower(Reading),
    AwaitLock(Reading, bool),
    /// The policy has decided; the field is the state the heater should have.
    AwaitActuator(bool),
    /// The heater is in the wrong state and is being switched to the field's.
    AwaitSwitch(bool),
    Finished(Outcome),
}

/// One reconciliation under a snapshot of the configuration.
#[derive(Clone, Copy, Debug, PartialEq, Eq)]
pub struct Tick {
    pub config: Config,
    pub phase: Phase,
}

/// The call that a phase waits for.
pub open spec fn call_of(phase: Phase) -> Option<Call> {
    match phase {
        Phase::AwaitReadings => Some(Call::FetchReadings),
        Phase::AwaitPower(_) => Some(Call::ProbePower),
        Phase::AwaitLock(_, _) => Some(Call::ProbeLock),
        Phase::AwaitActuator(_) => Some(Call::QueryPower),
        Phase::AwaitSwitch(on) => Some(Call::SetPower(on)),
        Phase::Finished(_) => None,
    }
}

/// The phase that follows `phase` once `reply` has come in. Any failure ends
/// the reconciliation; the heater is switched only after it was seen in the
/// wrong state.
pub open spec fn phase_after(config: Config, phase: Phase, reply: Reply) -> Phase {
    match (phase, reply) {
        (Phase::Finished(outcome), _) => Phase::Finished(outcome),
        (Phase::AwaitReadings, Reply::Readings(Ok(reading))) => Phase::AwaitPower(reading),
        (Phase::AwaitReadings, Reply::Readings(Err(e))) => Phase::Finished(
            Outcome::Failed(TickError::Gateway(e)),
        ),
        (Phase::AwaitPower(reading), Reply::Power(Ok(powered_on))) => Phase::AwaitLock(
            reading,
            powered_on,
        ),
        (Phase::AwaitPower(_), Reply::Power(Err(e))) => Phase::Finished(Outcome::Failed(TickError::Probe(e))),
        (Phase::AwaitLock(reading, powered_on), Reply::Lock(lock_status)) => Phase::AwaitActuator(
            decide(config, reading, powered_on, lock_status),
        ),
        (Phase::AwaitActuator(desired), Reply::Actuator(Ok(observed))) => if observed != desired {
            Phase::AwaitSwitch(desired)
        } else {
            Phase::Finished(Outcome::Reconciled)
        },
        (Phase::AwaitActuator(_), Reply::Actuator(Err(e))) => Phase::Finished(
            Outcome::Failed(TickError::Actuator(e)),
        ),
        (Phase::AwaitSwitch(_), Reply::Switched(Ok(_))) => Phase::Finished(Outcome::Reconciled),
        (Phase::AwaitSwitch(_), Reply::Switched(Err(e))) => Phase::Finished(
            Outcome::Failed(TickError::Actuator(e)),
        ),
        _ => Phase::Finished(Outcome::Failed(TickError::UnexpectedReply)),
    }
}

/// The first phase of a reconciliation: with the master switch off it is over
/// before it began, as skipped.
pub open spec fn first_phase(config: Config) -> Phase {
    if config.master_switch {
        Phase::AwaitReadings
    } else {
        Phase::Finished(Outcome::Skipped)
    }
}

impl Tick {
    /// The call this reconciliation waits for, if it is not over.
    pub open spec fn pending(self) -> Option<Call> {
        call_of(self.phase)
    }

    /// The reconciliation after `reply` has been handed in.
    pub open spec fn after(self, reply: Reply) -> Tick {
        Tick { config: self.config, phase: phase_after(self.config, self.phase, reply) }
    }

    /// The call to make next, or `None` once the reconciliation is over.
    pub fn next_call(&self) -> (call: Option<Call>)
        ensures
            call == self.pending(),
    {
        match self.phase {
            Phase::AwaitReadings => Some(Call::FetchReadings),
            Phase::AwaitPower(_) => Some(Call::ProbePower),
            Phase::AwaitLock(_, _) => Some(Call::ProbeLock),
            Phase::AwaitActuator(_) => Some(Call::QueryPower),
            Phase::AwaitSwitch(on) => Some(Call::SetPower(on)),
            Phase::Finished(_) => None,
        }
    }

    /// How the reconciliation ended, or `None` while a call is pending.
    pub fn outcome(&self) -> (outcome: Option<Outcome>)
        ensures
            outcome == match self.phase {
                Phase::Finished(result) => Some(result),
                _ => None::<Outcome>,
            },
            outcome is None <==> self.pending() is Some,
    {
        match self.phase {
            Phase::Finished(result) => Some(result),
            _ => None,
        }
    }

    /// Hands in the result of the pending call and moves on.
    pub fn advance(self, reply: Reply) -> (next: Tick)
        ensures
            next == self.after(reply),
    {
        let unexpected: Phase = Phase::Finished(Outcome::Failed(TickError::UnexpectedReply));
        let phase: Phase = match self.phase {
            Phase::Finished(outcome) => Phase::Finished(outcome),
            Phase::AwaitReadings => match reply {
                Reply::Readings(Ok(reading)) => Phase::AwaitPower(reading),
                Reply::Readings(Err(e)) => Phase::Finished(Outcome::Failed(TickError::Gateway(e))),
                _ => unexpected,
            },
            Phase::AwaitPower(reading) => match reply {
                Reply::Power(Ok(powered_on)) => Phase::AwaitLock(reading, powered_on),
                Reply::Power(Err(e)) => Phase::Finished(Outcome::Failed(TickError::Probe(e))),
                _ => unexpected,
            },
            Phase::AwaitLock(reading, powered_on) => match reply {
                Reply::Lock(lock_status) => Phase::AwaitActuator(
                    should_be_on(&self.config, &reading, powered_on, lock_status),
                ),
                _ => unexpected,
            },
            Phase::AwaitActuator(desired) => match reply {
                Reply::Actuator(Ok(observed)) => if observed != desired {
                    Phase::AwaitSwitch(desired)
                } else {
                    Phase::Finished(Outcome::Reconciled)
                },
                Reply::Actuator(Err(e)) => Phase::Finished(Outcome::Failed(TickError::Actuator(e))),
                _ => unexpected,
            },
            Phase::AwaitSwitch(_) => match reply {
                Reply::Switched(Ok(_)) => Phase::Finished(Outcome::Reconciled),
                Reply::Switched(Err(e)) => Phase::Finished(Outcome::Failed(TickError::Actuator(e))),
                _ => unexpected,
            },
        };
        Tick { config: self.config, phase }
    }
}

/// Begins a reconciliation under `config`. With the master switch off the
/// reconciliation is over at once, as skipped and without a single call.
pub fn check_heater(config: &Config) -> (tick: Tick)
    ensures
        tick == (Tick { config: *config, phase: first_phase(*config) }),
        !config.master_switch ==> tick.pending() is None && tick.phase == Phase::Finished(
            Outcome::Skipped,
        ),
{
    let phase: Phase = if config.master_switch {
        Phase::AwaitReadings
    } else {
        Phase::Finished(Outcome::Skipped)
    };
    Tick { config: *config, phase }
}

/// Records how a reconciliation ended. One that ran makes the actuator
/// count as available exactly when it succeeded; one that was skipped has
/// observed nothing and leaves the state as it is. Returns whether the
/// availability changed.
pub fn record_outcome(state: &mut State, outcome: &Outcome) -> (changed: bool)
    ensures
        changed == old(state).reports(reachability(*outcome)),
        *final(state) == old(state).observed(reachability(*outcome)),
        *outcome == Outcome::Skipped ==> !changed && *final(state) == *old(state),
{
    match outcome {
        Outcome::Skipped => state.observe(None),
        Outcome::Reconciled => state.observe(Some(true)),
        Outcome::Failed(_) => state.observe(Some(false)),
    }
}

} // verus!

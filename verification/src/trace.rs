//! What a whole reconciliation does: the calls it makes and how it ends,
//! stated over every sequence of replies and over every state of the
//! outside world.

use vstd::prelude::*;
use crate::config::{Config, State};
use crate::heater::ActuatorError;
use crate::heatman::{
    decide, first_phase, reachability, Call, Outcome, Phase, Reply, Tick, TickError,
};
use crate::metrics::GatewayError;
use crate::pc::{LockStatus, ProbeError};
use crate::reading::Reading;

verus! {

/// The calls made while `replies` are handed in one after another, starting
/// from `tick`: a call is made when it is pending and a reply to it exists.
pub open spec fn calls_made(tick: Tick, replies: Seq<Reply>) -> Seq<Call>
    decreases replies.len(),
{
    if replies.len() == 0 {
        Seq::empty()
    } else {
        match tick.pending() {
            None => Seq::empty(),
            Some(call) => seq![call] + calls_made(tick.after(replies[0]), replies.drop_first()),
        }
    }
}

/// What every network call would answer during one reconciliation. Each call
/// is made at most once, so one answer per call describes the world.
pub struct World {
    pub readings: Result<Reading, GatewayError>,
    pub powered_on: Result<bool, ProbeError>,
    pub lock_status: LockStatus,
    pub heater_on: Result<bool, ActuatorError>,
    pub switched: Result<(), ActuatorError>,
}

/// The reply of `world` to `call`.
pub open spec fn answer(world: World, call: Call) -> Reply {
    match call {
        Call::FetchReadings => Reply::Readings(world.readings),
        Call::ProbePower => Reply::Power(world.powered_on),
        Call::ProbeLock => Reply::Lock(world.lock_status),
        Call::QueryPower => Reply::Actuator(world.heater_on),
        Call::SetPower(_) => Reply::Switched(world.switched),
    }
}

/// The number of calls that a phase can still be followed by, itself
/// included.
pub open spec fn calls_left(phase: Phase) -> nat {
    match phase {
        Phase::AwaitReadings => 5,
        Phase::AwaitPower(_) => 4,
        Phase::AwaitLock(_, _) => 3,
        Phase::AwaitActuator(_) => 2,
        Phase::AwaitSwitch(_) => 1,
        Phase::Finished(_) => 0,
    }
}

/// The replies that `world` gives when a reconciliation is run from `tick`
/// to its end.
pub open spec fn replies_of(tick: Tick, world: World) -> Seq<Reply>
    decreases calls_left(tick.phase),
{
    match tick.pending() {
        None => Seq::empty(),
        Some(call) => seq![answer(world, call)] + replies_of(
            tick.after(answer(world, call)),
            world,
        ),
    }
}

/// The reconciliation after all of `replies` have been handed in.
pub open spec fn tick_after(tick: Tick, replies: Seq<Reply>) -> Tick
    decreases replies.len(),
{
    if replies.len() == 0 {
        tick
    } else {
        tick_after(tick.after(replies[0]), replies.drop_first())
    }
}

/// The state that the policy wants the heater in, where `world` lets the
/// policy be evaluated.
pub open spec fn desired_in(config: Config, world: World) -> Option<bool> {
    match (world.readings, world.powered_on) {
        (Ok(reading), Ok(powered_on)) => Some(
            decide(config, reading, powered_on, world.lock_status),
        ),
        _ => None,
    }
}

/// The calls of one reconciliation under `config` in `world`.
pub open spec fn expected_calls(config: Config, world: World) -> Seq<Call> {
    if !config.master_switch {
        Seq::empty()
    } else if world.readings is Err {
        seq![Call::FetchReadings]
    } else if world.powered_on is Err {
        seq![Call::FetchReadings, Call::ProbePower]
    } else if world.heater_on is Ok && world.heater_on->Ok_0 != desired_in(config, world)->0 {
        seq![
            Call::FetchReadings,
            Call::ProbePower,
            Call::ProbeLock,
            Call::QueryPower,
            Call::SetPower(desired_in(config, world)->0),
        ]
    } else {
        seq![Call::FetchReadings, Call::ProbePower, Call::ProbeLock, Call::QueryPower]
    }
}

/// How one reconciliation under `config` in `world` ends: skipped where the
/// master switch is off, else with the first failure among the calls it
/// makes, or successfully.
pub open spec fn expected_outcome(config: Config, world: World) -> Outcome {
    if !config.master_switch {
        Outcome::Skipped
    } else {
        match (world.readings, world.powered_on, world.heater_on) {
            (Err(e), _, _) => Outcome::Failed(TickError::Gateway(e)),
            (Ok(_), Err(e), _) => Outcome::Failed(TickError::Probe(e)),
            (Ok(_), Ok(_), Err(e)) => Outcome::Failed(TickError::Actuator(e)),
            (Ok(_), Ok(_), Ok(observed)) => if observed == desired_in(config, world)->0 {
                Outcome::Reconciled
            } else {
                match world.switched {
                    Ok(_) => Outcome::Reconciled,
                    Err(e) => Outcome::Failed(TickError::Actuator(e)),
                }
            },
        }
    }
}

/// The reconciliation that `check_heater` begins.
pub open spec fn begun(config: Config) -> Tick {
    Tick { config, phase: first_phase(config) }
}

/// Run to its end against a world, a reconciliation makes exactly the
/// expected calls and ends with the expected outcome.
pub proof fn lemma_run_meets_expectation(config: Config, world: World)
    ensures
        calls_made(begun(config), replies_of(begun(config), world)) == expected_calls(
            config,
            world,
        ),
        tick_after(begun(config), replies_of(begun(config), world)) == (Tick {
            config,
            phase: Phase::Finished(expected_outcome(config, world)),
        }),
{
    let t0 = begun(config);
    reveal_with_fuel(replies_of, 7);
    reveal_with_fuel(calls_made, 7);
    reveal_with_fuel(tick_after, 7);
    assert(calls_made(t0, replies_of(t0, world)) =~= expected_calls(config, world));
}

/// Whether a call switches the heater.
pub open spec fn is_switch(call: Call) -> bool {
    call is SetPower
}

/// Once the heater has been switched, the reconciliation makes no further
/// call: a switch is always the last call made.
pub proof fn lemma_switch_is_last_call(tick: Tick, replies: Seq<Reply>)
    ensures
        forall|i: int|
            0 <= i < calls_made(tick, replies).len() && is_switch(
                #[trigger] calls_made(tick, replies)[i],
            ) ==> i == calls_made(tick, replies).len() - 1,
    decreases replies.len(),
{
    if replies.len() > 0 && tick.pending() is Some {
        let next = tick.after(replies[0]);
        let rest = replies.drop_first();
        lemma_switch_is_last_call(next, rest);
        let calls = calls_made(tick, replies);
        let later = calls_made(next, rest);
        assert(calls =~= seq![tick.pending()->0] + later);
        if is_switch(calls[0]) {
            assert(next.pending() is None);
            assert(later.len() == 0);
        }
        assert forall|i: int| 0 <= i < calls.len() && is_switch(#[trigger] calls[i]) implies i
            == calls.len() - 1 by {
            if i > 0 {
                assert(calls[i] == later[i - 1]);
            }
        }
    }
}

/// Whatever replies come in, and from whatever phase, a reconciliation
/// switches the heater at most once.
pub proof fn lemma_at_most_one_switch(tick: Tick, replies: Seq<Reply>, i: int, j: int)
    requires
        0 <= i < calls_made(tick, replies).len(),
        0 <= j < calls_made(tick, replies).len(),
        is_switch(calls_made(tick, replies)[i]),
        is_switch(calls_made(tick, replies)[j]),
    ensures
        i == j,
{
    lemma_switch_is_last_call(tick, replies);
}

/// A reply leads to a switch exactly when it shows the heater in the state
/// opposite to the one the policy decided on; the switch is to the decided
/// state.
pub proof fn lemma_switch_only_on_mismatch(tick: Tick, reply: Reply, on: bool)
    ensures
        tick.after(reply).pending() == Some(Call::SetPower(on)) <==> (tick.phase
            == Phase::AwaitActuator(on) && reply == Reply::Actuator(Ok(!on))),
{
}

/// The state that is compared with the heater's is the policy's decision on
/// what the three probes returned.
pub proof fn lemma_desired_state_is_decided(
    config: Config,
    reading: Reading,
    powered_on: bool,
    lock_status: LockStatus,
)
    ensures
        (Tick { config, phase: Phase::AwaitReadings }).after(Reply::Readings(Ok(reading))).after(
            Reply::Power(Ok(powered_on)),
        ).after(Reply::Lock(lock_status)).phase == Phase::AwaitActuator(
            decide(config, reading, powered_on, lock_status),
        ),
{
}

/// In a given world a reconciliation switches the heater to `on` exactly when
/// the master switch is on, the policy could be evaluated and decided `on`,
/// and the heater was seen in the other state. It never switches twice.
pub proof fn lemma_expected_switch(config: Config, world: World, on: bool)
    ensures
        expected_calls(config, world).contains(Call::SetPower(on)) <==> (config.master_switch
            && desired_in(config, world) == Some(on) && world.heater_on == Ok::<
            bool,
            ActuatorError,
        >(!on)),
        forall|i: int|
            0 <= i < expected_calls(config, world).len() && is_switch(
                #[trigger] expected_calls(config, world)[i],
            ) ==> i == 4,
{
    let calls = expected_calls(config, world);
    if config.master_switch && desired_in(config, world) == Some(on) && world.heater_on == Ok::<
        bool,
        ActuatorError,
    >(!on) {
        assert(calls[4] == Call::SetPower(on));
    }
}

/// A heater that is already in the state the policy wants is left alone,
/// however often the reconciliation is repeated.
pub proof fn lemma_settled_heater_is_left_alone(config: Config, world: World)
    requires
        desired_in(config, world) is Some,
        world.heater_on == Ok::<bool, ActuatorError>(desired_in(config, world)->0),
    ensures
        forall|i: int|
            0 <= i < expected_calls(config, world).len() ==> !is_switch(
                #[trigger] expected_calls(config, world)[i],
            ),
        config.master_switch ==> expected_outcome(config, world) == Outcome::Reconciled,
{
}

/// A reconciliation that fails before the heater's state is known does not
/// touch the heater.
pub proof fn lemma_failure_leaves_heater_alone(config: Config, world: World)
    requires
        config.master_switch,
        world.readings is Err || world.powered_on is Err || world.heater_on is Err,
    ensures
        expected_outcome(config, world) is Failed,
        reachability(expected_outcome(config, world)) == Some(false),
        forall|i: int|
            0 <= i < expected_calls(config, world).len() ==> !is_switch(
                #[trigger] expected_calls(config, world)[i],
            ),
{
}

/// With the master switch off a reconciliation makes no call at all,
/// whatever replies are offered to it, and ends as skipped.
pub proof fn lemma_master_switch_off_is_silent(config: Config, replies: Seq<Reply>)
    requires
        !config.master_switch,
    ensures
        begun(config).pending() is None,
        calls_made(begun(config), replies).len() == 0,
        tick_after(begun(config), replies) == begun(config),
        begun(config).phase == Phase::Finished(Outcome::Skipped),
    decreases replies.len(),
{
    if replies.len() > 0 {
        assert(begun(config).after(replies[0]) == begun(config));
        lemma_master_switch_off_is_silent(config, replies.drop_first());
    }
}

/// A reconciliation tells something about reachability exactly when the
/// master switch is on: a skipped one has queried nothing, and one that ran
/// has either reached everything it asked or failed to.
pub proof fn lemma_only_a_run_tells_reachability(config: Config, world: World)
    ensures
        reachability(expected_outcome(config, world)) is Some <==> config.master_switch,
        expected_outcome(config, world) == Outcome::Skipped <==> !config.master_switch,
        reachability(expected_outcome(config, world)) == Some(true) ==> world.readings is Ok
            && world.powered_on is Ok && world.heater_on is Ok,
{
}

/// A reconciliation under a master switch that is off leaves the state as it
/// was and reports nothing: a plug that counted as unavailable still does.
pub proof fn lemma_skipped_run_leaves_state(state: State, config: Config, world: World)
    requires
        !config.master_switch,
    ensures
        state.observed(reachability(expected_outcome(config, world))) == state,
        !state.reports(reachability(expected_outcome(config, world))),
{
}

/// A reconciliation that ran leaves the actuator available exactly when it
/// succeeded, and reports that exactly when it is a change.
pub proof fn lemma_run_sets_availability(state: State, config: Config, world: World)
    requires
        config.master_switch,
    ensures
        state.observed(reachability(expected_outcome(config, world))).available == (
        expected_outcome(config, world) == Outcome::Reconciled),
        state.reports(reachability(expected_outcome(config, world))) == (state.available != (
        expected_outcome(config, world) == Outcome::Reconciled)),
{
}

/// A reconciliation makes at most five calls.
pub proof fn lemma_calls_are_bounded(tick: Tick, replies: Seq<Reply>)
    ensures
        calls_made(tick, replies).len() <= calls_left(tick.phase),
    decreases replies.len(),
{
    if replies.len() > 0 && tick.pending() is Some {
        lemma_calls_are_bounded(tick.after(replies[0]), replies.drop_first());
    }
}

} // verus!

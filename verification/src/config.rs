//! User configuration and the state that the controller shares with its
//! configuration interface.

use vstd::prelude::*;
use crate::reading::Temperature;

verus! {

/// Bits of the default target temperature, 18 degrees.
pub const DEFAULT_TARGET_BITS: u32 = 0x4190_0000;

/// Default lower bound on the CO2 concentration.
pub const DEFAULT_CO2_TARGET: i32 = 500;

/// What the user asks of the controller.
#[derive(Clone, Copy, Debug, PartialEq, Eq)]
pub struct Config {
    /// With the master switch off the controller leaves everything alone.
    pub master_switch: bool,
    /// Keeps the heater on whatever the sensors say.
    pub force: bool,
    /// The heater runs only while the room is colder than this.
    pub target_temp: Temperature,
    /// Where set, the heater runs only at this CO2 concentration or above.
    pub co2_target: Option<i32>,
}

impl Default for Config {
    fn default() -> (c: Config)
        ensures
            c == (Config {
                master_switch: true,
                force: false,
                target_temp: Temperature { bits: DEFAULT_TARGET_BITS },
                co2_target: Some(DEFAULT_CO2_TARGET),
            }),
    {
        Config {
            master_switch: true,
            force: false,
            target_temp: Temperature::from_bits(DEFAULT_TARGET_BITS),
            co2_target: Some(DEFAULT_CO2_TARGET),
        }
    }
}

/// The configuration together with the availability of the actuator.
#[derive(Clone, Copy, Debug, PartialEq, Eq)]
pub struct State {
    pub config: Config,
    /// Whether the last reconciliation that ran reached everything it needed.
    pub available: bool,
}

impl State {
    /// Whether recording `reachable` changes the availability.
    pub open spec fn changed_by(self, reachable: bool) -> bool {
        self.available != reachable
    }

    /// The state once `reachable` has been recorded.
    pub open spec fn recorded(self, reachable: bool) -> State {
        State { config: self.config, available: reachable }
    }

    /// Whether a reconciliation's observation changes the availability.
    /// `None` stands for a reconciliation that did not run; it changes
    /// nothing.
    pub open spec fn reports(self, observation: Option<bool>) -> bool {
        match observation {
            None => false,
            Some(reachable) => self.changed_by(reachable),
        }
    }

    /// The state after a reconciliation's observation: unchanged where the
    /// reconciliation did not run.
    pub open spec fn observed(self, observation: Option<bool>) -> State {
        match observation {
            None => self,
            Some(reachable) => self.recorded(reachable),
        }
    }

    /// The state at startup: the actuator counts as available until a
    /// reconciliation says otherwise.
    pub fn new(config: Config) -> (s: State)
        ensures
            s == (State { config, available: true }),
    {
        State { config, available: true }
    }

    /// Replaces the configuration and leaves the availability as it is.
    pub fn set_config(&mut self, config: Config)
        ensures
            *final(self) == (State { config, available: old(self).available }),
    {
        self.config = config;
    }

    /// Records whether the reconciliation that just ran reached everything
    /// it needed. Returns whether that changed the availability, so that a
    /// caller reports transitions and nothing else.
    pub fn record(&mut self, reachable: bool) -> (changed: bool)
        ensures
            changed == old(self).changed_by(reachable),
            *final(self) == old(self).recorded(reachable),
            final(self).available == reachable,
            final(self).config == old(self).config,
    {
        let changed: bool = self.available != reachable;
        if changed {
            self.available = reachable;
        }
        changed
    }

    /// Records what a reconciliation observed of reachability, or `None`
    /// where it did not run. A reconciliation that did not run leaves the
    /// state untouched and reports no change.
    pub fn observe(&mut self, observation: Option<bool>) -> (changed: bool)
        ensures
            changed == old(self).reports(observation),
            *final(self) == old(self).observed(observation),
            observation is None ==> !changed && *final(self) == *old(self),
    {
        match observation {
            None => false,
            Some(reachable) => self.record(reachable),
        }
    }
}

/// The state after the observations of successive reconciliations have been
/// recorded. An observation is `None` where the reconciliation did not run.
pub open spec fn state_after(state: State, observations: Seq<Option<bool>>) -> State
    decreases observations.len(),
{
    if observations.len() == 0 {
        state
    } else {
        state_after(state.observed(observations[0]), observations.drop_first())
    }
}

/// The number of changes that are reported while the observations of
/// successive reconciliations are recorded.
pub open spec fn changes_reported(state: State, observations: Seq<Option<bool>>) -> nat
    decreases observations.len(),
{
    if observations.len() == 0 {
        0
    } else {
        let here: nat = if state.reports(observations[0]) { 1 } else { 0 };
        here + changes_reported(state.observed(observations[0]), observations.drop_first())
    }
}

/// Whether any of the reconciliations ran.
pub open spec fn any_ran(observations: Seq<Option<bool>>) -> bool {
    exists|i: int| 0 <= i < observations.len() && #[trigger] observations[i] is Some
}

/// Recording observations never touches the configuration.
pub proof fn lemma_state_after(state: State, observations: Seq<Option<bool>>)
    ensures
        state_after(state, observations).config == state.config,
    decreases observations.len(),
{
    if observations.len() > 0 {
        lemma_state_after(state.observed(observations[0]), observations.drop_first());
    }
}

/// Reconciliations that do not run change nothing and report nothing,
/// however many there are: the availability is still what it was.
pub proof fn lemma_skipped_ticks_change_nothing(state: State, observations: Seq<Option<bool>>)
    requires
        forall|i: int| 0 <= i < observations.len() ==> observations[i] is None,
    ensures
        state_after(state, observations) == state,
        changes_reported(state, observations) == 0,
    decreases observations.len(),
{
    if observations.len() > 0 {
        lemma_skipped_ticks_change_nothing(state, observations.drop_first());
    }
}

/// A reconciliation that does not run can be left out of the account: what
/// is reported, and the state in the end, depend on the ones that ran.
pub proof fn lemma_skipped_tick_does_not_count(
    state: State,
    observations: Seq<Option<bool>>,
    i: int,
)
    requires
        0 <= i < observations.len(),
        observations[i] is None,
    ensures
        state_after(state, observations) == state_after(state, observations.remove(i)),
        changes_reported(state, observations) == changes_reported(state, observations.remove(i)),
    decreases observations.len(),
{
    if i == 0 {
        assert(observations.remove(0) =~= observations.drop_first());
    } else {
        let rest = observations.drop_first();
        assert(observations.remove(i).drop_first() =~= rest.remove(i - 1));
        assert(observations.remove(i)[0] == observations[0]);
        lemma_skipped_tick_does_not_count(state.observed(observations[0]), rest, i - 1);
    }
}

/// Recording the same outcome a second time changes nothing and reports
/// nothing.
pub proof fn lemma_record_is_idempotent(state: State, reachable: bool)
    ensures
        !state.recorded(reachable).changed_by(reachable),
        state.recorded(reachable).recorded(reachable) == state.recorded(reachable),
{
}

/// While every reconciliation that runs finds the same reachability, the
/// availability changes at most once: on the first that runs, and only if it
/// differed before. From then on it stays as it is, whether or not
/// reconciliations are skipped in between.
pub proof fn lemma_steady_reachability(
    state: State,
    observations: Seq<Option<bool>>,
    reachable: bool,
)
    requires
        forall|i: int|
            0 <= i < observations.len() && observations[i] is Some ==> observations[i] == Some(
                reachable,
            ),
    ensures
        changes_reported(state, observations) == (if any_ran(observations) && state.available
            != reachable {
            1nat
        } else {
            0nat
        }),
        state_after(state, observations).available == (if any_ran(observations) {
            reachable
        } else {
            state.available
        }),
    decreases observations.len(),
{
    if observations.len() > 0 {
        let rest = observations.drop_first();
        lemma_steady_reachability(state.observed(observations[0]), rest, reachable);
        if any_ran(rest) {
            let i = choose|i: int| 0 <= i < rest.len() && #[trigger] rest[i] is Some;
            assert(observations[i + 1] is Some);
        }
        if observations[0] is Some {
            assert(any_ran(observations));
        } else if any_ran(observations) {
            let i = choose|i: int| 0 <= i < observations.len() && #[trigger] observations[i] is Some;
            assert(rest[i - 1] is Some);
        }
    }
}

/// Every change of reachability is reported exactly once: one more
/// reconciliation adds one report if it ran and found what differs from the
/// availability so far, and none otherwise.
pub proof fn lemma_one_report_per_transition(
    state: State,
    observations: Seq<Option<bool>>,
    next: Option<bool>,
)
    ensures
        changes_reported(state, observations.push(next)) == changes_reported(state, observations)
            + (if state_after(state, observations).reports(next) {
            1nat
        } else {
            0nat
        }),
        state_after(state, observations.push(next)) == state_after(state, observations).observed(
            next,
        ),
    decreases observations.len(),
{
    if observations.len() == 0 {
        reveal_with_fuel(changes_reported, 2);
        reveal_with_fuel(state_after, 2);
        assert(observations.push(next).drop_first() =~= observations);
    } else {
        let rest = observations.drop_first();
        assert(observations.push(next).drop_first() =~= rest.push(next));
        lemma_one_report_per_transition(state.observed(observations[0]), rest, next);
    }
}

} // verus!

//! The supervisor: one relay unit per configured pair, and the ledger of how
//! each of them ended. Units share nothing; the supervisor holds no socket
//! and no queue, only what the workers report.
use crate::config::{no_pairs_message, rule_broken, ConfigError, Pair, Settings};
use crate::relay::{RelayUnit, TerminationReason, UnitModel};
use vstd::prelude::*;

verus! {

/// A ledger after the unit at `index` was reported to have stopped for
/// `reason`: the first report of a unit stands, and a report of a unit that
/// does not exist changes nothing.
pub open spec fn recorded(
    ledger: Seq<Option<TerminationReason>>,
    index: int,
    reason: TerminationReason,
) -> Seq<Option<TerminationReason>> {
    if 0 <= index < ledger.len() && ledger[index] is None {
        ledger.update(index, Some(reason))
    } else {
        ledger
    }
}

/// Whether every unit of a ledger has stopped.
pub open spec fn all_stopped(ledger: Seq<Option<TerminationReason>>) -> bool {
    forall|i: int| 0 <= i < ledger.len() ==> (#[trigger] ledger[i]) is Some
}

/// What `units` must be to be the units of `pairs`: one unit per pair, in
/// order, each not yet bound, with the addresses and limits of its own pair
/// and under the label of that pair at its position.
pub open spec fn units_of(units: Seq<RelayUnit>, pairs: Seq<Pair>) -> bool {
    &&& units.len() == pairs.len()
    &&& forall|i: int|
        0 <= i < pairs.len() ==> {
            &&& (#[trigger] units[i])@ == UnitModel::initial(pairs[i])
            &&& units[i]@.wf()
            &&& units[i].pair_spec() == pairs[i]
            &&& units[i].label_spec() == pairs[i].label_spec(i as nat)
        }
}

/// The end of one unit is the end of that unit alone. A report that the
/// unit at `index` stopped, for whatever reason, changes no other entry of
/// the ledger: a sibling that runs still runs, and a sibling that stopped
/// keeps its own reason. The ledger follows as many units as before.
pub proof fn lemma_report_leaves_siblings(
    ledger: Seq<Option<TerminationReason>>,
    index: int,
    reason: TerminationReason,
    sibling: int,
)
    requires
        0 <= sibling < ledger.len(),
        sibling != index,
    ensures
        recorded(ledger, index, reason).len() == ledger.len(),
        recorded(ledger, index, reason)[sibling] == ledger[sibling],
{
}

/// The first report of a unit stands: once a unit is noted as stopped, no
/// later report changes why, and the supervisor is done exactly when every
/// unit is noted as stopped.
pub proof fn lemma_first_report_stands(
    ledger: Seq<Option<TerminationReason>>,
    index: int,
    first: TerminationReason,
    second: TerminationReason,
)
    requires
        0 <= index < ledger.len(),
        ledger[index] is None,
    ensures
        recorded(ledger, index, first)[index] == Some(first),
        recorded(recorded(ledger, index, first), index, second) == recorded(ledger, index, first),
        !all_stopped(ledger),
{
}

/// The ledger of a set of relay units: for each unit, by position, whether
/// it still runs or why it stopped.
pub struct Supervisor {
    outcomes: Vec<Option<TerminationReason>>,
}

impl View for Supervisor {
    type V = Seq<Option<TerminationReason>>;

    closed spec fn view(&self) -> Seq<Option<TerminationReason>> {
        self.outcomes@
    }
}

impl Supervisor {
    /// Creates the units of `settings`, one per pair, and the ledger that
    /// follows them. Settings that break a rule are refused and no unit is
    /// created: first of all settings without pairs.
    pub fn launch(settings: &Settings) -> (outcome: Result<(Supervisor, Vec<RelayUnit>), ConfigError>)
        ensures
            match outcome {
                Ok((supervisor, units)) => {
                    &&& settings.wf()
                    &&& units_of(units@, settings.pairs@)
                    &&& supervisor@.len() == settings.pairs@.len()
                    &&& forall|i: int|
                        0 <= i < supervisor@.len() ==> (#[trigger] supervisor@[i]) is None
                },
                Err(e) => e matches ConfigError::Invalid(msg) && rule_broken(settings.pairs@)
                    == Some(msg@),
            },
            settings.pairs@.len() == 0 ==> (outcome matches Err(ConfigError::Invalid(msg)) && msg@
                == no_pairs_message()),
    {
        match settings.validate() {
            Err(e) => {
                return Err(e);
            },
            Ok(_) => {},
        }
        let mut units: Vec<RelayUnit> = Vec::new();
        let mut outcomes: Vec<Option<TerminationReason>> = Vec::new();
        let mut i: usize = 0;
        while i < settings.pairs.len()
            invariant
                i <= settings.pairs.len(),
                settings.wf(),
                units_of(units@, settings.pairs@.subrange(0, i as int)),
                outcomes@.len() == i,
                forall|j: int| 0 <= j < i ==> (#[trigger] outcomes@[j]) is None,
            decreases settings.pairs.len() - i,
        {
            let pair = settings.pairs[i].clone();
            let label = pair.label(i);
            let unit = RelayUnit::start(label.as_str(), pair);
            units.push(unit);
            outcomes.push(None);
            i += 1;
        }
        Ok((Supervisor { outcomes }, units))
    }

    /// The number of units that the supervisor follows.
    pub fn len(&self) -> (len: usize)
        ensures
            len == self@.len(),
    {
        self.outcomes.len()
    }

    /// Notes that the unit at `index` stopped for `reason`. Returns whether
    /// the report was taken: the first report of a unit stands, and a report
    /// of a unit that does not exist is ignored. No other unit's entry changes.
    pub fn record(&mut self, index: usize, reason: TerminationReason) -> (taken: bool)
        ensures
            final(self)@ == recorded(old(self)@, index as int, reason),
            taken == (index < old(self)@.len() && old(self)@[index as int] is None),
    {
        if index < self.outcomes.len() && self.outcomes[index].is_none() {
            self.outcomes.set(index, Some(reason));
            true
        } else {
            false
        }
    }

    /// Why the unit at `index` stopped, if it has stopped; `None` while it
    /// runs, and for a unit that does not exist.
    pub fn outcome(&self, index: usize) -> (outcome: Option<&TerminationReason>)
        ensures
            match outcome {
                Some(reason) => index < self@.len() && self@[index as int] == Some(*reason),
                None => index >= self@.len() || self@[index as int] is None,
            },
    {
        if index < self.outcomes.len() {
            self.outcomes[index].as_ref()
        } else {
            None
        }
    }

    /// Whether every unit has stopped: only then is the supervisor done.
    pub fn finished(&self) -> (done: bool)
        ensures
            done == all_stopped(self@),
    {
        let mut i: usize = 0;
        while i < self.outcomes.len()
            invariant
                i <= self.outcomes.len(),
                forall|j: int| 0 <= j < i ==> (#[trigger] self.outcomes@[j]) is Some,
            decreases self.outcomes.len() - i,
        {
            if self.outcomes[i].is_none() {
                return false;
            }
            i += 1;
        }
        true
    }
}

} // verus!

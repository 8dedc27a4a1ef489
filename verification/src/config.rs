//! Pair configuration: the validated record of one relay unit, and the rules
//! by which the entries of a configuration source become such records.
use crate::label::{render_positional_label, resolved_label};
use vstd::prelude::*;

verus! {

/// The flow-control limit that applies where a configuration source names none.
pub open spec fn spec_default_hwm() -> i32 {
    100_000
}

/// Default high-water mark of both directions.
#[verifier::when_used_as_spec(spec_default_hwm)]
pub fn default_hwm() -> (limit: i32)
    ensures
        limit == spec_default_hwm(),
        limit == 100_000,
{
    100_000
}

/// One relay unit's configuration.
#[derive(Debug, PartialEq, Eq)]
pub struct Pair {
    /// Optional label shown in reports.
    pub name: Option<String>,
    /// Address of the publisher-facing endpoint (publishers connect here).
    pub frontend: String,
    /// Address of the subscriber-facing endpoint (subscribers connect here).
    pub backend: String,
    /// Inbound limit: how many frames may wait to be forwarded. Zero is unbounded.
    pub xsub_rcvhwm: i32,
    /// Outbound limit: how many frames may wait to be delivered. Zero is unbounded.
    pub xpub_sndhwm: i32,
}

/// A pair as a configuration source spells it: either limit may be left out.
#[derive(Debug, PartialEq, Eq)]
pub struct PairEntry {
    /// Optional label shown in reports.
    pub name: Option<String>,
    /// Address of the publisher-facing endpoint.
    pub frontend: String,
    /// Address of the subscriber-facing endpoint.
    pub backend: String,
    /// Inbound limit, where the source names one.
    pub xsub_rcvhwm: Option<i32>,
    /// Outbound limit, where the source names one.
    pub xpub_sndhwm: Option<i32>,
}

/// The pairs that one process relays.
#[derive(Debug, PartialEq, Eq)]
pub struct Settings {
    pub pairs: Vec<Pair>,
}

/// Why a configuration was refused.
#[derive(Debug, PartialEq, Eq)]
pub enum ConfigError {
    /// The configuration source could not be read as a list of pairs.
    Load(String),
    /// The configuration source could not be reached.
    Io(String),
    /// The configuration was read and breaks a rule.
    Invalid(String),
}

/// The complaint about a configuration without pairs.
pub open spec fn no_pairs_message() -> Seq<char> {
    "no pairs defined"@
}

/// The complaint about a pair with a limit below zero.
pub open spec fn negative_limit_message() -> Seq<char> {
    "negative high-water mark"@
}

/// A limit as written, or the default where nothing was written.
pub open spec fn limit_or_default(limit: Option<i32>) -> i32 {
    match limit {
        Some(l) => l,
        None => spec_default_hwm(),
    }
}

/// The first rule that a list of pairs breaks, if it breaks any: an empty
/// list comes before a negative limit.
pub open spec fn rule_broken(pairs: Seq<Pair>) -> Option<Seq<char>> {
    if pairs.len() == 0 {
        Some(no_pairs_message())
    } else if exists|i: int| 0 <= i < pairs.len() && !(#[trigger] pairs[i]).wf() {
        Some(negative_limit_message())
    } else {
        None
    }
}

/// The pairs that a list of entries stands for, in the same order.
pub open spec fn resolved_entries(entries: Seq<PairEntry>) -> Seq<Pair> {
    Seq::new(entries.len(), |i: int| entries[i].resolved())
}

impl Pair {
    /// Both limits are counts: neither is negative.
    pub open spec fn wf(&self) -> bool {
        self.xsub_rcvhwm >= 0 && self.xpub_sndhwm >= 0
    }

    /// The label of this pair at position `index` of its list.
    pub open spec fn label_spec(&self, index: nat) -> Seq<char> {
        resolved_label(
            match self.name {
                Some(n) => Some(n@),
                None => None,
            },
            index,
        )
    }

    /// Whether both limits are counts.
    pub fn is_valid(&self) -> (valid: bool)
        ensures
            valid == self.wf(),
    {
        self.xsub_rcvhwm >= 0 && self.xpub_sndhwm >= 0
    }

    /// The label of this pair at position `index` (counted from zero) of its
    /// list: its name, or `pair-<index + 1>` where it has none.
    pub fn label(&self, index: usize) -> (label: String)
        ensures
            label@ == self.label_spec(index as nat),
    {
        match &self.name {
            Some(n) => n.clone(),
            None => render_positional_label(index),
        }
    }
}

impl Clone for Pair {
    fn clone(&self) -> (copy: Pair)
        ensures
            copy == *self,
    {
        let name = match &self.name {
            Some(n) => Some(n.clone()),
            None => None,
        };
        Pair {
            name,
            frontend: self.frontend.clone(),
            backend: self.backend.clone(),
            xsub_rcvhwm: self.xsub_rcvhwm,
            xpub_sndhwm: self.xpub_sndhwm,
        }
    }
}

impl PairEntry {
    /// The pair that this entry stands for: a limit that was left out is the default.
    pub open spec fn resolved(&self) -> Pair {
        Pair {
            name: self.name,
            frontend: self.frontend,
            backend: self.backend,
            xsub_rcvhwm: limit_or_default(self.xsub_rcvhwm),
            xpub_sndhwm: limit_or_default(self.xpub_sndhwm),
        }
    }

    /// Fills in the default for each limit that was left out.
    pub fn resolve(&self) -> (pair: Pair)
        ensures
            pair == self.resolved(),
    {
        let name = match &self.name {
            Some(n) => Some(n.clone()),
            None => None,
        };
        let xsub_rcvhwm = match self.xsub_rcvhwm {
            Some(l) => l,
            None => default_hwm(),
        };
        let xpub_sndhwm = match self.xpub_sndhwm {
            Some(l) => l,
            None => default_hwm(),
        };
        Pair {
            name,
            frontend: self.frontend.clone(),
            backend: self.backend.clone(),
            xsub_rcvhwm,
            xpub_sndhwm,
        }
    }
}

impl Settings {
    /// There is at least one pair, and no pair has a negative limit.
    pub open spec fn wf(&self) -> bool {
        rule_broken(self.pairs@) is None
    }

    /// Checks the rules on a list of pairs: `Ok` exactly when none is broken,
    /// else the complaint about the first that is.
    pub fn validate(&self) -> (outcome: Result<(), ConfigError>)
        ensures
            match outcome {
                Ok(_) => self.wf(),
                Err(e) => e matches ConfigError::Invalid(msg) && rule_broken(self.pairs@) == Some(
                    msg@,
                ),
            },
            self.pairs@.len() == 0 ==> (outcome matches Err(ConfigError::Invalid(msg)) && msg@
                == no_pairs_message()),
    {
        if self.pairs.len() == 0 {
            return Err(ConfigError::Invalid(String::from_str("no pairs defined")));
        }
        let mut i: usize = 0;
        while i < self.pairs.len()
            invariant
                i <= self.pairs.len(),
                forall|j: int| 0 <= j < i ==> (#[trigger] self.pairs@[j]).wf(),
            decreases self.pairs.len() - i,
        {
            if !self.pairs[i].is_valid() {
                return Err(ConfigError::Invalid(String::from_str("negative high-water mark")));
            }
            i += 1;
        }
        Ok(())
    }
}

impl ConfigError {
    /// The text of this error.
    pub open spec fn message_spec(&self) -> Seq<char> {
        match self {
            ConfigError::Load(detail) => "configuration load error: "@ + detail@,
            ConfigError::Io(detail) => "io error: "@ + detail@,
            ConfigError::Invalid(detail) => "invalid configuration: "@ + detail@,
        }
    }

    /// The text of this error: what kind it is, then its detail.
    pub fn message(&self) -> (text: String)
        ensures
            text@ == self.message_spec(),
    {
        match self {
            ConfigError::Load(detail) => {
                let mut text = String::from_str("configuration load error: ");
                text.append(detail.as_str());
                text
            },
            ConfigError::Io(detail) => {
                let mut text = String::from_str("io error: ");
                text.append(detail.as_str());
                text
            },
            ConfigError::Invalid(detail) => {
                let mut text = String::from_str("invalid configuration: ");
                text.append(detail.as_str());
                text
            },
        }
    }
}

/// A limit that a configuration source leaves out is 100,000, in either
/// direction; a limit that it names is taken as named.
pub proof fn lemma_omitted_limits_are_defaults(entry: PairEntry)
    ensures
        entry.xsub_rcvhwm is None ==> entry.resolved().xsub_rcvhwm == 100_000,
        entry.xpub_sndhwm is None ==> entry.resolved().xpub_sndhwm == 100_000,
        entry.xsub_rcvhwm matches Some(limit) ==> entry.resolved().xsub_rcvhwm == limit,
        entry.xpub_sndhwm matches Some(limit) ==> entry.resolved().xpub_sndhwm == limit,
        entry.resolved().name == entry.name,
        entry.resolved().frontend == entry.frontend,
        entry.resolved().backend == entry.backend,
{
}

/// A list without pairs is refused as such, whatever else is checked; a
/// list with pairs is refused exactly when one of them has a negative limit.
pub proof fn lemma_rules(pairs: Seq<Pair>)
    ensures
        pairs.len() == 0 ==> rule_broken(pairs) == Some(no_pairs_message()),
        rule_broken(pairs) is None <==> pairs.len() > 0 && forall|i: int|
            0 <= i < pairs.len() ==> (#[trigger] pairs[i]).wf(),
{
}

/// Turns the entries of a configuration source into settings: every limit
/// that was left out becomes the default, and the list is held to the rules.
pub fn load_settings_from(entries: Vec<PairEntry>) -> (outcome: Result<Settings, ConfigError>)
    ensures
        match outcome {
            Ok(settings) => settings.pairs@ == resolved_entries(entries@) && settings.wf(),
            Err(e) => e matches ConfigError::Invalid(msg) && rule_broken(
                resolved_entries(entries@),
            ) == Some(msg@),
        },
        entries@.len() == 0 ==> (outcome matches Err(ConfigError::Invalid(msg)) && msg@
            == no_pairs_message()),
{
    let mut pairs: Vec<Pair> = Vec::new();
    let mut i: usize = 0;
    while i < entries.len()
        invariant
            i <= entries.len(),
            pairs@ == resolved_entries(entries@).subrange(0, i as int),
        decreases entries.len() - i,
    {
        pairs.push(entries[i].resolve());
        i += 1;
    }
    let settings = Settings { pairs };
    match settings.validate() {
        Ok(_) => Ok(settings),
        Err(e) => Err(e),
    }
}

} // verus!

//! Anchor construction.
//!
//! [`AnchorBuilder`] collects what an anchor binds: the delegation it acts
//! under, state entries built with [`StateBinding`]'s constructors, a
//! freshness window and a contingency. Defaults: a 5-minute window and the
//! abort contingency. The result is an [`AnchorDraft`], the anchor's whole
//! content, which the agent's signer then signs.

use std::time::Duration;

use vstd::prelude::*;

use crate::protocol::{Contingency, HashAlgorithm, ObjectId, StateEntry};
use crate::time::{duration_from_secs, duration_secs, secs_of};

verus! {

/// The staleness window of a new anchor builder, in seconds.
pub const DEFAULT_MAX_STALENESS_SECS: u64 = 300;

/// Model of a [`StateEntry`].
pub struct StateEntryModel {
    pub source_uri: Seq<char>,
    pub state_hash: Seq<u8>,
    pub hash_alg: HashAlgorithm,
    pub label: Seq<char>,
}

impl View for StateEntry {
    type V = StateEntryModel;

    open spec fn view(&self) -> StateEntryModel {
        StateEntryModel {
            source_uri: self.source_uri@,
            state_hash: self.state_hash@,
            hash_alg: self.hash_alg,
            label: self.label@,
        }
    }
}

impl DeepView for StateEntry {
    type V = StateEntryModel;

    open spec fn deep_view(&self) -> StateEntryModel {
        self@
    }
}

/// The content of an anchor, ready for the agent's signature.
#[derive(Debug)]
pub struct AnchorDraft {
    pub delegation_id: ObjectId,
    pub state_entries: Vec<StateEntry>,
    /// The freshness window, in seconds.
    pub max_staleness: u64,
    pub contingency: Contingency,
    /// The creation time, when pinned; otherwise the signer's clock sets it.
    pub created_at: Option<u64>,
}

/// Model of an [`AnchorDraft`], and of the settings of an
/// [`AnchorBuilder`].
pub struct AnchorModel {
    pub delegation_id: ObjectId,
    pub state_entries: Seq<StateEntryModel>,
    pub max_staleness: u64,
    pub contingency: Contingency,
    pub created_at: Option<u64>,
}

impl View for AnchorDraft {
    type V = AnchorModel;

    open spec fn view(&self) -> AnchorModel {
        AnchorModel {
            delegation_id: self.delegation_id,
            state_entries: self.state_entries.deep_view(),
            max_staleness: self.max_staleness,
            contingency: self.contingency,
            created_at: self.created_at,
        }
    }
}

/// Fluent builder for an anchor.
#[derive(Debug)]
pub struct AnchorBuilder {
    delegation_id: ObjectId,
    state_entries: Vec<StateEntry>,
    max_staleness: Duration,
    contingency: Contingency,
    created_at: Option<u64>,
}

impl View for AnchorBuilder {
    type V = AnchorModel;

    closed spec fn view(&self) -> AnchorModel {
        AnchorModel {
            delegation_id: self.delegation_id,
            state_entries: self.state_entries.deep_view(),
            max_staleness: duration_secs(self.max_staleness),
            contingency: self.contingency,
            created_at: self.created_at,
        }
    }
}

impl AnchorBuilder {
    /// Starts an anchor under the delegation `delegation_id`: no state, a
    /// 300-second window, the abort contingency, creation time unpinned.
    pub fn new(delegation_id: ObjectId) -> (b: Self)
        ensures
            b@ == (AnchorModel {
                delegation_id,
                state_entries: Seq::empty(),
                max_staleness: DEFAULT_MAX_STALENESS_SECS,
                contingency: Contingency::Abort,
                created_at: None,
            }),
    {
        let b = AnchorBuilder {
            delegation_id,
            state_entries: Vec::new(),
            max_staleness: duration_from_secs(DEFAULT_MAX_STALENESS_SECS),
            contingency: Contingency::Abort,
            created_at: None,
        };
        proof {
            assert(b@.state_entries =~= Seq::<StateEntryModel>::empty());
        }
        b
    }

    /// Adds a state binding after those already added.
    pub fn add_state(self, binding: StateBinding) -> (b: Self)
        ensures
            b@ == (AnchorModel { state_entries: self@.state_entries.push(binding.0@), ..self@ }),
    {
        let mut entries = self.state_entries;
        let ghost before = entries.deep_view();
        entries.push(binding.0);
        let b = AnchorBuilder { state_entries: entries, ..self };
        proof {
            assert(b@.state_entries =~= before.push(binding.0@));
        }
        b
    }

    /// Replaces the state entries.
    pub fn state_entries(self, entries: Vec<StateEntry>) -> (b: Self)
        ensures
            b@ == (AnchorModel { state_entries: entries.deep_view(), ..self@ }),
    {
        AnchorBuilder { state_entries: entries, ..self }
    }

    /// Sets the staleness window, kept in whole seconds.
    pub fn max_staleness(self, max: Duration) -> (b: Self)
        ensures
            b@ == (AnchorModel { max_staleness: duration_secs(max), ..self@ }),
    {
        AnchorBuilder { max_staleness: max, ..self }
    }

    /// Sets what the resource should do if the referenced state changed.
    pub fn contingency(self, contingency: Contingency) -> (b: Self)
        ensures
            b@ == (AnchorModel { contingency, ..self@ }),
    {
        AnchorBuilder { contingency, ..self }
    }

    /// Pins the creation time to the Unix second `t`.
    pub fn created_at(self, t: u64) -> (b: Self)
        ensures
            b@ == (AnchorModel { created_at: Some(t), ..self@ }),
    {
        AnchorBuilder { created_at: Some(t), ..self }
    }

    /// The anchor's content, with every setting.
    pub fn build(self) -> (d: AnchorDraft)
        ensures
            d@ == self@,
    {
        AnchorDraft {
            delegation_id: self.delegation_id,
            state_entries: self.state_entries,
            max_staleness: secs_of(self.max_staleness),
            contingency: self.contingency,
            created_at: self.created_at,
        }
    }
}

/// A state entry, with constructors for the common binding patterns.
#[derive(Debug)]
pub struct StateBinding(pub StateEntry);

impl StateBinding {
    /// Binds to the URL `source_uri` whose content hashes to `state_hash`
    /// under SHA-256.
    pub fn url_hash(source_uri: &str, state_hash: Vec<u8>, label: &str) -> (b: Self)
        ensures
            b.0@ == (StateEntryModel {
                source_uri: source_uri@,
                state_hash: state_hash@,
                hash_alg: HashAlgorithm::Sha256,
                label: label@,
            }),
    {
        StateBinding(
            StateEntry {
                source_uri: source_uri.to_owned(),
                state_hash,
                hash_alg: HashAlgorithm::Sha256,
                label: label.to_owned(),
            },
        )
    }

    /// Binds to a labelled piece of state with a precomputed SHA-256 hash;
    /// no source URI.
    pub fn content_hash(label: &str, hash: Vec<u8>) -> (b: Self)
        ensures
            b.0@ == (StateEntryModel {
                source_uri: Seq::empty(),
                state_hash: hash@,
                hash_alg: HashAlgorithm::Sha256,
                label: label@,
            }),
    {
        StateBinding(
            StateEntry {
                source_uri: String::new(),
                state_hash: hash,
                hash_alg: HashAlgorithm::Sha256,
                label: label.to_owned(),
            },
        )
    }

    /// Uses the hash algorithm `alg` instead of SHA-256.
    pub fn with_hash_alg(self, alg: HashAlgorithm) -> (b: Self)
        ensures
            b.0@ == (StateEntryModel { hash_alg: alg, ..self.0@ }),
    {
        let mut e = self.0;
        e.hash_alg = alg;
        StateBinding(e)
    }
}

} // verus!

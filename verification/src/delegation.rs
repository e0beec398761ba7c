//! Delegation issuance, acceptance and storage.
//!
//! - [`DelegationStore`]: where an agent keeps the delegation it currently
//!   operates under; [`MemoryDelegationStore`] keeps it in memory.
//! - [`DelegationBuilder`]: composes a top-level delegation from a scope, a
//!   constraint set and a validity window.
//! - [`SubDelegationBuilder`]: composes a child delegation that attenuates
//!   a parent.
//! - [`accept_delegation`]: checks an inbound delegation before it is
//!   stored.
//!
//! The builders produce a [`DelegationDraft`], the complete content of the
//! delegation; the principal's signature over it is made by the protocol
//! library's signer.

use std::time::Duration;

use vstd::prelude::*;

use crate::constraints::{Constraint, ConstraintModel, ConstraintSet};
use crate::error::SdkError;
use crate::protocol::{
    Delegation, DelegationModel, ObjectId, PublicKey, PublicKeyModel, ScopeExpr, ScopeModel,
};
use crate::text::{decimal, push_decimal};
use crate::time::{duration_secs, secs_of, Clock, SystemClock};

verus! {

/// Persistent store for the delegation an agent currently operates under.
///
/// Atomicity: once `set` returns `Ok`, `current` observes the new
/// delegation.
pub trait DelegationStore {
    /// The delegation held, if any.
    spec fn stored(&self) -> Option<DelegationModel>;

    /// The delegation held, if any.
    fn current(&self) -> (r: Result<Option<Delegation>, SdkError>)
        ensures
            r matches Ok(d) ==> d.deep_view() == self.stored(),
    ;

    /// Replaces the delegation held by `delegation`.
    fn set(&mut self, delegation: Delegation) -> (r: Result<(), SdkError>)
        ensures
            r is Ok ==> final(self).stored() == Some(delegation@),
    ;

    /// Forgets the delegation held.
    fn clear(&mut self) -> (r: Result<(), SdkError>)
        ensures
            r is Ok ==> final(self).stored() is None,
    ;
}

/// In-memory delegation store.
#[derive(Debug)]
pub struct MemoryDelegationStore {
    inner: Option<Delegation>,
}

impl MemoryDelegationStore {
    /// An empty store.
    pub fn new() -> (s: Self)
        ensures
            s.stored() is None,
    {
        MemoryDelegationStore { inner: None }
    }
}

impl Default for MemoryDelegationStore {
    fn default() -> (s: Self)
        ensures
            s.stored() is None,
    {
        MemoryDelegationStore::new()
    }
}

impl DelegationStore for MemoryDelegationStore {
    closed spec fn stored(&self) -> Option<DelegationModel> {
        self.inner.deep_view()
    }

    /// Never fails.
    fn current(&self) -> (r: Result<Option<Delegation>, SdkError>)
        ensures
            r is Ok,
    {
        match &self.inner {
            Some(d) => Ok(Some(d.clone())),
            None => Ok(None),
        }
    }

    /// Never fails.
    fn set(&mut self, delegation: Delegation) -> (r: Result<(), SdkError>)
        ensures
            r is Ok,
    {
        self.inner = Some(delegation);
        Ok(())
    }

    /// Never fails.
    fn clear(&mut self) -> (r: Result<(), SdkError>)
        ensures
            r is Ok,
    {
        self.inner = None;
        Ok(())
    }
}

/// The complete content of a delegation, ready for the issuer's signature.
#[derive(Debug)]
pub struct DelegationDraft {
    pub agent: PublicKey,
    pub scope: ScopeExpr,
    pub constraints: Vec<Constraint>,
    pub not_before: Option<u64>,
    pub not_after: Option<u64>,
    pub max_depth: Option<u8>,
    /// The parent's identifier, for a sub-delegation.
    pub parent_id: Option<ObjectId>,
    /// The root-to-parent chain, for a sub-delegation.
    pub parent_chain: Vec<Delegation>,
}

/// Model of a [`DelegationDraft`].
pub struct DelegationDraftModel {
    pub agent: PublicKeyModel,
    pub scope: ScopeModel,
    pub constraints: Seq<ConstraintModel>,
    pub not_before: Option<u64>,
    pub not_after: Option<u64>,
    pub max_depth: Option<u8>,
    pub parent_id: Option<ObjectId>,
    pub parent_chain: Seq<DelegationModel>,
}

impl View for DelegationDraft {
    type V = DelegationDraftModel;

    open spec fn view(&self) -> DelegationDraftModel {
        DelegationDraftModel {
            agent: self.agent@,
            scope: self.scope@,
            constraints: self.constraints.deep_view(),
            not_before: self.not_before,
            not_after: self.not_after,
            max_depth: self.max_depth,
            parent_id: self.parent_id,
            parent_chain: self.parent_chain.deep_view(),
        }
    }
}

/// The settings a delegation builder has collected.
pub struct BuilderModel {
    pub agent: PublicKeyModel,
    pub scope: Option<ScopeModel>,
    pub constraints: Option<Seq<ConstraintModel>>,
    pub not_before: Option<u64>,
    pub not_after: Option<u64>,
    pub max_depth: Option<u8>,
}

/// The model of an optional scope.
pub open spec fn scope_model(s: Option<ScopeExpr>) -> Option<ScopeModel> {
    match s {
        Some(x) => Some(x@),
        None => None,
    }
}

/// The model of an optional constraint set.
pub open spec fn constraints_model(c: Option<ConstraintSet>) -> Option<Seq<ConstraintModel>> {
    match c {
        Some(x) => Some(x@),
        None => None,
    }
}

/// The constraints a builder hands on: those set, or none.
pub open spec fn constraints_or_empty(c: Option<Seq<ConstraintModel>>) -> Seq<ConstraintModel> {
    match c {
        Some(x) => x,
        None => Seq::empty(),
    }
}

/// The end of a validity window of `secs` seconds that starts at `now`;
/// a window that would end after the last representable second ends there.
pub open spec fn window_end(now: u64, secs: u64) -> u64 {
    if now + secs > u64::MAX {
        u64::MAX
    } else {
        (now + secs) as u64
    }
}

fn window_end_exec(now: u64, secs: u64) -> (e: u64)
    ensures
        e == window_end(now, secs),
{
    if now > u64::MAX - secs {
        u64::MAX
    } else {
        now + secs
    }
}

/// The constraints of `c`, or none when no set was given.
fn constraint_vec(c: Option<ConstraintSet>) -> (v: Vec<Constraint>)
    ensures
        v.deep_view() == constraints_or_empty(constraints_model(c)),
{
    match c {
        Some(cs) => cs.into_vec(),
        None => {
            let v: Vec<Constraint> = Vec::new();
            proof {
                assert(v.deep_view() =~= Seq::<ConstraintModel>::empty());
            }
            v
        },
    }
}

/// The error of a builder that was given no scope.
fn scope_required() -> (e: SdkError)
    ensures
        e matches SdkError::Config(m) && m@ == "scope is required"@,
{
    SdkError::Config(String::from_str("scope is required"))
}

/// Fluent builder for a top-level delegation.
#[derive(Debug)]
pub struct DelegationBuilder {
    agent: PublicKey,
    scope: Option<ScopeExpr>,
    constraints: Option<ConstraintSet>,
    not_before: Option<u64>,
    not_after: Option<u64>,
    max_depth: Option<u8>,
}

impl View for DelegationBuilder {
    type V = BuilderModel;

    closed spec fn view(&self) -> BuilderModel {
        BuilderModel {
            agent: self.agent@,
            scope: scope_model(self.scope),
            constraints: constraints_model(self.constraints),
            not_before: self.not_before,
            not_after: self.not_after,
            max_depth: self.max_depth,
        }
    }
}

impl DelegationBuilder {
    /// Starts a delegation for the agent with public key `agent`.
    pub fn new(agent: PublicKey) -> (b: Self)
        ensures
            b@ == (BuilderModel {
                agent: agent@,
                scope: None,
                constraints: None,
                not_before: None,
                not_after: None,
                max_depth: None,
            }),
    {
        DelegationBuilder {
            agent,
            scope: None,
            constraints: None,
            not_before: None,
            not_after: None,
            max_depth: None,
        }
    }

    /// Sets the scope expression. Required.
    pub fn scope(self, scope: ScopeExpr) -> (b: Self)
        ensures
            b@ == (BuilderModel { scope: Some(scope@), ..self@ }),
    {
        DelegationBuilder { scope: Some(scope), ..self }
    }

    /// Sets the constraint set. None given means no constraints.
    pub fn constraints(self, constraints: ConstraintSet) -> (b: Self)
        ensures
            b@ == (BuilderModel { constraints: Some(constraints@), ..self@ }),
    {
        DelegationBuilder { constraints: Some(constraints), ..self }
    }

    /// Sets `not_before` to the Unix second `t`.
    pub fn not_before(self, t: u64) -> (b: Self)
        ensures
            b@ == (BuilderModel { not_before: Some(t), ..self@ }),
    {
        DelegationBuilder { not_before: Some(t), ..self }
    }

    /// Sets `not_after` to the Unix second `t`.
    pub fn not_after(self, t: u64) -> (b: Self)
        ensures
            b@ == (BuilderModel { not_after: Some(t), ..self@ }),
    {
        DelegationBuilder { not_after: Some(t), ..self }
    }

    /// Sets `not_before = now` and `not_after = now + duration`, for the
    /// Unix second `now`.
    pub fn valid_for_at(self, now: u64, duration: Duration) -> (b: Self)
        ensures
            b@ == (BuilderModel {
                not_before: Some(now),
                not_after: Some(window_end(now, duration_secs(duration))),
                ..self@
            }),
    {
        let end = window_end_exec(now, secs_of(duration));
        DelegationBuilder { not_before: Some(now), not_after: Some(end), ..self }
    }

    /// Sets `not_before = now` and `not_after = now + duration`, reading
    /// `now` from the system clock.
    pub fn valid_for(self, duration: Duration) -> (b: Self)
        ensures
            exists|now: u64|
                b@ == (BuilderModel {
                    not_before: Some(now),
                    not_after: Some(#[trigger] window_end(now, duration_secs(duration))),
                    ..self@
                }),
    {
        let now = SystemClock.now();
        self.valid_for_at(now, duration)
    }

    /// Sets the maximum sub-delegation depth.
    pub fn max_depth(self, depth: u8) -> (b: Self)
        ensures
            b@ == (BuilderModel { max_depth: Some(depth), ..self@ }),
    {
        DelegationBuilder { max_depth: Some(depth), ..self }
    }

    /// The delegation's content: fails with a configuration error when no
    /// scope was set; otherwise carries every setting, no constraints when
    /// none were set.
    pub fn build(self) -> (r: Result<DelegationDraft, SdkError>)
        ensures
            match self@.scope {
                None => r matches Err(SdkError::Config(m)) && m@ == "scope is required"@,
                Some(scope) => r matches Ok(d) && d@ == (DelegationDraftModel {
                    agent: self@.agent,
                    scope,
                    constraints: constraints_or_empty(self@.constraints),
                    not_before: self@.not_before,
                    not_after: self@.not_after,
                    max_depth: self@.max_depth,
                    parent_id: None,
                    parent_chain: Seq::empty(),
                }),
            },
    {
        let scope = match self.scope {
            Some(s) => s,
            None => {
                return Err(scope_required());
            },
        };
        let constraints = constraint_vec(self.constraints);
        let parent_chain: Vec<Delegation> = Vec::new();
        proof {
            assert(parent_chain.deep_view() =~= Seq::<DelegationModel>::empty());
        }
        Ok(
            DelegationDraft {
                agent: self.agent,
                scope,
                constraints,
                not_before: self.not_before,
                not_after: self.not_after,
                max_depth: self.max_depth,
                parent_id: None,
                parent_chain,
            },
        )
    }
}

/// Fluent builder for a sub-delegation, which must attenuate its parent.
#[derive(Debug)]
pub struct SubDelegationBuilder {
    parent: Delegation,
    parent_chain: Vec<Delegation>,
    sub_agent: PublicKey,
    scope: Option<ScopeExpr>,
    constraints: Option<ConstraintSet>,
    not_before: Option<u64>,
    not_after: Option<u64>,
    max_depth: Option<u8>,
}

impl View for SubDelegationBuilder {
    type V = BuilderModel;

    closed spec fn view(&self) -> BuilderModel {
        BuilderModel {
            agent: self.sub_agent@,
            scope: scope_model(self.scope),
            constraints: constraints_model(self.constraints),
            not_before: self.not_before,
            not_after: self.not_after,
            max_depth: self.max_depth,
        }
    }
}

impl SubDelegationBuilder {
    /// The immediate parent.
    pub closed spec fn parent(&self) -> DelegationModel {
        self.parent@
    }

    /// The root-to-parent chain.
    pub closed spec fn parent_chain(&self) -> Seq<DelegationModel> {
        self.parent_chain.deep_view()
    }

    /// Starts a sub-delegation of `parent` (whose root-to-parent chain,
    /// parent included, is `parent_chain`) for the agent `sub_agent`.
    pub fn new(parent: Delegation, parent_chain: Vec<Delegation>, sub_agent: PublicKey) -> (b: Self)
        ensures
            b@ == (BuilderModel {
                agent: sub_agent@,
                scope: None,
                constraints: None,
                not_before: None,
                not_after: None,
                max_depth: None,
            }),
            b.parent() == parent@,
            b.parent_chain() == parent_chain.deep_view(),
    {
        SubDelegationBuilder {
            parent,
            parent_chain,
            sub_agent,
            scope: None,
            constraints: None,
            not_before: None,
            not_after: None,
            max_depth: None,
        }
    }

    /// Sets the scope expression.
    pub fn scope(self, scope: ScopeExpr) -> (b: Self)
        ensures
            b@ == (BuilderModel { scope: Some(scope@), ..self@ }),
            b.parent() == self.parent(),
            b.parent_chain() == self.parent_chain(),
    {
        SubDelegationBuilder { scope: Some(scope), ..self }
    }

    /// Sets the constraint set.
    pub fn constraints(self, constraints: ConstraintSet) -> (b: Self)
        ensures
            b@ == (BuilderModel { constraints: Some(constraints@), ..self@ }),
            b.parent() == self.parent(),
            b.parent_chain() == self.parent_chain(),
    {
        SubDelegationBuilder { constraints: Some(constraints), ..self }
    }

    /// Sets `not_before` to the Unix second `t`.
    pub fn not_before(self, t: u64) -> (b: Self)
        ensures
            b@ == (BuilderModel { not_before: Some(t), ..self@ }),
            b.parent() == self.parent(),
            b.parent_chain() == self.parent_chain(),
    {
        SubDelegationBuilder { not_before: Some(t), ..self }
    }

    /// Sets `not_after` to the Unix second `t`.
    pub fn not_after(self, t: u64) -> (b: Self)
        ensures
            b@ == (BuilderModel { not_after: Some(t), ..self@ }),
            b.parent() == self.parent(),
            b.parent_chain() == self.parent_chain(),
    {
        SubDelegationBuilder { not_after: Some(t), ..self }
    }

    /// Sets `not_before = now` and `not_after = now + duration`, for the
    /// Unix second `now`.
    pub fn valid_for_at(self, now: u64, duration: Duration) -> (b: Self)
        ensures
            b@ == (BuilderModel {
                not_before: Some(now),
                not_after: Some(window_end(now, duration_secs(duration))),
                ..self@
            }),
            b.parent() == self.parent(),
            b.parent_chain() == self.parent_chain(),
    {
        let end = window_end_exec(now, secs_of(duration));
        SubDelegationBuilder { not_before: Some(now), not_after: Some(end), ..self }
    }

    /// Sets `not_before = now` and `not_after = now + duration`, reading
    /// `now` from the system clock.
    pub fn valid_for(self, duration: Duration) -> (b: Self)
        ensures
            exists|now: u64|
                b@ == (BuilderModel {
                    not_before: Some(now),
                    not_after: Some(#[trigger] window_end(now, duration_secs(duration))),
                    ..self@
                }),
            b.parent() == self.parent(),
            b.parent_chain() == self.parent_chain(),
    {
        let now = SystemClock.now();
        self.valid_for_at(now, duration)
    }

    /// Sets the maximum sub-delegation depth.
    pub fn max_depth(self, depth: u8) -> (b: Self)
        ensures
            b@ == (BuilderModel { max_depth: Some(depth), ..self@ }),
            b.parent() == self.parent(),
            b.parent_chain() == self.parent_chain(),
    {
        SubDelegationBuilder { max_depth: Some(depth), ..self }
    }

    /// Takes the parent's scope and constraints where none were set; what
    /// was set stays.
    pub fn inherit_from_parent(self) -> (b: Self)
        ensures
            b@ == (BuilderModel {
                scope: match self@.scope {
                    Some(s) => Some(s),
                    None => Some(self.parent().scope),
                },
                constraints: match self@.constraints {
                    Some(c) => Some(c),
                    None => Some(self.parent().constraints),
                },
                ..self@
            }),
            b.parent() == self.parent(),
            b.parent_chain() == self.parent_chain(),
    {
        let mut b = self;
        if b.scope.is_none() {
            b.scope = Some(b.parent.scope.clone());
        }
        if b.constraints.is_none() {
            let mut cs = ConstraintSet::new();
            let mut k: usize = 0;
            while k < b.parent.constraints.len()
                invariant
                    k <= b.parent.constraints@.len(),
                    cs@ == b.parent.constraints.deep_view().take(k as int),
                decreases b.parent.constraints@.len() - k,
            {
                let c = b.parent.constraints[k].clone();
                cs = cs.add_raw(c);
                k = k + 1;
                proof {
                    assert(cs@ =~= b.parent.constraints.deep_view().take(k as int));
                }
            }
            proof {
                assert(b.parent.constraints.deep_view().take(k as int)
                    =~= b.parent.constraints.deep_view());
            }
            b.constraints = Some(cs);
        }
        b
    }

    /// The sub-delegation's content: fails with a configuration error when
    /// no scope was set; otherwise carries every setting, no constraints
    /// when none were set, and the parent's identifier and chain.
    pub fn build(self) -> (r: Result<DelegationDraft, SdkError>)
        ensures
            match self@.scope {
                None => r matches Err(SdkError::Config(m)) && m@ == "scope is required"@,
                Some(scope) => r matches Ok(d) && d@ == (DelegationDraftModel {
                    agent: self@.agent,
                    scope,
                    constraints: constraints_or_empty(self@.constraints),
                    not_before: self@.not_before,
                    not_after: self@.not_after,
                    max_depth: self@.max_depth,
                    parent_id: Some(self.parent().id),
                    parent_chain: self.parent_chain(),
                }),
            },
    {
        let scope = match self.scope {
            Some(s) => s,
            None => {
                return Err(scope_required());
            },
        };
        let constraints = constraint_vec(self.constraints);
        Ok(
            DelegationDraft {
                agent: self.sub_agent,
                scope,
                constraints,
                not_before: self.not_before,
                not_after: self.not_after,
                max_depth: self.max_depth,
                parent_id: Some(self.parent.id),
                parent_chain: self.parent_chain,
            },
        )
    }
}

/// Checks an inbound delegation at the Unix second `now`, given
/// `signature`, the outcome of verifying the delegation's signature:
///
/// 1. its agent key bytes must be the recipient's (a configuration error
///    otherwise);
/// 2. it must not have expired, `not_after > now` (a protocol error
///    otherwise);
/// 3. its signature must verify (a crypto error otherwise).
///
/// On success the delegation is safe to store.
pub fn accept_delegation(
    delegation: &Delegation,
    recipient_pubkey: &PublicKey,
    now: u64,
    signature: Result<(), String>,
) -> (r: Result<(), SdkError>)
    ensures
        delegation.agent.key_data@ != recipient_pubkey.key_data@ ==> (r matches Err(
            SdkError::Config(m),
        ) && m@ == "delegation agent pubkey does not match recipient identity"@),
        delegation.agent.key_data@ == recipient_pubkey.key_data@ && delegation.not_after <= now
            ==> (r matches Err(SdkError::Protocol(m)) && m@
            == "delegation has already expired (not_after="@ + decimal(delegation.not_after as nat)
            + ", now="@ + decimal(now as nat) + ")"@),
        delegation.agent.key_data@ == recipient_pubkey.key_data@ && delegation.not_after > now
            ==> match signature {
            Ok(()) => r is Ok,
            Err(e) => r matches Err(SdkError::Crypto(m)) && m@ == "delegation signature invalid: "@
                + e@,
        },
{
    if !crate::validator::pubkey_constant_time_eq(
        delegation.agent.key_data.as_slice(),
        recipient_pubkey.key_data.as_slice(),
    ) {
        return Err(
            SdkError::Config(
                String::from_str("delegation agent pubkey does not match recipient identity"),
            ),
        );
    }
    if delegation.not_after <= now {
        let mut m = String::from_str("delegation has already expired (not_after=");
        push_decimal(&mut m, delegation.not_after);
        m.append(", now=");
        push_decimal(&mut m, now);
        m.append(")");
        return Err(SdkError::Protocol(m));
    }
    match signature {
        Ok(()) => Ok(()),
        Err(e) => {
            let mut m = String::from_str("delegation signature invalid: ");
            m.append(e.as_str());
            Err(SdkError::Crypto(m))
        },
    }
}

} // verus!

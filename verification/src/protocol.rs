//! The protocol's data model: identifiers, keys, scope expressions, state
//! entries, delegations, actions and receipts, held as plain values.
//!
//! Each type whose fields hold vectors or strings has a mathematical model
//! (its view) in which strings are character sequences and byte buffers are
//! byte sequences; contracts compare values through these models.

use vstd::prelude::*;

use crate::constraints::{clone_constraints, Constraint, ConstraintModel};

verus! {

/// A 32-byte object identifier (delegations, anchors, receipts).
#[derive(Debug, Clone, Copy, PartialEq, Eq)]
pub struct ObjectId(pub [u8; 32]);

impl ObjectId {
    /// The all-zero identifier.
    pub fn zero() -> (id: ObjectId)
        ensures
            forall|i: int| 0 <= i < 32 ==> #[trigger] id.0@[i] == 0u8,
    {
        ObjectId([0u8; 32])
    }
}

/// Signature algorithms the protocol knows.
#[derive(Debug, Clone, Copy, PartialEq, Eq, Structural)]
pub enum SignatureAlgorithm {
    Ed25519,
}

/// Hash algorithms a state entry may name.
#[derive(Debug, Clone, Copy, PartialEq, Eq, Structural)]
pub enum HashAlgorithm {
    Sha256,
    Sha384,
    Sha512,
}

/// What a resource should do when the state an anchor refers to changed.
#[derive(Debug, Clone, Copy, PartialEq, Eq, Structural)]
pub enum Contingency {
    Abort,
    Retry,
    Proceed,
}

/// A public key: its algorithm and raw key bytes.
#[derive(Debug, PartialEq, Eq)]
pub struct PublicKey {
    pub algorithm: SignatureAlgorithm,
    pub key_data: Vec<u8>,
}

/// Model of a [`PublicKey`].
pub struct PublicKeyModel {
    pub algorithm: SignatureAlgorithm,
    pub key_data: Seq<u8>,
}

impl View for PublicKey {
    type V = PublicKeyModel;

    open spec fn view(&self) -> PublicKeyModel {
        PublicKeyModel { algorithm: self.algorithm, key_data: self.key_data@ }
    }
}

impl DeepView for PublicKey {
    type V = PublicKeyModel;

    open spec fn deep_view(&self) -> PublicKeyModel {
        self@
    }
}

impl Clone for PublicKey {
    fn clone(&self) -> (r: Self)
        ensures
            r@ == self@,
    {
        let key_data = self.key_data.clone();
        proof {
            assert(key_data@ =~= self.key_data@);
        }
        PublicKey { algorithm: self.algorithm, key_data }
    }
}

/// A scope expression: the atoms granted and the atoms carved out of the
/// grant.
#[derive(Debug, PartialEq, Eq)]
pub struct ScopeExpr {
    pub grant: Vec<String>,
    pub deny: Vec<String>,
}

/// Model of a [`ScopeExpr`].
pub struct ScopeModel {
    pub grant: Seq<Seq<char>>,
    pub deny: Seq<Seq<char>>,
}

impl View for ScopeExpr {
    type V = ScopeModel;

    open spec fn view(&self) -> ScopeModel {
        ScopeModel { grant: self.grant.deep_view(), deny: self.deny.deep_view() }
    }
}

impl DeepView for ScopeExpr {
    type V = ScopeModel;

    open spec fn deep_view(&self) -> ScopeModel {
        self@
    }
}

/// Clones a vector of strings, keeping every string.
pub fn clone_strings(v: &Vec<String>) -> (r: Vec<String>)
    ensures
        r.deep_view() == v.deep_view(),
{
    let r = v.clone();
    proof {
        assert(r.deep_view() =~= v.deep_view());
    }
    r
}

impl Clone for ScopeExpr {
    fn clone(&self) -> (r: Self)
        ensures
            r@ == self@,
    {
        ScopeExpr { grant: clone_strings(&self.grant), deny: clone_strings(&self.deny) }
    }
}

impl ScopeExpr {
    /// A scope that grants `grant` and denies nothing.
    pub fn new(grant: Vec<String>) -> (s: Self)
        ensures
            s.grant@ == grant@,
            s.deny@.len() == 0,
    {
        ScopeExpr { grant, deny: Vec::new() }
    }
}

/// A monetary commitment: `amount` units of `currency` with `decimals`
/// digits after the point (`12345` with `2` decimals is 123.45).
#[derive(Debug, PartialEq, Eq)]
pub struct ValueClaim {
    pub currency: String,
    pub amount: u64,
    pub decimals: u8,
}

/// Model of a [`ValueClaim`].
pub struct ValueClaimModel {
    pub currency: Seq<char>,
    pub amount: u64,
    pub decimals: u8,
}

impl View for ValueClaim {
    type V = ValueClaimModel;

    open spec fn view(&self) -> ValueClaimModel {
        ValueClaimModel { currency: self.currency@, amount: self.amount, decimals: self.decimals }
    }
}

impl Clone for ValueClaim {
    fn clone(&self) -> (r: Self)
        ensures
            r@ == self@,
    {
        ValueClaim { currency: self.currency.clone(), amount: self.amount, decimals: self.decimals }
    }
}

/// A piece of external state an anchor binds to.
#[derive(Debug, PartialEq, Eq)]
pub struct StateEntry {
    pub source_uri: String,
    pub state_hash: Vec<u8>,
    pub hash_alg: HashAlgorithm,
    pub label: String,
}

/// The action a receipt records.
#[derive(Debug, PartialEq, Eq)]
pub struct Action {
    pub scope_used: String,
    pub description: String,
    pub value: Vec<u8>,
}

/// A receipt the gateway issued for an authorized action.
#[derive(Debug, PartialEq, Eq)]
pub struct Receipt {
    pub id: ObjectId,
    pub executor: PublicKey,
    pub delegation_id: ObjectId,
    pub anchor_id: ObjectId,
    pub action: Action,
    pub executed_at: u64,
    pub signature: Vec<u8>,
}

/// A signed delegation of authority from an issuer to an agent.
#[derive(Debug, PartialEq, Eq)]
pub struct Delegation {
    pub id: ObjectId,
    pub issuer: PublicKey,
    pub agent: PublicKey,
    pub scope: ScopeExpr,
    pub constraints: Vec<Constraint>,
    pub not_before: u64,
    pub not_after: u64,
    pub max_depth: Option<u8>,
    pub parent_id: Option<ObjectId>,
    pub signature: Vec<u8>,
}

/// Model of a [`Delegation`].
pub struct DelegationModel {
    pub id: ObjectId,
    pub issuer: PublicKeyModel,
    pub agent: PublicKeyModel,
    pub scope: ScopeModel,
    pub constraints: Seq<ConstraintModel>,
    pub not_before: u64,
    pub not_after: u64,
    pub max_depth: Option<u8>,
    pub parent_id: Option<ObjectId>,
    pub signature: Seq<u8>,
}

impl View for Delegation {
    type V = DelegationModel;

    open spec fn view(&self) -> DelegationModel {
        DelegationModel {
            id: self.id,
            issuer: self.issuer@,
            agent: self.agent@,
            scope: self.scope@,
            constraints: self.constraints.deep_view(),
            not_before: self.not_before,
            not_after: self.not_after,
            max_depth: self.max_depth,
            parent_id: self.parent_id,
            signature: self.signature@,
        }
    }
}

impl Clone for Delegation {
    fn clone(&self) -> (r: Self)
        ensures
            r@ == self@,
    {
        let signature = self.signature.clone();
        proof {
            assert(signature@ =~= self.signature@);
        }
        Delegation {
            id: self.id,
            issuer: self.issuer.clone(),
            agent: self.agent.clone(),
            scope: self.scope.clone(),
            constraints: clone_constraints(&self.constraints),
            not_before: self.not_before,
            not_after: self.not_after,
            max_depth: self.max_depth,
            parent_id: self.parent_id,
            signature,
        }
    }
}

impl DeepView for Delegation {
    type V = DelegationModel;

    open spec fn deep_view(&self) -> DelegationModel {
        self@
    }
}

} // verus!

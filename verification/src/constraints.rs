//! Constraint composition.
//!
//! [`Constraint`] is the protocol's constraint vocabulary;
//! [`ConstraintSet`] composes a set of constraints fluently when issuing
//! delegations. Domain-specific constraints implement [`CustomConstraint`]
//! and ship as [`Constraint::Custom`].

use std::time::Duration;

use vstd::prelude::*;

use crate::descriptor::DescriptorError;
use crate::time::{duration_secs, secs_of};

verus! {

/// One constraint of a delegation.
#[derive(Debug, PartialEq, Eq)]
pub enum Constraint {
    /// The action's value claim must use this currency and these decimals,
    /// and its amount must not exceed `amount`.
    MaxValue { currency: String, amount: u64, decimals: u8 },
    /// At most `count` actions in any sliding window of `period_seconds`.
    MaxRate { count: u32, period_seconds: u64 },
    /// The action's domain must be one of these.
    DomainAllow { domains: Vec<String> },
    /// The action's domain must not be one of these.
    DomainDeny { domains: Vec<String> },
    /// The anchor must be no older than `max_age_seconds`.
    RequireAnchorFreshness { max_age_seconds: u64 },
    /// A human must confirm, bound to `threshold`.
    RequireHumanConfirm { threshold: String },
    /// A domain-specific constraint, identified by `type_uri`.
    Custom { type_uri: String, value: Vec<u8> },
}

/// Model of a [`Constraint`].
pub enum ConstraintModel {
    MaxValue { currency: Seq<char>, amount: u64, decimals: u8 },
    MaxRate { count: u32, period_seconds: u64 },
    DomainAllow { domains: Seq<Seq<char>> },
    DomainDeny { domains: Seq<Seq<char>> },
    RequireAnchorFreshness { max_age_seconds: u64 },
    RequireHumanConfirm { threshold: Seq<char> },
    Custom { type_uri: Seq<char>, value: Seq<u8> },
}

impl View for Constraint {
    type V = ConstraintModel;

    open spec fn view(&self) -> ConstraintModel {
        match self {
            Constraint::MaxValue { currency, amount, decimals } => ConstraintModel::MaxValue {
                currency: currency@,
                amount: *amount,
                decimals: *decimals,
            },
            Constraint::MaxRate { count, period_seconds } => ConstraintModel::MaxRate {
                count: *count,
                period_seconds: *period_seconds,
            },
            Constraint::DomainAllow { domains } => ConstraintModel::DomainAllow {
                domains: domains.deep_view(),
            },
            Constraint::DomainDeny { domains } => ConstraintModel::DomainDeny {
                domains: domains.deep_view(),
            },
            Constraint::RequireAnchorFreshness { max_age_seconds } =>
                ConstraintModel::RequireAnchorFreshness { max_age_seconds: *max_age_seconds },
            Constraint::RequireHumanConfirm { threshold } => ConstraintModel::RequireHumanConfirm {
                threshold: threshold@,
            },
            Constraint::Custom { type_uri, value } => ConstraintModel::Custom {
                type_uri: type_uri@,
                value: value@,
            },
        }
    }
}

impl DeepView for Constraint {
    type V = ConstraintModel;

    open spec fn deep_view(&self) -> ConstraintModel {
        self@
    }
}

/// Owned copies of `items`, in order.
pub fn strings_of(items: &[&str]) -> (v: Vec<String>)
    ensures
        v.deep_view() == items.deep_view(),
{
    let mut v: Vec<String> = Vec::new();
    let mut k: usize = 0;
    while k < items.len()
        invariant
            k <= items@.len(),
            v@.len() == k,
            forall|i: int| 0 <= i < k ==> #[trigger] v@[i]@ == items@[i]@,
        decreases items@.len() - k,
    {
        let s: String = items[k].to_owned();
        v.push(s);
        k = k + 1;
    }
    proof {
        assert(v.deep_view() =~= items.deep_view());
    }
    v
}

impl Clone for Constraint {
    fn clone(&self) -> (r: Self)
        ensures
            r@ == self@,
    {
        match self {
            Constraint::MaxValue { currency, amount, decimals } => Constraint::MaxValue {
                currency: currency.clone(),
                amount: *amount,
                decimals: *decimals,
            },
            Constraint::MaxRate { count, period_seconds } => Constraint::MaxRate {
                count: *count,
                period_seconds: *period_seconds,
            },
            Constraint::DomainAllow { domains } => Constraint::DomainAllow {
                domains: crate::protocol::clone_strings(domains),
            },
            Constraint::DomainDeny { domains } => Constraint::DomainDeny {
                domains: crate::protocol::clone_strings(domains),
            },
            Constraint::RequireAnchorFreshness { max_age_seconds } =>
                Constraint::RequireAnchorFreshness { max_age_seconds: *max_age_seconds },
            Constraint::RequireHumanConfirm { threshold } => Constraint::RequireHumanConfirm {
                threshold: threshold.clone(),
            },
            Constraint::Custom { type_uri, value } => {
                let v = value.clone();
                proof {
                    assert(v@ =~= value@);
                }
                Constraint::Custom { type_uri: type_uri.clone(), value: v }
            },
        }
    }
}

/// Clones a vector of constraints, keeping every constraint.
pub fn clone_constraints(v: &Vec<Constraint>) -> (r: Vec<Constraint>)
    ensures
        r.deep_view() == v.deep_view(),
{
    let mut r: Vec<Constraint> = Vec::new();
    let mut k: usize = 0;
    while k < v.len()
        invariant
            k <= v@.len(),
            r@.len() == k,
            forall|i: int| 0 <= i < k ==> #[trigger] r@[i]@ == v@[i]@,
        decreases v@.len() - k,
    {
        let c = v[k].clone();
        r.push(c);
        k = k + 1;
    }
    proof {
        assert(r.deep_view() =~= v.deep_view());
    }
    r
}

/// The protocol's `Custom` constraint for `type_uri`, from the outcome of
/// encoding its parameters: the encoded bytes, or the encoding error.
pub fn custom_constraint(type_uri: &str, value: Result<Vec<u8>, DescriptorError>) -> (r: Result<
    Constraint,
    DescriptorError,
>)
    ensures
        match value {
            Ok(bytes) => r matches Ok(c) && c@ == (ConstraintModel::Custom {
                type_uri: type_uri@,
                value: bytes@,
            }),
            Err(e) => r == Err::<Constraint, DescriptorError>(e),
        },
{
    match value {
        Ok(bytes) => Ok(Constraint::Custom { type_uri: type_uri.to_owned(), value: bytes }),
        Err(e) => Err(e),
    }
}

/// Fluent builder for a set of constraints.
#[derive(Debug)]
pub struct ConstraintSet {
    constraints: Vec<Constraint>,
}

impl View for ConstraintSet {
    type V = Seq<ConstraintModel>;

    closed spec fn view(&self) -> Seq<ConstraintModel> {
        self.constraints.deep_view()
    }
}

impl Default for ConstraintSet {
    fn default() -> (s: Self)
        ensures
            s@ == Seq::<ConstraintModel>::empty(),
    {
        ConstraintSet::new()
    }
}

impl Clone for ConstraintSet {
    fn clone(&self) -> (r: Self)
        ensures
            r@ == self@,
    {
        ConstraintSet { constraints: clone_constraints(&self.constraints) }
    }
}

impl ConstraintSet {
    /// The empty set.
    pub fn new() -> (s: Self)
        ensures
            s@ == Seq::<ConstraintModel>::empty(),
    {
        let s = ConstraintSet { constraints: Vec::new() };
        proof {
            assert(s@ =~= Seq::<ConstraintModel>::empty());
        }
        s
    }

    /// Appends `c`.
    fn push(self, c: Constraint) -> (s: Self)
        ensures
            s@ == self@.push(c@),
    {
        let mut v = self.constraints;
        let ghost before = v.deep_view();
        v.push(c);
        let s = ConstraintSet { constraints: v };
        proof {
            assert(s@ =~= before.push(c@));
        }
        s
    }

    /// `max_value`: the agent must include a value claim whose currency and
    /// decimals match exactly and whose amount does not exceed `amount`.
    pub fn max_value(self, currency: &str, amount: u64, decimals: u8) -> (s: Self)
        ensures
            s@ == self@.push(ConstraintModel::MaxValue { currency: currency@, amount, decimals }),
    {
        self.push(Constraint::MaxValue { currency: currency.to_owned(), amount, decimals })
    }

    /// `max_rate`: at most `count` actions in any sliding window of
    /// `period`, kept in whole seconds.
    pub fn max_rate(self, count: u32, period: Duration) -> (s: Self)
        ensures
            s@ == self@.push(
                ConstraintModel::MaxRate { count, period_seconds: duration_secs(period) },
            ),
    {
        let period_seconds = secs_of(period);
        self.push(Constraint::MaxRate { count, period_seconds })
    }

    /// `domain_allow`: the action's domain must be in `domains`. A request
    /// with no domain fails closed.
    pub fn domain_allow(self, domains: &[&str]) -> (s: Self)
        ensures
            s@ == self@.push(ConstraintModel::DomainAllow { domains: domains.deep_view() }),
    {
        let v = strings_of(domains);
        self.push(Constraint::DomainAllow { domains: v })
    }

    /// `domain_deny`: the action's domain must not be in `domains`.
    pub fn domain_deny(self, domains: &[&str]) -> (s: Self)
        ensures
            s@ == self@.push(ConstraintModel::DomainDeny { domains: domains.deep_view() }),
    {
        let v = strings_of(domains);
        self.push(Constraint::DomainDeny { domains: v })
    }

    /// `require_anchor_freshness`: the anchor must be no older than
    /// `max_age`, kept in whole seconds.
    pub fn require_anchor_freshness(self, max_age: Duration) -> (s: Self)
        ensures
            s@ == self@.push(
                ConstraintModel::RequireAnchorFreshness { max_age_seconds: duration_secs(max_age) },
            ),
    {
        let max_age_seconds = secs_of(max_age);
        self.push(Constraint::RequireAnchorFreshness { max_age_seconds })
    }

    /// `require_human_confirm`: the agent must obtain explicit human
    /// confirmation, bound to `threshold`.
    pub fn require_human_confirm(self, threshold: &str) -> (s: Self)
        ensures
            s@ == self@.push(ConstraintModel::RequireHumanConfirm { threshold: threshold@ }),
    {
        self.push(Constraint::RequireHumanConfirm { threshold: threshold.to_owned() })
    }

    /// Adds a custom constraint: appends a `Custom` constraint under the
    /// type's URI with the bytes its `to_value` gives, or fails with the
    /// error `to_value` gives.
    pub fn custom<C: CustomConstraint>(self, constraint: C) -> (r: Result<Self, DescriptorError>)
        ensures
            exists|v: Result<Vec<u8>, DescriptorError>|
                #[trigger] call_ensures(C::to_value, (&constraint,), v) && match v {
                    Ok(bytes) => r matches Ok(s) && s@ == self@.push(
                        ConstraintModel::Custom { type_uri: C::TYPE_URI@, value: bytes@ },
                    ),
                    Err(e) => r == Err::<Self, DescriptorError>(e),
                },
    {
        match constraint.into_constraint() {
            Ok(c) => Ok(self.push(c)),
            Err(e) => Err(e),
        }
    }

    /// Appends a constraint as it is.
    pub fn add_raw(self, constraint: Constraint) -> (s: Self)
        ensures
            s@ == self@.push(constraint@),
    {
        self.push(constraint)
    }

    /// The constraints, in the order they were added.
    pub fn into_vec(self) -> (v: Vec<Constraint>)
        ensures
            v.deep_view() == self@,
    {
        self.constraints
    }

    /// Borrows the constraints, in the order they were added.
    pub fn as_slice(&self) -> (v: &[Constraint])
        ensures
            v.deep_view() == self@,
    {
        self.constraints.as_slice()
    }

    /// The number of constraints.
    pub fn len(&self) -> (n: usize)
        ensures
            n == self@.len(),
    {
        self.constraints.len()
    }

    /// Whether no constraint was added.
    pub fn is_empty(&self) -> (b: bool)
        ensures
            b == (self@.len() == 0),
    {
        self.constraints.len() == 0
    }
}

/// A domain-specific constraint that ships as [`Constraint::Custom`].
///
/// Implementations name a stable type URI and say how their parameters
/// encode to bytes and decode back.
pub trait CustomConstraint: Sized {
    /// Stable identifier of this constraint type.
    const TYPE_URI: &'static str;

    /// Encodes this constraint's parameters as bytes.
    fn to_value(&self) -> Result<Vec<u8>, DescriptorError>;

    /// Decodes bytes back into this constraint.
    fn from_value(bytes: &[u8]) -> Result<Self, DescriptorError>;

    /// Converts into the protocol's `Custom` constraint under
    /// [`CustomConstraint::TYPE_URI`] with the bytes `to_value` gives, or
    /// fails with the error `to_value` gives.
    fn into_constraint(self) -> (r: Result<Constraint, DescriptorError>)
        ensures
            exists|v: Result<Vec<u8>, DescriptorError>|
                #[trigger] call_ensures(Self::to_value, (&self,), v) && match v {
                    Ok(bytes) => r matches Ok(c) && c@ == (ConstraintModel::Custom {
                        type_uri: Self::TYPE_URI@,
                        value: bytes@,
                    }),
                    Err(e) => r == Err::<Constraint, DescriptorError>(e),
                },
    {
        let value = self.to_value();
        assert(call_ensures(Self::to_value, (&self,), value));
        custom_constraint(Self::TYPE_URI, value)
    }
}

} // verus!

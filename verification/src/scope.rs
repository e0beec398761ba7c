//! Fluent builder for scope expressions.

use vstd::prelude::*;

use crate::constraints::strings_of;
use crate::protocol::{ScopeExpr, ScopeModel};

verus! {

/// Appends `extra` to `v`.
fn append_strings(v: Vec<String>, extra: Vec<String>) -> (r: Vec<String>)
    ensures
        r.deep_view() == v.deep_view() + extra.deep_view(),
{
    let mut r = v;
    let mut e = extra;
    let ghost r0 = r.deep_view();
    let ghost e0 = e.deep_view();
    r.append(&mut e);
    proof {
        assert(r.deep_view() =~= r0 + e0);
    }
    r
}

/// Fluent builder for a [`ScopeExpr`].
#[derive(Debug)]
pub struct ScopeBuilder {
    grants: Vec<String>,
    denies: Vec<String>,
}

impl View for ScopeBuilder {
    type V = ScopeModel;

    closed spec fn view(&self) -> ScopeModel {
        ScopeModel { grant: self.grants.deep_view(), deny: self.denies.deep_view() }
    }
}

impl Default for ScopeBuilder {
    fn default() -> (b: Self)
        ensures
            b@.grant.len() == 0,
            b@.deny.len() == 0,
    {
        ScopeBuilder::new()
    }
}

impl Clone for ScopeBuilder {
    fn clone(&self) -> (r: Self)
        ensures
            r@ == self@,
    {
        ScopeBuilder {
            grants: crate::protocol::clone_strings(&self.grants),
            denies: crate::protocol::clone_strings(&self.denies),
        }
    }
}

impl ScopeBuilder {
    /// A builder that grants and denies nothing.
    pub fn new() -> (b: Self)
        ensures
            b@.grant.len() == 0,
            b@.deny.len() == 0,
    {
        ScopeBuilder { grants: Vec::new(), denies: Vec::new() }
    }

    /// Adds granted scope atoms after those already granted.
    pub fn grant(self, atoms: &[&str]) -> (b: Self)
        ensures
            b@.grant == self@.grant + atoms.deep_view(),
            b@.deny == self@.deny,
    {
        let extra = strings_of(atoms);
        ScopeBuilder { grants: append_strings(self.grants, extra), denies: self.denies }
    }

    /// Adds denied scope atoms (carve-outs from the grant) after those
    /// already denied.
    pub fn deny(self, atoms: &[&str]) -> (b: Self)
        ensures
            b@.grant == self@.grant,
            b@.deny == self@.deny + atoms.deep_view(),
    {
        let extra = strings_of(atoms);
        ScopeBuilder { grants: self.grants, denies: append_strings(self.denies, extra) }
    }

    /// The scope expression: every granted atom and every denied atom, in
    /// the order they were added.
    pub fn build(self) -> (s: ScopeExpr)
        ensures
            s@ == self@,
    {
        ScopeExpr { grant: self.grants, deny: self.denies }
    }
}

} // verus!

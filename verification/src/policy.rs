//! The policy model: an immutable security policy value, and the mutable
//! builder that derives one from a named preset. Building is the only place
//! profile text is generated; the built value is never mutated afterwards.

use vstd::prelude::*;

use crate::error::SandboxError;
use crate::services::BrokerServices;

verus! {

/// The default rule a profile opens with: allow everything, or deny
/// everything, before any finer rules.
#[derive(Clone, Copy, PartialEq, Eq, Structural, Hash, Debug)]
pub enum Access {
    Allow,
    Deny,
}

/// A named starting point for a policy.
#[derive(Clone, Copy, PartialEq, Eq, Structural, Debug)]
pub enum PolicyPreset {
    /// Default-deny baseline: the target may compute, but ambient access is
    /// rejected by the enforcing layer.
    ComputeOnly,
    /// Default-allow baseline: the target is not restricted.
    Unrestricted,
}

/// An immutable policy: rendered profile text (as bytes) plus a key/value
/// parameter table, both handed verbatim to the platform's sandbox entry
/// point at enactment.
pub struct Policy {
    profile: Vec<u8>,
    parameters: Vec<(Vec<u8>, Vec<u8>)>,
}

/// Mutable staging object, created from a preset and consumed exactly once by
/// `build` into a `Policy`.
#[derive(Clone, Copy, PartialEq, Eq, Structural, Debug)]
pub struct PolicyBuilder {
    default_access: Access,
}

/// The profile text rendered for a default-access rule.
pub open spec fn profile_chars(access: Access) -> Seq<char> {
    match access {
        Access::Allow => "(version 1)\n(allow default)\n"@,
        Access::Deny => "(version 1)\n(deny default)\n"@,
    }
}

/// An ASCII character sequence read as its byte values.
pub open spec fn ascii_bytes_of(s: Seq<char>) -> Seq<u8> {
    Seq::new(s.len(), |i: int| s[i] as u8)
}

/// The rendered profile for a default-access rule, as the bytes a `Policy`
/// carries on the wire and into enactment.
pub open spec fn profile_bytes(access: Access) -> Seq<u8> {
    ascii_bytes_of(profile_chars(access))
}

/// Renders an ASCII profile string to its bytes.
fn ascii_vec(s: &str) -> (r: Vec<u8>)
    requires
        vstd::utf8::is_ascii_chars(s@),
    ensures
        r@ == ascii_bytes_of(s@),
{
    proof {
        vstd::string::is_ascii_spec_bytes(s);
    }
    let r = s.as_bytes_vec();
    proof {
        assert(r@ =~= ascii_bytes_of(s@));
    }
    r
}

/// Copies a byte vector element by element.
pub(crate) fn copy_bytes(v: &Vec<u8>) -> (r: Vec<u8>)
    ensures
        r@ == v@,
{
    let mut r: Vec<u8> = Vec::new();
    let mut i: usize = 0;
    while i < v.len()
        invariant
            i <= v@.len(),
            r@ == v@.subrange(0, i as int),
        decreases v@.len() - i,
    {
        r.push(v[i]);
        i = i + 1;
        proof {
            assert(r@ =~= v@.subrange(0, i as int));
        }
    }
    proof {
        assert(r@ =~= v@);
    }
    r
}

impl Policy {
    /// The rendered profile text, as bytes.
    pub closed spec fn spec_profile(&self) -> Seq<u8> {
        self.profile@
    }

    /// The parameter table, as key/value byte strings in table order.
    pub closed spec fn spec_params(&self) -> Seq<(Seq<u8>, Seq<u8>)> {
        Seq::new(self.parameters@.len(), |i: int| (self.parameters@[i].0@, self.parameters@[i].1@))
    }

    pub(crate) fn from_parts(profile: Vec<u8>, parameters: Vec<(Vec<u8>, Vec<u8>)>) -> (r: Policy)
        ensures
            r.spec_profile() == profile@,
            r.spec_params() == Seq::new(
                parameters@.len(),
                |i: int| (parameters@[i].0@, parameters@[i].1@),
            ),
    {
        Policy { profile, parameters }
    }

    /// The profile bytes, for the enacting layer and the wire encoder.
    pub fn profile(&self) -> (r: &Vec<u8>)
        ensures
            r@ == self.spec_profile(),
    {
        &self.profile
    }

    /// The parameter table, for the enacting layer and the wire encoder.
    pub fn parameters(&self) -> (r: &Vec<(Vec<u8>, Vec<u8>)>)
        ensures
            r@.len() == self.spec_params().len(),
            forall|i: int|
                0 <= i < r@.len() ==> (#[trigger] r@[i]).0@ == self.spec_params()[i].0
                    && r@[i].1@ == self.spec_params()[i].1,
    {
        &self.parameters
    }

    /// Creates the staging builder for a policy, from a preset.
    pub fn builder(broker: &mut BrokerServices, preset: PolicyPreset) -> (r: PolicyBuilder)
        ensures
            r.spec_default_access() == preset_access(preset),
            *final(broker) == *old(broker),
    {
        PolicyBuilder::new(broker, preset)
    }

    /// Builds the default-deny policy in one step.
    pub fn compute_only(broker: &mut BrokerServices) -> (r: Result<Policy, SandboxError>)
        ensures
            r is Ok,
            r matches Ok(p) ==> p.spec_profile() == profile_bytes(Access::Deny) && p.spec_params()
                === Seq::empty(),
            *final(broker) == *old(broker),
    {
        PolicyBuilder::new(broker, PolicyPreset::ComputeOnly).build()
    }
}

impl Clone for Policy {
    /// A policy is shared read-only: a clone carries the same profile and
    /// parameter table.
    fn clone(&self) -> (r: Self)
        ensures
            r.spec_profile() == self.spec_profile(),
            r.spec_params() == self.spec_params(),
    {
        let mut parameters: Vec<(Vec<u8>, Vec<u8>)> = Vec::new();
        let mut i: usize = 0;
        while i < self.parameters.len()
            invariant
                i <= self.parameters@.len(),
                parameters@.len() == i,
                forall|j: int|
                    0 <= j < i ==> (#[trigger] parameters@[j]).0@ == self.parameters@[j].0@
                        && parameters@[j].1@ == self.parameters@[j].1@,
            decreases self.parameters@.len() - i,
        {
            let key = copy_bytes(&self.parameters[i].0);
            let value = copy_bytes(&self.parameters[i].1);
            parameters.push((key, value));
            i = i + 1;
        }
        let r = Policy { profile: copy_bytes(&self.profile), parameters };
        proof {
            assert(r.spec_params() =~= self.spec_params());
        }
        r
    }
}

/// The default-access rule a preset starts from.
pub open spec fn preset_access(preset: PolicyPreset) -> Access {
    match preset {
        PolicyPreset::ComputeOnly => Access::Deny,
        PolicyPreset::Unrestricted => Access::Allow,
    }
}

impl PolicyBuilder {
    pub closed spec fn spec_default_access(&self) -> Access {
        self.default_access
    }

    /// Stages a policy from a preset: compute-only starts default-deny,
    /// unrestricted starts default-allow.
    pub fn new(broker: &mut BrokerServices, preset: PolicyPreset) -> (r: Self)
        ensures
            r.spec_default_access() == preset_access(preset),
            *final(broker) == *old(broker),
    {
        match preset {
            PolicyPreset::ComputeOnly => PolicyBuilder { default_access: Access::Deny },
            PolicyPreset::Unrestricted => PolicyBuilder { default_access: Access::Allow },
        }
    }

    /// Renders the accumulated rules into the profile text and parameter
    /// table. This is the only place profile text is generated.
    pub fn build(self) -> (r: Result<Policy, SandboxError>)
        ensures
            r is Ok,
            r matches Ok(p) ==> p.spec_profile() == profile_bytes(self.spec_default_access())
                && p.spec_params() === Seq::empty(),
    {
        let profile: Vec<u8> = match self.default_access {
            Access::Allow => {
                let text = "(version 1)\n(allow default)\n";
                proof {
                    reveal_strlit("(version 1)\n(allow default)\n");
                }
                ascii_vec(text)
            },
            Access::Deny => {
                let text = "(version 1)\n(deny default)\n";
                proof {
                    reveal_strlit("(version 1)\n(deny default)\n");
                }
                ascii_vec(text)
            },
        };
        let p = Policy { profile, parameters: Vec::new() };
        proof {
            assert(p.spec_params() =~= Seq::<(Seq<u8>, Seq<u8>)>::empty());
        }
        Ok(p)
    }
}

/// Platform-specific extension surface of the builder: overrides the default
/// rule staged from the preset, before `build`.
pub trait PolicyBuilderExt: Sized {
    /// The staged default-access rule.
    spec fn staged_access(&self) -> Access;

    /// Overrides the staged default-access rule.
    fn set_default_access(&mut self, access: Access) -> (r: &mut Self)
        ensures
            (*r).staged_access() == access,
            *final(self) == *final(r),
    ;
}

impl PolicyBuilderExt for PolicyBuilder {
    open spec fn staged_access(&self) -> Access {
        self.spec_default_access()
    }

    fn set_default_access(&mut self, access: Access) -> (r: &mut Self)
        ensures
            (*r).staged_access() == access,
            *final(self) == *final(r),
    {
        self.default_access = access;
        self
    }
}

} // verus!

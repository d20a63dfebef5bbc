//! The rules that govern a gate.
use vstd::prelude::*;

verus! {

/// Whether the change's maker may also be a checker.
#[derive(Clone, Copy, PartialEq, Eq, Structural, Debug)]
pub enum Independence {
    /// The maker (prompt author / hand-editor) may not cast a counting verdict.
    Strict,
    /// The maker may be one of the two, but the co-signer must be a non-maker.
    Pragmatic,
}

/// What happens when two eligible keys cannot be gathered. There is exactly
/// one policy: park. There is deliberately **no third signatory**: if two
/// operators cannot agree, resolving that is theirs to do, not the system's to
/// route around. (`escalation_required` on a hold is a different, unrelated
/// signal: it flags that the co-signer must be a *distinct* non-maker, not that
/// a third human is needed.)
#[derive(Clone, Copy, PartialEq, Eq, Structural, Debug)]
pub enum Availability {
    /// Hold parks indefinitely (safe default): never degrade to one key, never
    /// escalate past the two seats.
    Park,
}

/// Provenance of the change under review.
#[derive(Clone, Copy, PartialEq, Eq, Structural, Debug)]
pub enum Authorship {
    Agent,
    HandEdited,
    Both,
}

/// How a resolved gate concluded.
#[derive(Clone, Copy, PartialEq, Eq, Structural, Debug)]
pub enum Outcome {
    Unanimous,
    ResolvedAfterDisagreement,
    /// The review gate resolved with a no-go; the dissenting checker entry carries the
    /// remedy and its signature. The task routed to intervention.
    Blocked,
}

/// The rules governing a single gate.
#[derive(Clone, Copy, PartialEq, Eq, Structural, Debug)]
pub struct GatePolicy {
    /// Required signatories; two unless a caller says otherwise.
    pub required: u8,
    pub independence: Independence,
    /// Seal the first verdict until both are in (blind second review).
    pub blind: bool,
    pub availability: Availability,
}

/// Two keys, strict independence, blind review, park.
pub open spec fn default_policy() -> GatePolicy {
    GatePolicy {
        required: 2,
        independence: Independence::Strict,
        blind: true,
        availability: Availability::Park,
    }
}

impl Default for GatePolicy {
    fn default() -> (r: Self)
        ensures
            r == default_policy(),
    {
        GatePolicy {
            required: 2,
            independence: Independence::Strict,
            blind: true,
            availability: Availability::Park,
        }
    }
}

/// Unless a caller says otherwise a gate takes two keys, none of them a maker's,
/// each cast blind, and parks without them.
pub proof fn two_blind_independent_keys_by_default()
    ensures
        default_policy().required == 2,
        default_policy().independence == Independence::Strict,
        default_policy().blind,
        default_policy().availability == Availability::Park,
{
}

} // verus!

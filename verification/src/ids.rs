//! Identifiers, digests and signatures.
use vstd::prelude::*;

use crate::text::hex_prefix;

verus! {

/// Are the two byte arrays equal?
pub fn same_bytes<const N: usize>(a: &[u8; N], b: &[u8; N]) -> (r: bool)
    ensures
        r == (*a == *b),
{
    let mut i: usize = 0;
    while i < N
        invariant
            0 <= i <= N,
            forall|j: int| 0 <= j < i ==> a[j] == b[j],
        decreases N - i,
    {
        if a[i] != b[i] {
            return false;
        }
        i = i + 1;
    }
    assert(*a =~= *b);
    true
}

/// An operator's stable identity: their Ed25519 public key bytes.
#[derive(Clone, Copy, Eq, Hash, Debug)]
pub struct OperatorId(pub [u8; 32]);

impl PartialEq for OperatorId {
    fn eq(&self, other: &Self) -> (r: bool) {
        same_bytes(&self.0, &other.0)
    }
}

impl vstd::std_specs::cmp::PartialEqSpecImpl for OperatorId {
    open spec fn obeys_eq_spec() -> bool {
        true
    }

    open spec fn eq_spec(&self, other: &Self) -> bool {
        self == other
    }
}

impl OperatorId {
    /// A short form of the key for two people to compare out of band: its
    /// first eight bytes in hexadecimal.
    pub fn fingerprint(&self) -> (r: String)
        ensures
            r@ == crate::text::hex_spec(self.0@.take(8)),
    {
        hex_prefix(self.0.as_slice(), 8)
    }
}

/// Identifier for a gate (one per gated action).
#[derive(Eq, Debug)]
pub struct GateId(pub String);

impl View for GateId {
    type V = Seq<char>;

    open spec fn view(&self) -> Seq<char> {
        self.0@
    }
}

impl Clone for GateId {
    fn clone(&self) -> (r: Self)
        ensures
            r == *self,
    {
        GateId(self.0.clone())
    }
}

impl PartialEq for GateId {
    fn eq(&self, other: &Self) -> (r: bool) {
        self.0 == other.0
    }
}

impl vstd::std_specs::cmp::PartialEqSpecImpl for GateId {
    open spec fn obeys_eq_spec() -> bool {
        true
    }

    open spec fn eq_spec(&self, other: &Self) -> bool {
        self@ == other@
    }
}

/// Identifier for a task in the plan.
#[derive(Eq, Debug)]
pub struct TaskId(pub String);

impl View for TaskId {
    type V = Seq<char>;

    open spec fn view(&self) -> Seq<char> {
        self.0@
    }
}

impl Clone for TaskId {
    fn clone(&self) -> (r: Self)
        ensures
            r == *self,
    {
        TaskId(self.0.clone())
    }
}

impl PartialEq for TaskId {
    fn eq(&self, other: &Self) -> (r: bool) {
        self.0 == other.0
    }
}

impl vstd::std_specs::cmp::PartialEqSpecImpl for TaskId {
    open spec fn obeys_eq_spec() -> bool {
        true
    }

    open spec fn eq_spec(&self, other: &Self) -> bool {
        self@ == other@
    }
}

/// Reference to a direct human change (a hand-edit).
#[derive(Eq, Debug)]
pub struct HandEditRef(pub String);

impl View for HandEditRef {
    type V = Seq<char>;

    open spec fn view(&self) -> Seq<char> {
        self.0@
    }
}

impl Clone for HandEditRef {
    fn clone(&self) -> (r: Self)
        ensures
            r == *self,
    {
        HandEditRef(self.0.clone())
    }
}

impl PartialEq for HandEditRef {
    fn eq(&self, other: &Self) -> (r: bool) {
        self.0 == other.0
    }
}

impl vstd::std_specs::cmp::PartialEqSpecImpl for HandEditRef {
    open spec fn obeys_eq_spec() -> bool {
        true
    }

    open spec fn eq_spec(&self, other: &Self) -> bool {
        self@ == other@
    }
}

/// Milliseconds since the Unix epoch. Supplied by the injected `Clock`.
#[derive(Clone, Copy, PartialEq, Eq, PartialOrd, Ord, Structural, Debug)]
pub struct Timestamp(pub i64);

/// A 32-byte SHA-256 digest.
#[derive(Clone, Copy, Eq, Debug)]
pub struct Hash(pub [u8; 32]);

impl PartialEq for Hash {
    fn eq(&self, other: &Self) -> (r: bool) {
        same_bytes(&self.0, &other.0)
    }
}

impl vstd::std_specs::cmp::PartialEqSpecImpl for Hash {
    open spec fn obeys_eq_spec() -> bool {
        true
    }

    open spec fn eq_spec(&self, other: &Self) -> bool {
        self == other
    }
}

/// A 64-byte Ed25519 signature.
#[derive(Clone, Copy, Eq, Debug)]
pub struct Sig(pub [u8; 64]);

impl PartialEq for Sig {
    fn eq(&self, other: &Self) -> (r: bool) {
        same_bytes(&self.0, &other.0)
    }
}

impl vstd::std_specs::cmp::PartialEqSpecImpl for Sig {
    open spec fn obeys_eq_spec() -> bool {
        true
    }

    open spec fn eq_spec(&self, other: &Self) -> bool {
        self == other
    }
}

} // verus!

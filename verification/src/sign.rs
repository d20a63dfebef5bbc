//! Signing identities and clocks.
use vstd::prelude::*;

use crate::ids::{OperatorId, Sig, Timestamp};

verus! {

/// The Ed25519 public key of a 32-byte seed.
pub uninterp spec fn ed25519_public(seed: Seq<u8>) -> Seq<u8>;

/// The Ed25519 signature of a message under a 32-byte seed.
pub uninterp spec fn ed25519_signature(seed: Seq<u8>, msg: Seq<u8>) -> Seq<u8>;

/// Whether an Ed25519 signature on a message is valid under a public key.
pub uninterp spec fn ed25519_verifies(key: Seq<u8>, msg: Seq<u8>, sig: Seq<u8>) -> bool;

/// `ed25519_dalek::SigningKey::from_bytes` and `verifying_key`: the public key
/// of the seed.
#[verifier::external_body]
fn public_key(seed: &[u8; 32]) -> (r: [u8; 32])
    ensures
        r@ == ed25519_public(seed@),
{
    ed25519_dalek::SigningKey::from_bytes(seed).verifying_key().to_bytes()
}

/// `ed25519_dalek::SigningKey::sign`: deterministic, and valid under the
/// seed's own public key.
#[verifier::external_body]
fn sign_message(seed: &[u8; 32], msg: &[u8]) -> (r: [u8; 64])
    ensures
        r@ == ed25519_signature(seed@, msg@),
        ed25519_verifies(ed25519_public(seed@), msg@, r@),
{
    let key = ed25519_dalek::SigningKey::from_bytes(seed);
    ed25519_dalek::Signer::sign(&key, msg).to_bytes()
}

/// `ed25519_dalek::VerifyingKey::verify`; bytes that are no public key verify
/// nothing.
#[verifier::external_body]
fn verify_message(key: &[u8; 32], msg: &[u8], sig: &[u8; 64]) -> (r: bool)
    ensures
        r == ed25519_verifies(key@, msg@, sig@),
{
    match ed25519_dalek::VerifyingKey::from_bytes(key) {
        Ok(vk) => ed25519_dalek::Verifier::verify(
            &vk,
            msg,
            &ed25519_dalek::Signature::from_bytes(sig),
        ).is_ok(),
        Err(_) => false,
    }
}

/// Produces signed verdicts. In production an operator's key lives on their
/// station; in tests one is constructed from a fixed seed for determinism.
pub trait Signer {
    /// `op` is the identity that this signer signs under; any, where an
    /// implementation does not say.
    open spec fn speaks_for(&self, op: OperatorId) -> bool {
        true
    }

    /// `sig` is a signature that this signer may give on `msg`; any, where an
    /// implementation does not say.
    open spec fn signs(&self, msg: Seq<u8>, sig: Sig) -> bool {
        true
    }

    fn operator_id(&self) -> (r: OperatorId)
        ensures
            self.speaks_for(r),
    ;

    fn sign(&self, msg: &[u8]) -> (r: Sig)
        ensures
            self.signs(msg@, r),
    ;
}

/// Injected time source: the core never reads the wall clock.
pub trait Clock {
    /// `t` is a time that this clock may show; any, where an implementation
    /// does not say.
    open spec fn shows(&self, t: Timestamp) -> bool {
        true
    }

    fn now(&self) -> (r: Timestamp)
        ensures
            self.shows(r),
    ;
}

/// Ed25519 signer built from a 32-byte seed (deterministic; no RNG).
pub struct Ed25519Signer {
    seed: [u8; 32],
}

impl Ed25519Signer {
    /// The seed that the signer was built from.
    pub closed spec fn seed(&self) -> Seq<u8> {
        self.seed@
    }

    pub fn from_seed(seed: [u8; 32]) -> (r: Self)
        ensures
            r.seed() == seed@,
    {
        Ed25519Signer { seed }
    }
}

impl Signer for Ed25519Signer {
    open spec fn speaks_for(&self, op: OperatorId) -> bool {
        op.0@ == ed25519_public(self.seed())
    }

    open spec fn signs(&self, msg: Seq<u8>, sig: Sig) -> bool {
        &&& sig.0@ == ed25519_signature(self.seed(), msg)
        &&& ed25519_verifies(ed25519_public(self.seed()), msg, sig.0@)
    }

    fn operator_id(&self) -> (r: OperatorId) {
        OperatorId(public_key(&self.seed))
    }

    fn sign(&self, msg: &[u8]) -> (r: Sig) {
        Sig(sign_message(&self.seed, msg))
    }
}

/// Verify a signature against the public key embedded in `op`. Returns false on
/// any malformed key or signature; never panics.
pub fn verify(op: OperatorId, msg: &[u8], sig: &Sig) -> (r: bool)
    ensures
        r == ed25519_verifies(op.0@, msg@, sig.0@),
{
    verify_message(&op.0, msg, &sig.0)
}

/// A clock that always returns the same instant.
pub struct FixedClock(pub i64);

impl Clock for FixedClock {
    open spec fn shows(&self, t: Timestamp) -> bool {
        t == Timestamp(self.0)
    }

    fn now(&self) -> (r: Timestamp) {
        Timestamp(self.0)
    }
}

} // verus!

//! Verdicts: what an operator decides at a gate, and signs.
use vstd::prelude::*;

use crate::canonical::{
    bytes_item, canonical_bytes, cbor_bytes, encodes_only, field, table_value, text_value, Canonical, Item,
};
use crate::ids::{GateId, HandEditRef, OperatorId, Sig, Timestamp};
use crate::sign::{ed25519_verifies, verify, Clock, Ed25519Signer, Signer};

verus! {

/// The corrective payload a `NoGo` must carry: a `NoGo` cannot exist without a
/// remedy, so a bare veto is not representable.
#[derive(PartialEq, Eq, Debug)]
pub enum Remedy {
    /// A corrective prompt sent back to the agent.
    Steer(String),
    /// A reference to a direct human change.
    HandEdit(HandEditRef),
}

impl Clone for Remedy {
    fn clone(&self) -> (r: Self)
        ensures
            r == *self,
    {
        match self {
            Remedy::Steer(s) => Remedy::Steer(s.clone()),
            Remedy::HandEdit(h) => Remedy::HandEdit(h.clone()),
        }
    }
}

impl Canonical for Remedy {
    open spec fn item(&self) -> Item {
        match self {
            Remedy::Steer(s) => Item::Table(seq![(Item::Text("Steer"@), Item::Text(s@))]),
            Remedy::HandEdit(h) => Item::Table(seq![(Item::Text("HandEdit"@), h.item())]),
        }
    }

    fn to_value(&self) -> (r: ciborium::value::Value) {
        let entry = match self {
            Remedy::Steer(s) => field("Steer", text_value(s.as_str())),
            Remedy::HandEdit(h) => field("HandEdit", h.to_value()),
        };
        let mut fields: Vec<(ciborium::value::Value, ciborium::value::Value)> = Vec::new();
        fields.push(entry);
        let r = table_value(fields);
        assert(crate::canonical::cbor_item(r)->Table_0 =~= self.item()->Table_0);
        r
    }
}

/// An operator's decision at a gate.
#[derive(PartialEq, Eq, Debug)]
pub enum Verdict {
    Go,
    NoGo(Remedy),
}

impl Clone for Verdict {
    fn clone(&self) -> (r: Self)
        ensures
            r == *self,
    {
        match self {
            Verdict::Go => Verdict::Go,
            Verdict::NoGo(remedy) => Verdict::NoGo(remedy.clone()),
        }
    }
}

impl Canonical for Verdict {
    open spec fn item(&self) -> Item {
        match self {
            Verdict::Go => Item::Text("Go"@),
            Verdict::NoGo(remedy) => Item::Table(seq![(Item::Text("NoGo"@), remedy.item())]),
        }
    }

    fn to_value(&self) -> (r: ciborium::value::Value) {
        match self {
            Verdict::Go => text_value("Go"),
            Verdict::NoGo(remedy) => {
                let mut fields: Vec<(ciborium::value::Value, ciborium::value::Value)> = Vec::new();
                fields.push(field("NoGo", remedy.to_value()));
                let r = table_value(fields);
                assert(crate::canonical::cbor_item(r)->Table_0 =~= self.item()->Table_0);
                r
            },
        }
    }
}

impl Verdict {
    pub fn is_go(&self) -> (r: bool)
        ensures
            r == (*self is Go),
    {
        matches!(self, Verdict::Go)
    }
}

/// How deeply the checker reviewed, captured for the audit record.
#[derive(Clone, Copy, PartialEq, Eq, Structural, Debug)]
pub enum ReviewDepth {
    FullDiff,
    Summary,
    TestsRun,
}

impl Canonical for ReviewDepth {
    open spec fn item(&self) -> Item {
        match self {
            ReviewDepth::FullDiff => Item::Text("FullDiff"@),
            ReviewDepth::Summary => Item::Text("Summary"@),
            ReviewDepth::TestsRun => Item::Text("TestsRun"@),
        }
    }

    fn to_value(&self) -> (r: ciborium::value::Value) {
        match self {
            ReviewDepth::FullDiff => text_value("FullDiff"),
            ReviewDepth::Summary => text_value("Summary"),
            ReviewDepth::TestsRun => text_value("TestsRun"),
        }
    }
}

/// Exactly the content an operator signs. Kept separate from `CastVerdict` so
/// the signed bytes are unambiguous and reproducible.
#[derive(Clone, PartialEq, Eq, Debug)]
pub struct SignedContent {
    pub gate_id: GateId,
    pub diff_hash: crate::ids::Hash,
    pub operator: OperatorId,
    pub verdict: Verdict,
    pub depth: ReviewDepth,
    pub cast_at: Timestamp,
}

/// The data item that an operator signs: the review gate and the digest of the diff
/// under review beside who decided, what, how deeply reviewed and when.
pub open spec fn signed_item(
    gate_id: Seq<char>,
    diff_digest: Seq<u8>,
    operator: OperatorId,
    verdict: Verdict,
    depth: ReviewDepth,
    cast_at: Timestamp,
) -> Item {
    Item::Table(
        seq![
            (Item::Text("gate_id"@), Item::Text(gate_id)),
            (Item::Text("diff_hash"@), bytes_item(diff_digest)),
            (Item::Text("operator"@), operator.item()),
            (Item::Text("verdict"@), verdict.item()),
            (Item::Text("depth"@), depth.item()),
            (Item::Text("cast_at"@), cast_at.item()),
        ],
    )
}

impl Canonical for SignedContent {
    open spec fn item(&self) -> Item {
        signed_item(
            self.gate_id@,
            self.diff_hash.0@,
            self.operator,
            self.verdict,
            self.depth,
            self.cast_at,
        )
    }

    fn to_value(&self) -> (r: ciborium::value::Value) {
        let mut fields: Vec<(ciborium::value::Value, ciborium::value::Value)> = Vec::new();
        fields.push(field("gate_id", self.gate_id.to_value()));
        fields.push(field("diff_hash", self.diff_hash.to_value()));
        fields.push(field("operator", self.operator.to_value()));
        fields.push(field("verdict", self.verdict.to_value()));
        fields.push(field("depth", self.depth.to_value()));
        fields.push(field("cast_at", self.cast_at.to_value()));
        let r = table_value(fields);
        assert(crate::canonical::cbor_item(r)->Table_0 =~= self.item()->Table_0);
        r
    }
}

/// A verdict an operator has cast and signed.
#[derive(PartialEq, Eq, Debug)]
pub struct CastVerdict {
    pub operator: OperatorId,
    pub verdict: Verdict,
    pub depth: ReviewDepth,
    pub comment: Option<String>,
    pub cast_at: Timestamp,
    pub signature: Sig,
}

/// An owned copy of an optional text.
pub fn copy_optional_text(t: &Option<String>) -> (r: Option<String>)
    ensures
        r == *t,
{
    match t {
        Some(s) => Some(s.clone()),
        None => None,
    }
}

impl Clone for CastVerdict {
    fn clone(&self) -> (r: Self)
        ensures
            r == *self,
    {
        CastVerdict {
            operator: self.operator,
            verdict: self.verdict.clone(),
            depth: self.depth,
            comment: copy_optional_text(&self.comment),
            cast_at: self.cast_at,
            signature: self.signature,
        }
    }
}

impl CastVerdict {
    /// The bytes that this verdict's signature is over, at the given gate.
    pub open spec fn signed_bytes(&self, gate_id: Seq<char>, diff_digest: Seq<u8>) -> Seq<u8> {
        cbor_bytes(
            signed_item(
                gate_id,
                diff_digest,
                self.operator,
                self.verdict,
                self.depth,
                self.cast_at,
            ),
        )
    }

    /// The signature is the stated operator's, on this verdict at this gate.
    pub open spec fn signature_holds(&self, gate_id: Seq<char>, diff_digest: Seq<u8>) -> bool {
        ed25519_verifies(
            self.operator.0@,
            self.signed_bytes(gate_id, diff_digest),
            self.signature.0@,
        )
    }

    /// Build and sign a verdict. `signer` provides both the identity and the
    /// signature; `clock` stamps the cast time (no wall-clock in the core).
    pub fn create<S: Signer, C: Clock>(
        signer: &S,
        clock: &C,
        gate_id: &GateId,
        diff_hash: crate::ids::Hash,
        verdict: Verdict,
        depth: ReviewDepth,
        comment: Option<String>,
    ) -> (r: Self)
        ensures
            signer.speaks_for(r.operator),
            r.verdict == verdict,
            r.depth == depth,
            r.comment == comment,
            clock.shows(r.cast_at),
            signer.signs(r.signed_bytes(gate_id@, diff_hash.0@), r.signature),
    {
        let operator = signer.operator_id();
        let cast_at = clock.now();
        let content = SignedContent {
            gate_id: gate_id.clone(),
            diff_hash,
            operator,
            verdict: verdict.clone(),
            depth,
            cast_at,
        };
        let bytes = canonical_bytes(&content);
        let signature = signer.sign(bytes.as_slice());
        CastVerdict { operator, verdict, depth, comment, cast_at, signature }
    }

    /// Verify this verdict's signature against its stated operator and the review gate
    /// it belongs to. `gate_id` and `diff_hash` come from the hold, not the
    /// verdict, so a verdict cannot be replayed onto a different gate.
    pub fn verify_signature(&self, gate_id: &GateId, diff_hash: crate::ids::Hash) -> (r: bool)
        ensures
            r == self.signature_holds(gate_id@, diff_hash.0@),
            encodes_only(
                signed_item(
                    gate_id@,
                    diff_hash.0@,
                    self.operator,
                    self.verdict,
                    self.depth,
                    self.cast_at,
                ),
            ),
    {
        let content = SignedContent {
            gate_id: gate_id.clone(),
            diff_hash,
            operator: self.operator,
            verdict: self.verdict.clone(),
            depth: self.depth,
            cast_at: self.cast_at,
        };
        let bytes = canonical_bytes(&content);
        verify(self.operator, bytes.as_slice(), &self.signature)
    }
}

/// A verdict that an Ed25519 signer creates for a gate verifies at that gate.
pub proof fn created_verdict_verifies(
    signer: Ed25519Signer,
    cv: CastVerdict,
    gate_id: Seq<char>,
    diff_digest: Seq<u8>,
)
    requires
        signer.speaks_for(cv.operator),
        signer.signs(cv.signed_bytes(gate_id, diff_digest), cv.signature),
    ensures
        cv.signature_holds(gate_id, diff_digest),
{
}

/// A verdict is signed over the review gate it was cast at and the diff it was cast
/// on: where the encoding of the signed content is unambiguous, the bytes for
/// another gate or another diff are other bytes.
pub proof fn signed_bytes_bind_the_gate(
    cv: CastVerdict,
    gate_id: Seq<char>,
    diff_digest: Seq<u8>,
    other_gate: Seq<char>,
    other_digest: Seq<u8>,
)
    requires
        encodes_only(
            signed_item(gate_id, diff_digest, cv.operator, cv.verdict, cv.depth, cv.cast_at),
        ),
        cv.signed_bytes(gate_id, diff_digest) == cv.signed_bytes(other_gate, other_digest),
    ensures
        gate_id == other_gate,
        diff_digest == other_digest,
{
    crate::canonical::bytes_item_is_injective(diff_digest, other_digest);
}

} // verus!

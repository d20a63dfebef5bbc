//! Gate records: what was decided, by whom, over which change.
use vstd::prelude::*;

use crate::canonical::{
    array_value, canonical_bytes, cbor_bytes, cbor_item, encodes_only, field, optional_text_item,
    optional_text_value, sha256, sha256_digest, table_value, text_list_item, text_list_value,
    text_value, unsigned_value, Canonical, Item,
};
use crate::hold::{DualHold, HoldState, HoldView};
use crate::ids::{GateId, OperatorId, Sig, TaskId, Timestamp};
use crate::policy::{Authorship, Outcome};
use crate::sealed::SealedVerdict;
use crate::text::{copy_texts, texts};
use crate::verdict::{copy_optional_text, CastVerdict, ReviewDepth, Verdict};

verus! {

/// The characters of the dispatch gate's id.
pub open spec fn dispatch_id() -> Seq<char> {
    "dispatch"@
}

/// The fixed gate id for the dispatch gate. The dispatch approval's signature
/// binds to this id (and to `prompt_hash`), so a dispatch `go` can never be
/// replayed onto a merge gate and vice-versa.
pub fn dispatch_gate_id() -> (r: GateId)
    ensures
        r@ == dispatch_id(),
{
    GateId("dispatch".to_owned())
}

/// The digest that stands for a prompt: SHA-256 of its UTF-8 bytes.
pub open spec fn prompt_digest(prompt: Seq<char>) -> Seq<u8> {
    sha256_digest(vstd::utf8::encode_utf8(prompt))
}

/// The content an operator signs when approving a dispatch: the SHA-256 of the
/// exact prompt bytes. This occupies the `diff_hash` slot of the reused
/// signing primitive: for a dispatch there is no diff, the prompt *is* the
/// content under review. Editing the prompt changes this hash, so a stale
/// approval signature can never count.
pub fn prompt_hash(prompt: &str) -> (r: crate::ids::Hash)
    ensures
        r.0@ == prompt_digest(prompt@),
{
    sha256(prompt.as_bytes())
}

/// Provenance of the change. These fields originate upstream (prompt
/// co-construction, the agent adapter) and are supplied by the caller.
#[derive(PartialEq, Eq, Debug)]
pub struct Provenance {
    pub task_id: TaskId,
    pub prompt: String,
    pub prompt_author: OperatorId,
    pub agent_id: String,
    pub agent_model: String,
    pub agent_version: String,
    pub diff_hash: crate::ids::Hash,
    pub files: Vec<String>,
    pub loc: u32,
    pub tokens: u64,
}

/// What a provenance says.
#[verifier::ext_equal]
pub struct ProvenanceView {
    pub task_id: Seq<char>,
    pub prompt: Seq<char>,
    pub prompt_author: OperatorId,
    pub agent_id: Seq<char>,
    pub agent_model: Seq<char>,
    pub agent_version: Seq<char>,
    pub diff_hash: Seq<u8>,
    pub files: Seq<Seq<char>>,
    pub loc: nat,
    pub tokens: nat,
}

impl View for Provenance {
    type V = ProvenanceView;

    open spec fn view(&self) -> ProvenanceView {
        ProvenanceView {
            task_id: self.task_id@,
            prompt: self.prompt@,
            prompt_author: self.prompt_author,
            agent_id: self.agent_id@,
            agent_model: self.agent_model@,
            agent_version: self.agent_version@,
            diff_hash: self.diff_hash.0@,
            files: texts(self.files@),
            loc: self.loc as nat,
            tokens: self.tokens as nat,
        }
    }
}

impl Clone for Provenance {
    fn clone(&self) -> (r: Self)
        ensures
            r@ == self@,
            r.item() == self.item(),
    {
        Provenance {
            task_id: self.task_id.clone(),
            prompt: self.prompt.clone(),
            prompt_author: self.prompt_author,
            agent_id: self.agent_id.clone(),
            agent_model: self.agent_model.clone(),
            agent_version: self.agent_version.clone(),
            diff_hash: self.diff_hash,
            files: copy_texts(&self.files),
            loc: self.loc,
            tokens: self.tokens,
        }
    }
}

impl Canonical for Provenance {
    open spec fn item(&self) -> Item {
        Item::Table(
            seq![
                (Item::Text("task_id"@), self.task_id.item()),
                (Item::Text("prompt"@), Item::Text(self.prompt@)),
                (Item::Text("prompt_author"@), self.prompt_author.item()),
                (Item::Text("agent_id"@), Item::Text(self.agent_id@)),
                (Item::Text("agent_model"@), Item::Text(self.agent_model@)),
                (Item::Text("agent_version"@), Item::Text(self.agent_version@)),
                (Item::Text("diff_hash"@), self.diff_hash.item()),
                (Item::Text("files"@), text_list_item(self.files@)),
                (Item::Text("loc"@), Item::Int(self.loc as int)),
                (Item::Text("tokens"@), Item::Int(self.tokens as int)),
            ],
        )
    }

    fn to_value(&self) -> (r: ciborium::value::Value) {
        let mut fields: Vec<(ciborium::value::Value, ciborium::value::Value)> = Vec::new();
        fields.push(field("task_id", self.task_id.to_value()));
        fields.push(field("prompt", text_value(self.prompt.as_str())));
        fields.push(field("prompt_author", self.prompt_author.to_value()));
        fields.push(field("agent_id", text_value(self.agent_id.as_str())));
        fields.push(field("agent_model", text_value(self.agent_model.as_str())));
        fields.push(field("agent_version", text_value(self.agent_version.as_str())));
        fields.push(field("diff_hash", self.diff_hash.to_value()));
        fields.push(field("files", text_list_value(&self.files)));
        fields.push(field("loc", unsigned_value(self.loc as u64)));
        fields.push(field("tokens", unsigned_value(self.tokens)));
        let r = table_value(fields);
        assert(cbor_item(r)->Table_0 =~= self.item()->Table_0);
        r
    }
}

/// One checker's signed decision, as recorded.
#[derive(PartialEq, Eq, Debug)]
pub struct CheckerEntry {
    pub operator: OperatorId,
    pub cast_at: Timestamp,
    pub verdict: Verdict,
    pub depth: ReviewDepth,
    pub comment: Option<String>,
    pub signature: Sig,
}

impl Clone for CheckerEntry {
    fn clone(&self) -> (r: Self)
        ensures
            r == *self,
    {
        CheckerEntry {
            operator: self.operator,
            cast_at: self.cast_at,
            verdict: self.verdict.clone(),
            depth: self.depth,
            comment: copy_optional_text(&self.comment),
            signature: self.signature,
        }
    }
}

impl Canonical for CheckerEntry {
    open spec fn item(&self) -> Item {
        Item::Table(
            seq![
                (Item::Text("operator"@), self.operator.item()),
                (Item::Text("cast_at"@), self.cast_at.item()),
                (Item::Text("verdict"@), self.verdict.item()),
                (Item::Text("depth"@), self.depth.item()),
                (Item::Text("comment"@), optional_text_item(self.comment)),
                (Item::Text("signature"@), self.signature.item()),
            ],
        )
    }

    fn to_value(&self) -> (r: ciborium::value::Value) {
        let mut fields: Vec<(ciborium::value::Value, ciborium::value::Value)> = Vec::new();
        fields.push(field("operator", self.operator.to_value()));
        fields.push(field("cast_at", self.cast_at.to_value()));
        fields.push(field("verdict", self.verdict.to_value()));
        fields.push(field("depth", self.depth.to_value()));
        fields.push(field("comment", optional_text_value(&self.comment)));
        fields.push(field("signature", self.signature.to_value()));
        let r = table_value(fields);
        assert(cbor_item(r)->Table_0 =~= self.item()->Table_0);
        r
    }
}

/// The item of a list of entries.
pub open spec fn entries_item(v: Seq<CheckerEntry>) -> Item {
    Item::Array(v.map_values(|e: CheckerEntry| e.item()))
}

fn entries_value(v: &Vec<CheckerEntry>) -> (r: ciborium::value::Value)
    ensures
        cbor_item(r) == entries_item(v@),
{
    let mut vs: Vec<ciborium::value::Value> = Vec::new();
    let mut i: usize = 0;
    while i < v.len()
        invariant
            0 <= i <= v.len(),
            vs@.len() == i,
            forall|j: int| 0 <= j < i ==> cbor_item(#[trigger] vs@[j]) == v@[j].item(),
        decreases v.len() - i,
    {
        vs.push(v[i].to_value());
        i = i + 1;
    }
    let r = array_value(vs);
    assert(cbor_item(r)->Array_0 =~= v@.map_values(|e: CheckerEntry| e.item()));
    r
}

/// An owned copy of a list of entries.
pub fn copy_entries(v: &Vec<CheckerEntry>) -> (r: Vec<CheckerEntry>)
    ensures
        r@ == v@,
{
    let mut r: Vec<CheckerEntry> = Vec::new();
    let mut i: usize = 0;
    while i < v.len()
        invariant
            0 <= i <= v.len(),
            r@ == v@.take(i as int),
        decreases v.len() - i,
    {
        r.push(v[i].clone());
        i = i + 1;
    }
    r
}

impl Canonical for Authorship {
    open spec fn item(&self) -> Item {
        match self {
            Authorship::Agent => Item::Text("Agent"@),
            Authorship::HandEdited => Item::Text("HandEdited"@),
            Authorship::Both => Item::Text("Both"@),
        }
    }

    fn to_value(&self) -> (r: ciborium::value::Value) {
        match self {
            Authorship::Agent => text_value("Agent"),
            Authorship::HandEdited => text_value("HandEdited"),
            Authorship::Both => text_value("Both"),
        }
    }
}

impl Canonical for Outcome {
    open spec fn item(&self) -> Item {
        match self {
            Outcome::Unanimous => Item::Text("Unanimous"@),
            Outcome::ResolvedAfterDisagreement => Item::Text("ResolvedAfterDisagreement"@),
            Outcome::Blocked => Item::Text("Blocked"@),
        }
    }

    fn to_value(&self) -> (r: ciborium::value::Value) {
        match self {
            Outcome::Unanimous => text_value("Unanimous"),
            Outcome::ResolvedAfterDisagreement => text_value("ResolvedAfterDisagreement"),
            Outcome::Blocked => text_value("Blocked"),
        }
    }
}

/// Everything in a gate record except its own hash: the bytes that get hashed.
#[derive(PartialEq, Eq, Debug)]
pub struct RecordCore {
    pub prev_hash: crate::ids::Hash,
    pub gate_id: GateId,
    pub provenance: Provenance,
    pub authorship: Authorship,
    pub checkers: Vec<CheckerEntry>,
    pub outcome: Outcome,
}

impl Clone for RecordCore {
    fn clone(&self) -> (r: Self)
        ensures
            r.prev_hash == self.prev_hash,
            r.gate_id == self.gate_id,
            r.provenance@ == self.provenance@,
            r.item() == self.item(),
            r.authorship == self.authorship,
            r.checkers@ == self.checkers@,
            r.outcome == self.outcome,
    {
        RecordCore {
            prev_hash: self.prev_hash,
            gate_id: self.gate_id.clone(),
            provenance: self.provenance.clone(),
            authorship: self.authorship,
            checkers: copy_entries(&self.checkers),
            outcome: self.outcome,
        }
    }
}

impl Canonical for RecordCore {
    open spec fn item(&self) -> Item {
        Item::Table(
            seq![
                (Item::Text("prev_hash"@), self.prev_hash.item()),
                (Item::Text("gate_id"@), self.gate_id.item()),
                (Item::Text("provenance"@), self.provenance.item()),
                (Item::Text("authorship"@), self.authorship.item()),
                (Item::Text("checkers"@), entries_item(self.checkers@)),
                (Item::Text("outcome"@), self.outcome.item()),
            ],
        )
    }

    fn to_value(&self) -> (r: ciborium::value::Value) {
        let mut fields: Vec<(ciborium::value::Value, ciborium::value::Value)> = Vec::new();
        fields.push(field("prev_hash", self.prev_hash.to_value()));
        fields.push(field("gate_id", self.gate_id.to_value()));
        fields.push(field("provenance", self.provenance.to_value()));
        fields.push(field("authorship", self.authorship.to_value()));
        fields.push(field("checkers", entries_value(&self.checkers)));
        fields.push(field("outcome", self.outcome.to_value()));
        let r = table_value(fields);
        assert(cbor_item(r)->Table_0 =~= self.item()->Table_0);
        r
    }
}

/// The digest of a data item: SHA-256 of its canonical bytes.
pub open spec fn item_digest(item: Item) -> Seq<u8> {
    sha256_digest(cbor_bytes(item))
}

/// A signed, hash-chained gate record. Immutable once built.
#[derive(PartialEq, Eq, Debug)]
pub struct GateRecord {
    pub core: RecordCore,
    pub this_hash: crate::ids::Hash,
}

impl Clone for GateRecord {
    fn clone(&self) -> (r: Self)
        ensures
            r.core.item() == self.core.item(),
            r.this_hash == self.this_hash,
    {
        GateRecord { core: self.core.clone(), this_hash: self.this_hash }
    }
}

#[derive(Clone, Copy, PartialEq, Eq, Structural, Debug)]
pub enum RecordError {
    HoldUnresolved,
}

impl RecordError {
    pub fn message(&self) -> (r: String)
        ensures
            r@ == "cannot record an unresolved gate"@,
    {
        match self {
            RecordError::HoldUnresolved => "cannot record an unresolved gate".to_owned(),
        }
    }
}

/// How a resolved hold is recorded.
pub open spec fn recorded_outcome(h: HoldView) -> Outcome {
    match h.outcome {
        Some(outcome) => outcome,
        None => Outcome::Blocked,
    }
}

/// The entry that records a cast verdict.
pub open spec fn entry_of(cv: CastVerdict) -> CheckerEntry {
    CheckerEntry {
        operator: cv.operator,
        cast_at: cv.cast_at,
        verdict: cv.verdict,
        depth: cv.depth,
        comment: cv.comment,
        signature: cv.signature,
    }
}

/// The entries that record a hold's verdicts, in the order they were cast.
pub open spec fn entries_of(verdicts: Seq<CastVerdict>) -> Seq<CheckerEntry> {
    verdicts.map_values(|cv: CastVerdict| entry_of(cv))
}

impl GateRecord {
    /// The stored hash is the hash of the contents.
    pub open spec fn hash_holds(&self) -> bool {
        self.this_hash.0@ == item_digest(self.core.item())
    }

    /// Build the record for a resolved hold, chained to `prev_hash`. A hold is
    /// resolved when it is either `Satisfied` (go verdicts, merge path) or
    /// `Blocked` (a no-go resolved it, intervention path). A blocked record's
    /// checker entries already carry the `NoGo(Remedy)` verdict and its
    /// signature: dissent and remedy are chained with no new fields. Open or
    /// in-progress holds are rejected.
    pub fn build(
        prev_hash: crate::ids::Hash,
        provenance: Provenance,
        hold: &DualHold,
    ) -> (r: Result<GateRecord, RecordError>)
        requires
            hold.wf(),
        ensures
            r is Ok <==> hold@.state.is_final(),
            r matches Ok(rec) ==> {
                &&& rec.core.prev_hash == prev_hash
                &&& rec.core.gate_id@ == hold@.gate_id
                &&& rec.core.provenance == provenance
                &&& rec.core.authorship == hold@.authorship
                &&& rec.core.checkers@ == entries_of(hold@.verdicts)
                &&& rec.core.outcome == recorded_outcome(hold@)
                &&& rec.hash_holds()
                &&& encodes_only(rec.core.item())
            },
    {
        let outcome = match hold.state() {
            HoldState::Satisfied => {
                match hold.outcome() {
                    Some(outcome) => outcome,
                    None => Outcome::Blocked,
                }
            },
            HoldState::Blocked => Outcome::Blocked,
            _ => {
                return Err(RecordError::HoldUnresolved);
            },
        };
        let checkers = checker_entries(hold);
        let core = RecordCore {
            prev_hash,
            gate_id: hold.gate_id().clone(),
            provenance,
            authorship: hold.authorship(),
            checkers,
            outcome,
        };
        let bytes = canonical_bytes(&core);
        let this_hash = sha256(bytes.as_slice());
        Ok(GateRecord { core, this_hash })
    }

    /// Recompute the hash from the core, for chain verification.
    pub fn recompute_hash(&self) -> (r: crate::ids::Hash)
        ensures
            r.0@ == item_digest(self.core.item()),
            encodes_only(self.core.item()),
    {
        let bytes = canonical_bytes(&self.core);
        sha256(bytes.as_slice())
    }
}

/// Extract the signed verdicts from a resolved hold as recordable checker
/// entries. Shared by the merge-gate and dispatch-gate record builders.
pub(crate) fn checker_entries(hold: &DualHold) -> (r: Vec<CheckerEntry>)
    ensures
        r@ == entries_of(hold@.verdicts),
{
    let raw = hold.raw_verdicts();
    let mut r: Vec<CheckerEntry> = Vec::new();
    let mut i: usize = 0;
    while i < raw.len()
        invariant
            0 <= i <= raw.len(),
            raw@.map_values(|v: SealedVerdict| v.inner()) == hold@.verdicts,
            r@ == entries_of(hold@.verdicts.take(i as int)),
        decreases raw.len() - i,
    {
        let cv = raw[i].raw();
        r.push(
            CheckerEntry {
                operator: cv.operator,
                cast_at: cv.cast_at,
                verdict: cv.verdict.clone(),
                depth: cv.depth,
                comment: copy_optional_text(&cv.comment),
                signature: cv.signature,
            },
        );
        i = i + 1;
    }
    r
}

/// How a dispatch gate concluded.
#[derive(Clone, Copy, PartialEq, Eq, Structural, Debug)]
pub enum DispatchOutcome {
    /// Both operators signed `go`; the prompt was handed to the agent.
    Dispatched,
    /// The compose was killed/closed before dispatch. Carries whatever signed
    /// approvals had been gathered; integrity rests on the hash chain and any
    /// signatures present. Nothing reached the agent.
    Abandoned,
}

impl Canonical for DispatchOutcome {
    open spec fn item(&self) -> Item {
        match self {
            DispatchOutcome::Dispatched => Item::Text("Dispatched"@),
            DispatchOutcome::Abandoned => Item::Text("Abandoned"@),
        }
    }

    fn to_value(&self) -> (r: ciborium::value::Value) {
        match self {
            DispatchOutcome::Dispatched => text_value("Dispatched"),
            DispatchOutcome::Abandoned => text_value("Abandoned"),
        }
    }
}

/// The bytes of a dispatch record that get hashed. Unlike a merge record this
/// is prompt-centric, not diff-centric: the prompt is a first-class field, not
/// smuggled into a diff slot.
#[derive(PartialEq, Eq, Debug)]
pub struct DispatchCore {
    pub prev_hash: crate::ids::Hash,
    pub gate_id: GateId,
    pub prompt: String,
    pub prompt_author: OperatorId,
    /// The operators who signed `go` on this prompt. Each signature binds to
    /// `prompt_hash(prompt)`, verified in `verify_chain`.
    pub approvers: Vec<CheckerEntry>,
    pub outcome: DispatchOutcome,
    /// The latest approver's cast time, or `Timestamp(0)` when abandoned with no
    /// approvals. A convenience summary; the per-approver `cast_at` is authoritative.
    pub resolved_at: Timestamp,
}

impl Clone for DispatchCore {
    fn clone(&self) -> (r: Self)
        ensures
            r.item() == self.item(),
    {
        DispatchCore {
            prev_hash: self.prev_hash,
            gate_id: self.gate_id.clone(),
            prompt: self.prompt.clone(),
            prompt_author: self.prompt_author,
            approvers: copy_entries(&self.approvers),
            outcome: self.outcome,
            resolved_at: self.resolved_at,
        }
    }
}

impl Canonical for DispatchCore {
    open spec fn item(&self) -> Item {
        Item::Table(
            seq![
                (Item::Text("prev_hash"@), self.prev_hash.item()),
                (Item::Text("gate_id"@), self.gate_id.item()),
                (Item::Text("prompt"@), Item::Text(self.prompt@)),
                (Item::Text("prompt_author"@), self.prompt_author.item()),
                (Item::Text("approvers"@), entries_item(self.approvers@)),
                (Item::Text("outcome"@), self.outcome.item()),
                (Item::Text("resolved_at"@), self.resolved_at.item()),
            ],
        )
    }

    fn to_value(&self) -> (r: ciborium::value::Value) {
        let mut fields: Vec<(ciborium::value::Value, ciborium::value::Value)> = Vec::new();
        fields.push(field("prev_hash", self.prev_hash.to_value()));
        fields.push(field("gate_id", self.gate_id.to_value()));
        fields.push(field("prompt", text_value(self.prompt.as_str())));
        fields.push(field("prompt_author", self.prompt_author.to_value()));
        fields.push(field("approvers", entries_value(&self.approvers)));
        fields.push(field("outcome", self.outcome.to_value()));
        fields.push(field("resolved_at", self.resolved_at.to_value()));
        let r = table_value(fields);
        assert(cbor_item(r)->Table_0 =~= self.item()->Table_0);
        r
    }
}

/// `t` is the latest cast time of the entries, or zero where there are none.
pub open spec fn latest_cast(entries: Seq<CheckerEntry>, t: Timestamp) -> bool {
    if entries.len() == 0 {
        t.0 == 0
    } else {
        &&& forall|i: int| 0 <= i < entries.len() ==> (#[trigger] entries[i]).cast_at.0 <= t.0
        &&& exists|i: int| 0 <= i < entries.len() && (#[trigger] entries[i]).cast_at == t
    }
}

/// A signed, hash-chained dispatch-gate record. Immutable once built.
#[derive(PartialEq, Eq, Debug)]
pub struct DispatchRecord {
    pub core: DispatchCore,
    pub this_hash: crate::ids::Hash,
}

impl Clone for DispatchRecord {
    fn clone(&self) -> (r: Self)
        ensures
            r.core.item() == self.core.item(),
            r.this_hash == self.this_hash,
    {
        DispatchRecord { core: self.core.clone(), this_hash: self.this_hash }
    }
}

impl DispatchRecord {
    /// The stored hash is the hash of the contents.
    pub open spec fn hash_holds(&self) -> bool {
        self.this_hash.0@ == item_digest(self.core.item())
    }

    /// The record holds exactly these values, the latest cast time and its own
    /// hash.
    pub open spec fn assembled(
        &self,
        prev_hash: crate::ids::Hash,
        gate_id: Seq<char>,
        prompt: String,
        prompt_author: OperatorId,
        approvers: Seq<CheckerEntry>,
        outcome: DispatchOutcome,
    ) -> bool {
        &&& self.core.prev_hash == prev_hash
        &&& self.core.gate_id@ == gate_id
        &&& self.core.prompt == prompt
        &&& self.core.prompt_author == prompt_author
        &&& self.core.approvers@ == approvers
        &&& self.core.outcome == outcome
        &&& latest_cast(approvers, self.core.resolved_at)
        &&& self.hash_holds()
        &&& encodes_only(self.core.item())
    }

    /// Build the record for a dispatched prompt: the hold must be `Satisfied`
    /// (distinct signed `go` verdicts; independence enforced by the hold).
    pub fn build_dispatched(
        prev_hash: crate::ids::Hash,
        prompt: String,
        prompt_author: OperatorId,
        hold: &DualHold,
    ) -> (r: Result<DispatchRecord, RecordError>)
        ensures
            r is Ok <==> hold@.state is Satisfied,
            r matches Ok(rec) ==> rec.assembled(
                prev_hash,
                hold@.gate_id,
                prompt,
                prompt_author,
                entries_of(hold@.verdicts),
                DispatchOutcome::Dispatched,
            ),
    {
        if hold.state() != HoldState::Satisfied {
            return Err(RecordError::HoldUnresolved);
        }
        let approvers = checker_entries(hold);
        Ok(
            Self::assemble(
                prev_hash,
                hold.gate_id().clone(),
                prompt,
                prompt_author,
                approvers,
                DispatchOutcome::Dispatched,
            ),
        )
    }

    /// Build the record for an abandoned compose: whatever signed approvals were
    /// gathered, no resolved hold required. Nothing merged.
    pub fn build_abandoned(
        prev_hash: crate::ids::Hash,
        prompt: String,
        prompt_author: OperatorId,
        approvers: Vec<CheckerEntry>,
    ) -> (r: DispatchRecord)
        ensures
            r.assembled(
                prev_hash,
                dispatch_id(),
                prompt,
                prompt_author,
                approvers@,
                DispatchOutcome::Abandoned,
            ),
    {
        Self::assemble(
            prev_hash,
            dispatch_gate_id(),
            prompt,
            prompt_author,
            approvers,
            DispatchOutcome::Abandoned,
        )
    }

    fn assemble(
        prev_hash: crate::ids::Hash,
        gate_id: GateId,
        prompt: String,
        prompt_author: OperatorId,
        approvers: Vec<CheckerEntry>,
        outcome: DispatchOutcome,
    ) -> (r: DispatchRecord)
        ensures
            r.assembled(prev_hash, gate_id@, prompt, prompt_author, approvers@, outcome),
    {
        let resolved_at = latest_cast_time(&approvers);
        let core = DispatchCore {
            prev_hash,
            gate_id,
            prompt,
            prompt_author,
            approvers,
            outcome,
            resolved_at,
        };
        let bytes = canonical_bytes(&core);
        let this_hash = sha256(bytes.as_slice());
        DispatchRecord { core, this_hash }
    }

    /// Recompute the hash from the core, for chain verification.
    pub fn recompute_hash(&self) -> (r: crate::ids::Hash)
        ensures
            r.0@ == item_digest(self.core.item()),
            encodes_only(self.core.item()),
    {
        let bytes = canonical_bytes(&self.core);
        sha256(bytes.as_slice())
    }
}

fn latest_cast_time(entries: &Vec<CheckerEntry>) -> (r: Timestamp)
    ensures
        latest_cast(entries@, r),
{
    if entries.len() == 0 {
        return Timestamp(0);
    }
    let mut t: Timestamp = entries[0].cast_at;
    let mut i: usize = 1;
    while i < entries.len()
        invariant
            1 <= i <= entries.len(),
            forall|j: int| 0 <= j < i ==> (#[trigger] entries@[j]).cast_at.0 <= t.0,
            exists|j: int| 0 <= j < i && (#[trigger] entries@[j]).cast_at == t,
        decreases entries.len() - i,
    {
        if entries[i].cast_at.0 > t.0 {
            t = entries[i].cast_at;
        }
        i = i + 1;
    }
    t
}

} // verus!

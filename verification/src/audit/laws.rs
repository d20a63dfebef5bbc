//! What a record's hash and a verdict's signature stand for.
use vstd::prelude::*;

use crate::audit::chain::{
    entry_break, entry_signature_holds, expected_prev, first_break, go_signers, head_of,
    verified, AuditEntry, ChainBreak,
};
use crate::audit::record::{
    dispatch_id, prompt_digest, CheckerEntry, DispatchCore, DispatchOutcome, DispatchRecord,
    GateRecord, Provenance, RecordCore,
};
use crate::canonical::{
    bytes_item_is_injective, cbor_bytes, encodes_only, sha256_digest, text_list_item, Canonical,
    Item,
};
use crate::gatehost::model::{gate_name, records_gate};
use crate::hold::HoldView;
use crate::ids::{OperatorId, Sig};
use crate::listing::{filter_picks, picked_at};
use crate::policy::{Authorship, Outcome};
use crate::sign::ed25519_verifies;
use crate::text::{decimal_spec, texts};
use crate::verdict::{Remedy, ReviewDepth, SignedContent, Verdict};

verus! {

/// Two verdicts decide the same, with the same remedy in the same words.
pub open spec fn decides_same(a: Verdict, b: Verdict) -> bool {
    match (a, b) {
        (Verdict::Go, Verdict::Go) => true,
        (Verdict::NoGo(Remedy::Steer(s)), Verdict::NoGo(Remedy::Steer(t))) => s@ == t@,
        (Verdict::NoGo(Remedy::HandEdit(h)), Verdict::NoGo(Remedy::HandEdit(k))) => h.0@ == k.0@,
        _ => false,
    }
}

/// Two recorded decisions agree in everything: who, when, what, how deeply
/// reviewed, with which comment and under which signature.
pub open spec fn same_decision(a: CheckerEntry, b: CheckerEntry) -> bool {
    &&& a.operator == b.operator
    &&& a.cast_at == b.cast_at
    &&& decides_same(a.verdict, b.verdict)
    &&& a.depth == b.depth
    &&& match (a.comment, b.comment) {
        (None, None) => true,
        (Some(s), Some(t)) => s@ == t@,
        _ => false,
    }
    &&& a.signature == b.signature
}

/// Two lists of recorded decisions agree, one by one.
pub open spec fn same_decisions(a: Seq<CheckerEntry>, b: Seq<CheckerEntry>) -> bool {
    a.len() == b.len() && forall|i: int|
        0 <= i < a.len() ==> same_decision(#[trigger] a[i], b[i])
}

// ---------------------------------------------------------------------------
// What a canonical encoding fixes
// ---------------------------------------------------------------------------
proof fn same_key(a: OperatorId, b: OperatorId)
    requires
        a.item() == b.item(),
    ensures
        a == b,
{
    bytes_item_is_injective(a.0@, b.0@);
    assert(a.0 =~= b.0);
}

proof fn same_hash(a: crate::ids::Hash, b: crate::ids::Hash)
    requires
        a.item() == b.item(),
    ensures
        a == b,
{
    bytes_item_is_injective(a.0@, b.0@);
    assert(a.0 =~= b.0);
}

proof fn same_signature(a: Sig, b: Sig)
    requires
        a.item() == b.item(),
    ensures
        a == b,
{
    bytes_item_is_injective(a.0@, b.0@);
    assert(a.0 =~= b.0);
}

proof fn same_texts(a: Seq<String>, b: Seq<String>)
    requires
        text_list_item(a) == text_list_item(b),
    ensures
        texts(a) == texts(b),
{
    let x = text_list_item(a)->Array_0;
    let y = text_list_item(b)->Array_0;
    assert(x.len() == a.len() && y.len() == b.len());
    assert forall|i: int| 0 <= i < a.len() implies texts(a)[i] == texts(b)[i] by {
        assert(x[i] == y[i]);
    }
    assert(texts(a) =~= texts(b));
}

/// The encoding of a verdict fixes what it decides, and its remedy.
pub proof fn verdict_encoding_fixes_it(a: Verdict, b: Verdict)
    requires
        a.item() == b.item(),
    ensures
        decides_same(a, b),
{
    reveal_strlit("Steer");
    reveal_strlit("HandEdit");
    assert("Steer"@.len() == 5);
    assert("HandEdit"@.len() == 8);
    if a is NoGo && b is NoGo {
        let x = a.item()->Table_0;
        let y = b.item()->Table_0;
        assert(x[0] == y[0]);
        let p = a->NoGo_0;
        let q = b->NoGo_0;
        assert(p.item() == q.item());
        let u = p.item()->Table_0[0];
        let v = q.item()->Table_0[0];
        assert(u == v);
        assert(u.0->Text_0.len() == v.0->Text_0.len());
        assert(u.1->Text_0 == v.1->Text_0);
    }
}

/// The encoding of a review's depth fixes it.
pub proof fn depth_encoding_fixes_it(a: ReviewDepth, b: ReviewDepth)
    requires
        a.item() == b.item(),
    ensures
        a == b,
{
    reveal_strlit("FullDiff");
    reveal_strlit("Summary");
    reveal_strlit("TestsRun");
    assert("FullDiff"@.len() == 8);
    assert("Summary"@.len() == 7);
    assert("TestsRun"@.len() == 8);
    assert("FullDiff"@[0] == 'F');
    assert("TestsRun"@[0] == 'T');
    assert(a.item()->Text_0.len() == b.item()->Text_0.len());
    assert(a.item()->Text_0[0] == b.item()->Text_0[0]);
}

/// The encoding of an authorship fixes it.
pub proof fn authorship_encoding_fixes_it(a: Authorship, b: Authorship)
    requires
        a.item() == b.item(),
    ensures
        a == b,
{
    reveal_strlit("Agent");
    reveal_strlit("HandEdited");
    reveal_strlit("Both");
    assert("Agent"@.len() == 5);
    assert("HandEdited"@.len() == 10);
    assert("Both"@.len() == 4);
    assert(a.item()->Text_0.len() == b.item()->Text_0.len());
}

/// The encoding of an outcome fixes it.
pub proof fn outcome_encoding_fixes_it(a: Outcome, b: Outcome)
    requires
        a.item() == b.item(),
    ensures
        a == b,
{
    reveal_strlit("Unanimous");
    reveal_strlit("ResolvedAfterDisagreement");
    reveal_strlit("Blocked");
    assert("Unanimous"@.len() == 9);
    assert("ResolvedAfterDisagreement"@.len() == 25);
    assert("Blocked"@.len() == 7);
    assert(a.item()->Text_0.len() == b.item()->Text_0.len());
}

/// The encoding of a dispatch's outcome fixes it.
pub proof fn dispatch_outcome_encoding_fixes_it(a: DispatchOutcome, b: DispatchOutcome)
    requires
        a.item() == b.item(),
    ensures
        a == b,
{
    reveal_strlit("Dispatched");
    reveal_strlit("Abandoned");
    assert("Dispatched"@.len() == 10);
    assert("Abandoned"@.len() == 9);
    assert(a.item()->Text_0.len() == b.item()->Text_0.len());
}

/// The encoding of a provenance fixes all of it: the task, the prompt and its
/// author, the agent, its model and version, the diff, the files and the counts.
pub proof fn provenance_encoding_fixes_it(a: Provenance, b: Provenance)
    requires
        a.item() == b.item(),
    ensures
        a.task_id.0@ == b.task_id.0@,
        a.prompt@ == b.prompt@,
        a.prompt_author == b.prompt_author,
        a.agent_id@ == b.agent_id@,
        a.agent_model@ == b.agent_model@,
        a.agent_version@ == b.agent_version@,
        a.diff_hash == b.diff_hash,
        texts(a.files@) == texts(b.files@),
        a.loc == b.loc,
        a.tokens == b.tokens,
        a@ == b@,
{
    let x = a.item()->Table_0;
    let y = b.item()->Table_0;
    assert(x[0] == y[0]);
    assert(x[1] == y[1]);
    assert(x[2] == y[2]);
    assert(x[3] == y[3]);
    assert(x[4] == y[4]);
    assert(x[5] == y[5]);
    assert(x[6] == y[6]);
    assert(x[7] == y[7]);
    assert(x[8] == y[8]);
    assert(x[9] == y[9]);
    same_key(a.prompt_author, b.prompt_author);
    same_hash(a.diff_hash, b.diff_hash);
    same_texts(a.files@, b.files@);
}

/// The encoding of a recorded decision fixes all of it.
pub proof fn decision_encoding_fixes_it(a: CheckerEntry, b: CheckerEntry)
    requires
        a.item() == b.item(),
    ensures
        same_decision(a, b),
{
    let x = a.item()->Table_0;
    let y = b.item()->Table_0;
    assert(x[0] == y[0]);
    assert(x[1] == y[1]);
    assert(x[2] == y[2]);
    assert(x[3] == y[3]);
    assert(x[4] == y[4]);
    assert(x[5] == y[5]);
    same_key(a.operator, b.operator);
    same_signature(a.signature, b.signature);
    verdict_encoding_fixes_it(a.verdict, b.verdict);
    depth_encoding_fixes_it(a.depth, b.depth);
}

proof fn decision_lists_are_fixed(a: Seq<CheckerEntry>, b: Seq<CheckerEntry>)
    requires
        crate::audit::record::entries_item(a) == crate::audit::record::entries_item(b),
    ensures
        same_decisions(a, b),
{
    let x = crate::audit::record::entries_item(a)->Array_0;
    let y = crate::audit::record::entries_item(b)->Array_0;
    assert(x.len() == a.len() && y.len() == b.len());
    assert forall|i: int| 0 <= i < a.len() implies same_decision(#[trigger] a[i], b[i]) by {
        assert(x[i] == y[i]);
        decision_encoding_fixes_it(a[i], b[i]);
    }
}

/// What is hashed of a gate record fixes all of the record but the hash itself.
pub proof fn hashed_core_fixes_the_record(a: RecordCore, b: RecordCore)
    requires
        a.item() == b.item(),
    ensures
        a.prev_hash == b.prev_hash,
        a.gate_id.0@ == b.gate_id.0@,
        a.provenance@ == b.provenance@,
        a.authorship == b.authorship,
        same_decisions(a.checkers@, b.checkers@),
        a.outcome == b.outcome,
{
    let x = a.item()->Table_0;
    let y = b.item()->Table_0;
    assert(x[0] == y[0]);
    assert(x[1] == y[1]);
    assert(x[2] == y[2]);
    assert(x[3] == y[3]);
    assert(x[4] == y[4]);
    assert(x[5] == y[5]);
    same_hash(a.prev_hash, b.prev_hash);
    provenance_encoding_fixes_it(a.provenance, b.provenance);
    authorship_encoding_fixes_it(a.authorship, b.authorship);
    decision_lists_are_fixed(a.checkers@, b.checkers@);
    outcome_encoding_fixes_it(a.outcome, b.outcome);
}

/// What is hashed of a dispatch record fixes all of the record but the hash
/// itself.
pub proof fn hashed_core_fixes_the_dispatch(a: DispatchCore, b: DispatchCore)
    requires
        a.item() == b.item(),
    ensures
        a.prev_hash == b.prev_hash,
        a.gate_id.0@ == b.gate_id.0@,
        a.prompt@ == b.prompt@,
        a.prompt_author == b.prompt_author,
        same_decisions(a.approvers@, b.approvers@),
        a.outcome == b.outcome,
        a.resolved_at == b.resolved_at,
{
    let x = a.item()->Table_0;
    let y = b.item()->Table_0;
    assert(x[0] == y[0]);
    assert(x[1] == y[1]);
    assert(x[2] == y[2]);
    assert(x[3] == y[3]);
    assert(x[4] == y[4]);
    assert(x[5] == y[5]);
    assert(x[6] == y[6]);
    same_hash(a.prev_hash, b.prev_hash);
    same_key(a.prompt_author, b.prompt_author);
    decision_lists_are_fixed(a.approvers@, b.approvers@);
    dispatch_outcome_encoding_fixes_it(a.outcome, b.outcome);
}

// ---------------------------------------------------------------------------
// Tampering
// ---------------------------------------------------------------------------
/// Rewriting any part of a chained gate record while its hash is kept is
/// reported at that record, as a hash that does not match, unless the two
/// encodings collide under SHA-256.
pub proof fn rewritten_record_is_reported(
    records: Seq<AuditEntry>,
    i: int,
    before: GateRecord,
    changed: GateRecord,
)
    requires
        verified(records),
        0 <= i < records.len() <= usize::MAX,
        records[i] == AuditEntry::Merge(before),
        encodes_only(before.core.item()),
        changed.this_hash == before.this_hash,
        ({
            ||| changed.core.prev_hash != before.core.prev_hash
            ||| changed.core.gate_id.0@ != before.core.gate_id.0@
            ||| changed.core.provenance.task_id.0@ != before.core.provenance.task_id.0@
            ||| changed.core.provenance.prompt@ != before.core.provenance.prompt@
            ||| changed.core.provenance.prompt_author != before.core.provenance.prompt_author
            ||| changed.core.provenance.agent_id@ != before.core.provenance.agent_id@
            ||| changed.core.provenance.agent_model@ != before.core.provenance.agent_model@
            ||| changed.core.provenance.agent_version@ != before.core.provenance.agent_version@
            ||| changed.core.provenance.diff_hash != before.core.provenance.diff_hash
            ||| texts(changed.core.provenance.files@) != texts(before.core.provenance.files@)
            ||| changed.core.provenance.loc != before.core.provenance.loc
            ||| changed.core.provenance.tokens != before.core.provenance.tokens
            ||| changed.core.authorship != before.core.authorship
            ||| !same_decisions(changed.core.checkers@, before.core.checkers@)
            ||| changed.core.outcome != before.core.outcome
        }),
        sha256_digest(cbor_bytes(changed.core.item())) == sha256_digest(
            cbor_bytes(before.core.item()),
        ) ==> cbor_bytes(changed.core.item()) == cbor_bytes(before.core.item()),
    ensures
        first_break(records.update(i, AuditEntry::Merge(changed)), 0) == Some(
            ChainBreak::HashMismatch(i as usize),
        ),
        !verified(records.update(i, AuditEntry::Merge(changed))),
{
    let entry = AuditEntry::Merge(changed);
    assert(entry_break(records, i) is None);
    if changed.core.item() == before.core.item() {
        hashed_core_fixes_the_record(changed.core, before.core);
        provenance_encoding_fixes_it(changed.core.provenance, before.core.provenance);
    }
    hash_break_is_reported(records, i, entry, 0);
    assert(entry_break(records.update(i, entry), i) is Some);
}

/// The same of a dispatch record.
pub proof fn rewritten_dispatch_is_reported(
    records: Seq<AuditEntry>,
    i: int,
    before: DispatchRecord,
    changed: DispatchRecord,
)
    requires
        verified(records),
        0 <= i < records.len() <= usize::MAX,
        records[i] == AuditEntry::Dispatch(before),
        encodes_only(before.core.item()),
        changed.this_hash == before.this_hash,
        ({
            ||| changed.core.prev_hash != before.core.prev_hash
            ||| changed.core.gate_id.0@ != before.core.gate_id.0@
            ||| changed.core.prompt@ != before.core.prompt@
            ||| changed.core.prompt_author != before.core.prompt_author
            ||| !same_decisions(changed.core.approvers@, before.core.approvers@)
            ||| changed.core.outcome != before.core.outcome
            ||| changed.core.resolved_at != before.core.resolved_at
        }),
        sha256_digest(cbor_bytes(changed.core.item())) == sha256_digest(
            cbor_bytes(before.core.item()),
        ) ==> cbor_bytes(changed.core.item()) == cbor_bytes(before.core.item()),
    ensures
        first_break(records.update(i, AuditEntry::Dispatch(changed)), 0) == Some(
            ChainBreak::HashMismatch(i as usize),
        ),
        !verified(records.update(i, AuditEntry::Dispatch(changed))),
{
    let entry = AuditEntry::Dispatch(changed);
    assert(entry_break(records, i) is None);
    if changed.core.item() == before.core.item() {
        hashed_core_fixes_the_dispatch(changed.core, before.core);
    }
    hash_break_is_reported(records, i, entry, 0);
    assert(entry_break(records.update(i, entry), i) is Some);
}

/// An entry whose hash does not match is where verification stops, when all
/// before it are in order.
proof fn hash_break_is_reported(records: Seq<AuditEntry>, i: int, entry: AuditEntry, from: int)
    requires
        verified(records),
        0 <= from <= i < records.len(),
        !entry.hash_holds(),
    ensures
        first_break(records.update(i, entry), from) == Some(ChainBreak::HashMismatch(i as usize)),
    decreases i - from,
{
    let changed = records.update(i, entry);
    if from < i {
        assert(entry_break(records, from) is None);
        assert(changed[from] == records[from]);
        assert(expected_prev(changed, from)
            == expected_prev(records, from));
        hash_break_is_reported(records, i, entry, from + 1);
    }
}

/// One entry of a chain is in order: its stored hash is the SHA-256 of its
/// encoding, it names the hash of the one before it (zeros for the first), and
/// every decision's signature is its operator's on that decision at that gate:
/// over the diff for a merge, over the prompt for a dispatch.
pub open spec fn in_order(records: Seq<AuditEntry>, i: int) -> bool {
    match records[i] {
        AuditEntry::Merge(r) => {
            &&& r.this_hash.0@ == sha256_digest(cbor_bytes(r.core.item()))
            &&& r.core.prev_hash.0@ == hash_before(records, i)
            &&& forall|k: int|
                0 <= k < r.core.checkers@.len() ==> entry_signature_holds(
                    r.core.gate_id.0@,
                    r.core.provenance.diff_hash.0@,
                    #[trigger] r.core.checkers@[k],
                )
        },
        AuditEntry::Dispatch(d) => {
            &&& d.this_hash.0@ == sha256_digest(cbor_bytes(d.core.item()))
            &&& d.core.prev_hash.0@ == hash_before(records, i)
            &&& forall|k: int|
                0 <= k < d.core.approvers@.len() ==> entry_signature_holds(
                    d.core.gate_id.0@,
                    sha256_digest(vstd::utf8::encode_utf8(d.core.prompt@)),
                    #[trigger] d.core.approvers@[k],
                )
        },
    }
}

/// The stored hash of the entry before, or zeros before the first.
pub open spec fn hash_before(records: Seq<AuditEntry>, i: int) -> Seq<u8> {
    if i <= 0 {
        Seq::new(32, |k: int| 0u8)
    } else {
        match records[i - 1] {
            AuditEntry::Merge(r) => r.this_hash.0@,
            AuditEntry::Dispatch(d) => d.this_hash.0@,
        }
    }
}

/// An entry breaks nothing exactly when it is in order.
proof fn unbroken_means_in_order(records: Seq<AuditEntry>, i: int)
    requires
        0 <= i < records.len(),
    ensures
        entry_break(records, i) is None <==> in_order(records, i),
{
    assert(hash_before(records, i) =~= expected_prev(records, i));
    match records[i] {
        AuditEntry::Merge(r) => {
            assert(records[i].entries() == r.core.checkers@);
            if in_order(records, i) {
                assert forall|k: int| 0 <= k < records[i].entries().len() implies
                    entry_signature_holds(
                    records[i].gate(),
                    records[i].reviewed_digest(),
                    #[trigger] records[i].entries()[k],
                ) by {
                    assert(entry_signature_holds(
                        r.core.gate_id.0@,
                        r.core.provenance.diff_hash.0@,
                        r.core.checkers@[k],
                    ));
                }
            }
            if records[i].signatures_hold() {
                assert forall|k: int| 0 <= k < r.core.checkers@.len() implies
                    entry_signature_holds(
                    r.core.gate_id.0@,
                    r.core.provenance.diff_hash.0@,
                    #[trigger] r.core.checkers@[k],
                ) by {
                    assert(entry_signature_holds(
                        records[i].gate(),
                        records[i].reviewed_digest(),
                        records[i].entries()[k],
                    ));
                }
            }
        },
        AuditEntry::Dispatch(d) => {
            assert(records[i].entries() == d.core.approvers@);
            if in_order(records, i) {
                assert forall|k: int| 0 <= k < records[i].entries().len() implies
                    entry_signature_holds(
                    records[i].gate(),
                    records[i].reviewed_digest(),
                    #[trigger] records[i].entries()[k],
                ) by {
                    assert(entry_signature_holds(
                        d.core.gate_id.0@,
                        sha256_digest(vstd::utf8::encode_utf8(d.core.prompt@)),
                        d.core.approvers@[k],
                    ));
                }
            }
            if records[i].signatures_hold() {
                assert forall|k: int| 0 <= k < d.core.approvers@.len() implies
                    entry_signature_holds(
                    d.core.gate_id.0@,
                    sha256_digest(vstd::utf8::encode_utf8(d.core.prompt@)),
                    #[trigger] d.core.approvers@[k],
                ) by {
                    assert(entry_signature_holds(
                        records[i].gate(),
                        records[i].reviewed_digest(),
                        records[i].entries()[k],
                    ));
                }
            }
        },
    }
}

/// A chain verifies exactly when every entry of it is in order.
pub proof fn verified_chain_is_in_order(records: Seq<AuditEntry>)
    ensures
        verified(records) <==> forall|i: int|
            0 <= i < records.len() ==> #[trigger] in_order(records, i),
{
    if verified(records) {
        assert forall|i: int| 0 <= i < records.len() implies #[trigger] in_order(records, i) by {
            assert(entry_break(records, i) is None);
            unbroken_means_in_order(records, i);
        }
    }
    if forall|i: int| 0 <= i < records.len() ==> #[trigger] in_order(records, i) {
        assert forall|i: int| 0 <= i < records.len() implies #[trigger] entry_break(records, i)
            is None by {
            assert(in_order(records, i));
            unbroken_means_in_order(records, i);
        }
    }
}

/// What is reported of a chain is its first fault: everything before it is in
/// order, and the entry it names has the fault it names, where a hash counts
/// before a link and a link before a signature.
pub proof fn reported_break_is_the_first(records: Seq<AuditEntry>, e: ChainBreak)
    requires
        first_break(records, 0) == Some(e),
        records.len() <= usize::MAX,
    ensures
        ({
            let at = match e {
                ChainBreak::HashMismatch(i) => i as int,
                ChainBreak::BrokenLink(i) => i as int,
                ChainBreak::BadCheckerSignature(i) => i as int,
            };
            let matches_hash = records[at].this().0@ == sha256_digest(
                cbor_bytes(records[at].contents()),
            );
            let links = records[at].prev().0@ == hash_before(records, at);
            &&& 0 <= at < records.len()
            &&& verified(records.take(at))
            &&& match e {
                ChainBreak::HashMismatch(_) => !matches_hash,
                ChainBreak::BrokenLink(_) => matches_hash && !links,
                ChainBreak::BadCheckerSignature(_) => matches_hash && links && !in_order(
                    records,
                    at,
                ),
            }
        }),
{
    break_is_somewhere(records, e, 0);
    let at = match e {
        ChainBreak::HashMismatch(i) => i as int,
        ChainBreak::BrokenLink(i) => i as int,
        ChainBreak::BadCheckerSignature(i) => i as int,
    };
    assert(entry_break(records, at) == Some(e));
    unbroken_means_in_order(records, at);
    assert(hash_before(records, at) =~= expected_prev(records, at));
    let shorter = records.take(at);
    assert forall|i: int| 0 <= i < shorter.len() implies
        #[trigger] entry_break(shorter, i) is None by {
        assert(entry_break(records, i) is None);
        assert(shorter[i] == records[i]);
        assert(expected_prev(shorter, i)
            == expected_prev(records, i));
    }
}

proof fn break_is_somewhere(records: Seq<AuditEntry>, e: ChainBreak, from: int)
    requires
        0 <= from <= records.len() <= usize::MAX,
        first_break(records, from) == Some(e),
    ensures
        ({
            let at = match e {
                ChainBreak::HashMismatch(i) => i as int,
                ChainBreak::BrokenLink(i) => i as int,
                ChainBreak::BadCheckerSignature(i) => i as int,
            };
            &&& from <= at < records.len()
            &&& entry_break(records, at) == Some(e)
            &&& forall|i: int|
                from <= i < at ==> #[trigger] entry_break(records, i) is None
        }),
    decreases records.len() - from,
{
    if from < records.len() && entry_break(records, from) is None {
        break_is_somewhere(records, e, from + 1);
    }
}

// ---------------------------------------------------------------------------
// Signatures
// ---------------------------------------------------------------------------
/// What an operator signs fixes all of it: which gate and which diff, who
/// decided, what, how deeply reviewed and when.
pub proof fn signed_content_is_fixed(a: SignedContent, b: SignedContent)
    requires
        a.item() == b.item(),
    ensures
        a.gate_id.0@ == b.gate_id.0@,
        a.diff_hash == b.diff_hash,
        a.operator == b.operator,
        decides_same(a.verdict, b.verdict),
        a.depth == b.depth,
        a.cast_at == b.cast_at,
{
    let x = a.item()->Table_0;
    let y = b.item()->Table_0;
    assert(x[0] == y[0]);
    assert(x[1] == y[1]);
    assert(x[2] == y[2]);
    assert(x[3] == y[3]);
    assert(x[4] == y[4]);
    assert(x[5] == y[5]);
    bytes_item_is_injective(a.diff_hash.0@, b.diff_hash.0@);
    assert(a.diff_hash.0 =~= b.diff_hash.0);
    same_key(a.operator, b.operator);
    verdict_encoding_fixes_it(a.verdict, b.verdict);
    depth_encoding_fixes_it(a.depth, b.depth);
}

/// A recorded decision's signature is an Ed25519 signature of its own operator
/// on the encoding of exactly what that operator decided.
pub proof fn recorded_signature_is_the_operators(content: SignedContent, checker: CheckerEntry)
    requires
        content.operator == checker.operator,
        content.verdict == checker.verdict,
        content.depth == checker.depth,
        content.cast_at == checker.cast_at,
    ensures
        entry_signature_holds(content.gate_id.0@, content.diff_hash.0@, checker)
            <==> ed25519_verifies(
            checker.operator.0@,
            cbor_bytes(content.item()),
            checker.signature.0@,
        ),
{
}

/// One prompt's approval is no other prompt's: two prompts have one digest only
/// where they are the same, or their bytes collide under SHA-256.
pub proof fn prompt_digest_fixes_the_prompt(a: Seq<char>, b: Seq<char>)
    requires
        prompt_digest(a) == prompt_digest(b),
        sha256_digest(vstd::utf8::encode_utf8(a)) == sha256_digest(vstd::utf8::encode_utf8(b))
            ==> vstd::utf8::encode_utf8(a) == vstd::utf8::encode_utf8(b),
    ensures
        a == b,
{
    vstd::utf8::encode_utf8_decode_utf8(a);
    vstd::utf8::encode_utf8_decode_utf8(b);
}

/// Who stands behind an entry: an operator is named exactly when the entry holds
/// a go of theirs whose signature verifies.
pub proof fn named_signers_signed_a_go(entry: AuditEntry, op: OperatorId)
    ensures
        go_signers(entry).contains(op) <==> exists|k: int|
            0 <= k < entry.entries().len() && (#[trigger] entry.entries()[k]).operator == op
                && entry.entries()[k].verdict is Go && entry_signature_holds(
                entry.gate(),
                entry.reviewed_digest(),
                entry.entries()[k],
            ),
{
    let keep = |c: CheckerEntry|
        c.verdict is Go && entry_signature_holds(entry.gate(), entry.reviewed_digest(), c);
    let all = entry.entries();
    let kept = all.filter(keep);
    assert(go_signers(entry) == kept.map_values(|c: CheckerEntry| c.operator));
    let places = filter_picks(all, keep);
    if go_signers(entry).contains(op) {
        let j = choose|j: int| 0 <= j < go_signers(entry).len() && go_signers(entry)[j] == op;
        assert(all[places[j]].operator == op && keep(all[places[j]]));
    }
    if exists|k: int|
        0 <= k < all.len() && (#[trigger] all[k]).operator == op && keep(all[k]) {
        let k = choose|k: int|
            0 <= k < all.len() && (#[trigger] all[k]).operator == op && keep(all[k]);
        assert(places.contains(k));
        let j = choose|j: int| 0 <= j < places.len() && places[j] == k;
        assert(kept[j] == all[k]);
        assert(go_signers(entry)[j] == op);
    }
}

// ---------------------------------------------------------------------------
// What is recorded
// ---------------------------------------------------------------------------
/// A gate's record says of its review what happened: every verdict that was cast,
/// in order, with its operator, time, depth, comment and signature; whose work it
/// was; how it ended; and all of the provenance.
pub proof fn record_says_what_happened(
    entry: AuditEntry,
    prev: Seq<u8>,
    provenance: crate::audit::record::ProvenanceView,
    hold: HoldView,
)
    requires
        hold.valid(),
        records_gate(entry, prev, provenance, hold),
    ensures
        entry matches AuditEntry::Merge(rec) && {
            &&& rec.core.prev_hash.0@ == prev
            &&& rec.core.gate_id.0@ == hold.gate_id
            &&& rec.core.provenance.task_id.0@ == provenance.task_id
            &&& rec.core.provenance.prompt@ == provenance.prompt
            &&& rec.core.provenance.prompt_author == provenance.prompt_author
            &&& rec.core.provenance.agent_id@ == provenance.agent_id
            &&& rec.core.provenance.agent_model@ == provenance.agent_model
            &&& rec.core.provenance.agent_version@ == provenance.agent_version
            &&& rec.core.provenance.diff_hash.0@ == provenance.diff_hash
            &&& texts(rec.core.provenance.files@) == provenance.files
            &&& rec.core.provenance.loc == provenance.loc
            &&& rec.core.provenance.tokens == provenance.tokens
            &&& rec.core.authorship == hold.authorship
            &&& rec.core.checkers@.len() == hold.verdicts.len()
            &&& forall|k: int|
                0 <= k < hold.verdicts.len() ==> {
                    &&& (#[trigger] rec.core.checkers@[k]).operator == hold.verdicts[k].operator
                    &&& rec.core.checkers@[k].cast_at == hold.verdicts[k].cast_at
                    &&& rec.core.checkers@[k].verdict == hold.verdicts[k].verdict
                    &&& rec.core.checkers@[k].depth == hold.verdicts[k].depth
                    &&& rec.core.checkers@[k].comment == hold.verdicts[k].comment
                    &&& rec.core.checkers@[k].signature == hold.verdicts[k].signature
                }
            &&& hold.state is Satisfied && !hold.contested ==> rec.core.outcome is Unanimous
            &&& hold.state is Satisfied && hold.contested
                ==> rec.core.outcome is ResolvedAfterDisagreement
            &&& hold.state is Blocked ==> rec.core.outcome is Blocked
            &&& rec.this_hash.0@ == sha256_digest(cbor_bytes(rec.core.item()))
        },
{
}

/// A dispatch record says what was approved, by whom and how it ended, and is
/// stamped with the latest approval, or zero where there is none.
pub proof fn dispatch_record_says_what_happened(
    rec: DispatchRecord,
    prev_hash: crate::ids::Hash,
    gate_id: Seq<char>,
    prompt: String,
    prompt_author: OperatorId,
    approvers: Seq<CheckerEntry>,
    outcome: DispatchOutcome,
)
    requires
        rec.assembled(prev_hash, gate_id, prompt, prompt_author, approvers, outcome),
    ensures
        rec.core.prev_hash == prev_hash,
        rec.core.gate_id.0@ == gate_id,
        rec.core.prompt@ == prompt@,
        rec.core.prompt_author == prompt_author,
        rec.core.approvers@ == approvers,
        rec.core.outcome == outcome,
        approvers.len() == 0 ==> rec.core.resolved_at.0 == 0,
        forall|k: int|
            0 <= k < approvers.len() ==> (#[trigger] approvers[k]).cast_at.0
                <= rec.core.resolved_at.0,
        approvers.len() > 0 ==> exists|k: int|
            0 <= k < approvers.len() && (#[trigger] approvers[k]).cast_at.0
                == rec.core.resolved_at.0,
        rec.this_hash.0@ == sha256_digest(cbor_bytes(rec.core.item())),
{
}

// ---------------------------------------------------------------------------
// How it is encoded and named
// ---------------------------------------------------------------------------
/// The names of a table's fields, in order.
pub open spec fn field_names(item: Item) -> Seq<Item> {
    item->Table_0.map_values(|f: (Item, Item)| f.0)
}

/// What is hashed and signed names each of its fields, in a fixed order.
pub proof fn encoded_fields_are_named(
    provenance: Provenance,
    checker: CheckerEntry,
    record: RecordCore,
    dispatch: DispatchCore,
    content: SignedContent,
)
    ensures
        provenance.item() is Table && field_names(provenance.item()) == seq![
            Item::Text("task_id"@),
            Item::Text("prompt"@),
            Item::Text("prompt_author"@),
            Item::Text("agent_id"@),
            Item::Text("agent_model"@),
            Item::Text("agent_version"@),
            Item::Text("diff_hash"@),
            Item::Text("files"@),
            Item::Text("loc"@),
            Item::Text("tokens"@),
        ],
        checker.item() is Table && field_names(checker.item()) == seq![
            Item::Text("operator"@),
            Item::Text("cast_at"@),
            Item::Text("verdict"@),
            Item::Text("depth"@),
            Item::Text("comment"@),
            Item::Text("signature"@),
        ],
        record.item() is Table && field_names(record.item()) == seq![
            Item::Text("prev_hash"@),
            Item::Text("gate_id"@),
            Item::Text("provenance"@),
            Item::Text("authorship"@),
            Item::Text("checkers"@),
            Item::Text("outcome"@),
        ],
        dispatch.item() is Table && field_names(dispatch.item()) == seq![
            Item::Text("prev_hash"@),
            Item::Text("gate_id"@),
            Item::Text("prompt"@),
            Item::Text("prompt_author"@),
            Item::Text("approvers"@),
            Item::Text("outcome"@),
            Item::Text("resolved_at"@),
        ],
        content.item() is Table && field_names(content.item()) == seq![
            Item::Text("gate_id"@),
            Item::Text("diff_hash"@),
            Item::Text("operator"@),
            Item::Text("verdict"@),
            Item::Text("depth"@),
            Item::Text("cast_at"@),
        ],
{
}

/// A choice is encoded by its name, and a remedy by its name and its words.
pub proof fn encoded_choices_are_named(words: String, edit: crate::ids::HandEditRef)
    ensures
        Verdict::Go.item() == Item::Text("Go"@),
        Verdict::NoGo(Remedy::Steer(words)).item() == Item::Table(
            seq![
                (
                    Item::Text("NoGo"@),
                    Item::Table(seq![(Item::Text("Steer"@), Item::Text(words@))]),
                ),
            ],
        ),
        Verdict::NoGo(Remedy::HandEdit(edit)).item() == Item::Table(
            seq![
                (
                    Item::Text("NoGo"@),
                    Item::Table(seq![(Item::Text("HandEdit"@), Item::Text(edit.0@))]),
                ),
            ],
        ),
        ReviewDepth::FullDiff.item() == Item::Text("FullDiff"@),
        ReviewDepth::Summary.item() == Item::Text("Summary"@),
        ReviewDepth::TestsRun.item() == Item::Text("TestsRun"@),
        Authorship::Agent.item() == Item::Text("Agent"@),
        Authorship::HandEdited.item() == Item::Text("HandEdited"@),
        Authorship::Both.item() == Item::Text("Both"@),
        Outcome::Unanimous.item() == Item::Text("Unanimous"@),
        Outcome::ResolvedAfterDisagreement.item() == Item::Text("ResolvedAfterDisagreement"@),
        Outcome::Blocked.item() == Item::Text("Blocked"@),
        DispatchOutcome::Dispatched.item() == Item::Text("Dispatched"@),
        DispatchOutcome::Abandoned.item() == Item::Text("Abandoned"@),
{
}

/// Keys, digests and signatures are encoded byte by byte, and a list of texts text
/// by text.
pub proof fn encoded_bytes_are_kept(op: OperatorId, sig: Sig, words: Seq<String>, i: int)
    ensures
        op.item() is Array && op.item()->Array_0.len() == 32,
        0 <= i < 32 ==> op.item()->Array_0[i] == Item::Int(op.0@[i] as int),
        sig.item() is Array && sig.item()->Array_0.len() == 64,
        0 <= i < 64 ==> sig.item()->Array_0[i] == Item::Int(sig.0@[i] as int),
        text_list_item(words) is Array && text_list_item(words)->Array_0.len() == words.len(),
        0 <= i < words.len() ==> text_list_item(words)->Array_0[i] == Item::Text(words[i]@),
{
}

/// A dispatch is approved under a gate of its own, over the digest of its prompt's
/// bytes, which no numbered gate has for its id.
pub proof fn dispatches_have_a_gate_of_their_own(prompt: Seq<char>, n: nat)
    ensures
        dispatch_id() == "dispatch"@,
        dispatch_id() != gate_name(n),
        prompt_digest(prompt) == sha256_digest(vstd::utf8::encode_utf8(prompt)),
{
    reveal_strlit("dispatch");
    reveal_strlit("gate-");
    assert("dispatch"@[0] == 'd');
    assert(gate_name(n)[0] == 'g');
}

/// The head of a chain is the hash of its last entry, and thirty-two zero bytes
/// where there is none.
pub proof fn heads_are_the_last_hash(records: Seq<AuditEntry>)
    ensures
        records.len() == 0 ==> head_of(records).len() == 32 && forall|i: int|
            0 <= i < 32 ==> #[trigger] head_of(records)[i] == 0,
        records.len() > 0 ==> head_of(records) == match records.last() {
            AuditEntry::Merge(rec) => rec.this_hash.0@,
            AuditEntry::Dispatch(rec) => rec.this_hash.0@,
        },
{
}

/// A break says at which record it is, and what is wrong there.
pub proof fn breaks_say_where_they_are(i: usize)
    ensures
        ChainBreak::HashMismatch(i).words() == "record "@ + decimal_spec(i as nat)
            + " hash does not match its contents"@,
        ChainBreak::BrokenLink(i).words() == "record "@ + decimal_spec(i as nat)
            + " prev_hash does not match the previous record"@,
        ChainBreak::BadCheckerSignature(i).words() == "record "@ + decimal_spec(i as nat)
            + " has an invalid checker signature"@,
{
}

/// An entry is its gate's, over the diff of a merge or the prompt of a dispatch,
/// and holds the decisions that were recorded.
pub proof fn entries_are_what_was_recorded(merge: GateRecord, dispatch: DispatchRecord)
    ensures
        AuditEntry::Merge(merge).gate() == merge.core.gate_id.0@,
        AuditEntry::Merge(merge).reviewed_digest() == merge.core.provenance.diff_hash.0@,
        AuditEntry::Merge(merge).entries() == merge.core.checkers@,
        AuditEntry::Merge(merge).prev() == merge.core.prev_hash,
        AuditEntry::Merge(merge).this() == merge.this_hash,
        AuditEntry::Dispatch(dispatch).gate() == dispatch.core.gate_id.0@,
        AuditEntry::Dispatch(dispatch).reviewed_digest() == sha256_digest(
            vstd::utf8::encode_utf8(dispatch.core.prompt@),
        ),
        AuditEntry::Dispatch(dispatch).entries() == dispatch.core.approvers@,
        AuditEntry::Dispatch(dispatch).prev() == dispatch.core.prev_hash,
        AuditEntry::Dispatch(dispatch).this() == dispatch.this_hash,
{
}

/// This decision is a go of its operator on what the entry is over.
pub open spec fn backs(entry: AuditEntry, checker: CheckerEntry) -> bool {
    checker.verdict is Go && entry_signature_holds(
        entry.gate(),
        entry.reviewed_digest(),
        checker,
    )
}

pub open spec fn backing(entry: AuditEntry) -> spec_fn(CheckerEntry) -> bool {
    |checker: CheckerEntry| backs(entry, checker)
}

/// Those who stand behind an entry are named in the order they decided, once for
/// each go of theirs that verifies.
pub proof fn signers_are_named_in_order(entry: AuditEntry) -> (places: Seq<int>)
    ensures
        picked_at(
            entry.entries(),
            backing(entry),
            entry.entries().filter(backing(entry)),
            places,
        ),
        go_signers(entry).len() == places.len(),
        forall|j: int|
            0 <= j < places.len() ==> #[trigger] go_signers(entry)[j]
                == entry.entries()[places[j]].operator,
{
    let keep = |c: CheckerEntry|
        c.verdict is Go && entry_signature_holds(entry.gate(), entry.reviewed_digest(), c);
    assert(keep =~= backing(entry));
    filter_picks(entry.entries(), backing(entry))
}

} // verus!

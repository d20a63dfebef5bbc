//! The audit chain: entries linked by hash, verifiable offline.
use vstd::prelude::*;

use crate::audit::record::{
    entries_of, item_digest, prompt_digest, prompt_hash, CheckerEntry, DispatchRecord, GateRecord,
};
use crate::canonical::{
    bytes_item_is_injective, canonical_bytes, cbor_bytes, encodes_only, Canonical, Item,
};
use crate::hold::HoldView;
use crate::ids::{GateId, OperatorId};
use crate::sign::{ed25519_verifies, verify};
use crate::text::{decimal, decimal_spec};
use crate::verdict::{signed_item, CastVerdict, SignedContent};

verus! {

/// The digest before the first record: 32 zero bytes.
pub open spec fn genesis_digest() -> Seq<u8> {
    Seq::new(32, |i: int| 0u8)
}

/// The genesis anchor: the `prev_hash` of the first real record.
pub fn genesis() -> (r: crate::ids::Hash)
    ensures
        r.0@ == genesis_digest(),
{
    let r = crate::ids::Hash([0u8; 32]);
    r
}

/// Two hashes are equal exactly when their bytes are.
proof fn same_digest_same_hash(a: crate::ids::Hash, b: crate::ids::Hash)
    ensures
        a == b <==> a.0@ == b.0@,
{
    if a.0@ == b.0@ {
        assert(a.0 =~= b.0);
    }
}

/// One entry in the audit chain. Both kinds share the `prev_hash`/`this_hash`
/// chaining discipline; a merge entry signs over its diff, a dispatch entry
/// over its prompt.
#[derive(PartialEq, Eq, Debug)]
pub enum AuditEntry {
    Merge(GateRecord),
    Dispatch(DispatchRecord),
}

impl Clone for AuditEntry {
    fn clone(&self) -> (r: Self)
        ensures
            r.contents() == self.contents(),
            r.this() == self.this(),
            r is Merge <==> *self is Merge,
    {
        match self {
            AuditEntry::Merge(rec) => AuditEntry::Merge(rec.clone()),
            AuditEntry::Dispatch(d) => AuditEntry::Dispatch(d.clone()),
        }
    }
}

impl AuditEntry {
    /// The hash of the entry before.
    pub open spec fn prev(&self) -> crate::ids::Hash {
        match self {
            AuditEntry::Merge(r) => r.core.prev_hash,
            AuditEntry::Dispatch(d) => d.core.prev_hash,
        }
    }

    /// The entry's stored hash.
    pub open spec fn this(&self) -> crate::ids::Hash {
        match self {
            AuditEntry::Merge(r) => r.this_hash,
            AuditEntry::Dispatch(d) => d.this_hash,
        }
    }

    /// The data item that the entry's hash is over: all of the entry but the
    /// hash itself.
    pub open spec fn contents(&self) -> Item {
        match self {
            AuditEntry::Merge(r) => r.core.item(),
            AuditEntry::Dispatch(d) => d.core.item(),
        }
    }

    pub open spec fn gate(&self) -> Seq<char> {
        match self {
            AuditEntry::Merge(r) => r.core.gate_id@,
            AuditEntry::Dispatch(d) => d.core.gate_id@,
        }
    }

    /// The digest that this entry's checkers signed: of the diff for a merge,
    /// of the prompt for a dispatch.
    pub open spec fn reviewed_digest(&self) -> Seq<u8> {
        match self {
            AuditEntry::Merge(r) => r.core.provenance.diff_hash.0@,
            AuditEntry::Dispatch(d) => prompt_digest(d.core.prompt@),
        }
    }

    /// The signed decisions behind this entry.
    pub open spec fn entries(&self) -> Seq<CheckerEntry> {
        match self {
            AuditEntry::Merge(r) => r.core.checkers@,
            AuditEntry::Dispatch(d) => d.core.approvers@,
        }
    }

    /// The stored hash is the hash of the contents.
    pub open spec fn hash_holds(&self) -> bool {
        self.this().0@ == item_digest(self.contents())
    }

    /// Every signature of this entry is valid on what it was given for.
    pub open spec fn signatures_hold(&self) -> bool {
        forall|i: int|
            0 <= i < self.entries().len() ==> entry_signature_holds(
                self.gate(),
                self.reviewed_digest(),
                #[trigger] self.entries()[i],
            )
    }

    pub fn prev_hash(&self) -> (r: crate::ids::Hash)
        ensures
            r == self.prev(),
    {
        match self {
            AuditEntry::Merge(r) => r.core.prev_hash,
            AuditEntry::Dispatch(d) => d.core.prev_hash,
        }
    }

    pub fn this_hash(&self) -> (r: crate::ids::Hash)
        ensures
            r == self.this(),
    {
        match self {
            AuditEntry::Merge(r) => r.this_hash,
            AuditEntry::Dispatch(d) => d.this_hash,
        }
    }

    pub fn recompute_hash(&self) -> (r: crate::ids::Hash)
        ensures
            r.0@ == item_digest(self.contents()),
            encodes_only(self.contents()),
    {
        match self {
            AuditEntry::Merge(r) => r.recompute_hash(),
            AuditEntry::Dispatch(d) => d.recompute_hash(),
        }
    }

    pub fn gate_id(&self) -> (r: &GateId)
        ensures
            r@ == self.gate(),
    {
        match self {
            AuditEntry::Merge(r) => &r.core.gate_id,
            AuditEntry::Dispatch(d) => &d.core.gate_id,
        }
    }

    /// The `(gate_id, diff_hash, checker entries)` a verifier needs to check
    /// this entry's signatures. For a dispatch the "diff_hash" is the prompt
    /// hash: the content each approver actually signed.
    fn signed_over(&self) -> (r: (&GateId, crate::ids::Hash, &Vec<CheckerEntry>))
        ensures
            r.0@ == self.gate(),
            r.1.0@ == self.reviewed_digest(),
            r.2@ == self.entries(),
    {
        match self {
            AuditEntry::Merge(r) => (
                &r.core.gate_id,
                r.core.provenance.diff_hash,
                &r.core.checkers,
            ),
            AuditEntry::Dispatch(d) => (
                &d.core.gate_id,
                prompt_hash(d.core.prompt.as_str()),
                &d.core.approvers,
            ),
        }
    }
}

#[derive(Clone, Copy, PartialEq, Eq, Structural, Debug)]
pub enum ChainError {
    WrongPrevHash,
}

impl ChainError {
    pub fn message(&self) -> (r: String)
        ensures
            r@ == "record's prev_hash does not match the chain head"@,
    {
        match self {
            ChainError::WrongPrevHash => "record's prev_hash does not match the chain head"
                .to_owned(),
        }
    }
}

#[derive(Clone, Copy, PartialEq, Eq, Structural, Debug)]
pub enum ChainBreak {
    HashMismatch(usize),
    BrokenLink(usize),
    BadCheckerSignature(usize),
}

impl ChainBreak {
    pub open spec fn words(self) -> Seq<char> {
        match self {
            ChainBreak::HashMismatch(i) => "record "@ + decimal_spec(i as nat)
                + " hash does not match its contents"@,
            ChainBreak::BrokenLink(i) => "record "@ + decimal_spec(i as nat)
                + " prev_hash does not match the previous record"@,
            ChainBreak::BadCheckerSignature(i) => "record "@ + decimal_spec(i as nat)
                + " has an invalid checker signature"@,
        }
    }

    pub fn message(&self) -> (r: String)
        ensures
            r@ == self.words(),
    {
        let (at, rest) = match self {
            ChainBreak::HashMismatch(i) => (*i, " hash does not match its contents"),
            ChainBreak::BrokenLink(i) => (*i, " prev_hash does not match the previous record"),
            ChainBreak::BadCheckerSignature(i) => (*i, " has an invalid checker signature"),
        };
        let n = decimal(at as u64);
        "record ".to_owned().concat(n.as_str()).concat(rest)
    }
}

/// The hash to chain the next entry onto.
pub open spec fn head_of(records: Seq<AuditEntry>) -> Seq<u8> {
    if records.len() == 0 {
        genesis_digest()
    } else {
        records.last().this().0@
    }
}

/// An append-only chain of audit entries.
#[derive(Clone, Debug)]
pub struct AuditChain {
    records: Vec<AuditEntry>,
}

impl View for AuditChain {
    type V = Seq<AuditEntry>;

    closed spec fn view(&self) -> Seq<AuditEntry> {
        self.records@
    }
}

impl Default for AuditChain {
    fn default() -> (r: Self)
        ensures
            r@ == Seq::<AuditEntry>::empty(),
    {
        AuditChain::new()
    }
}

impl AuditChain {
    pub fn new() -> (r: Self)
        ensures
            r@ == Seq::<AuditEntry>::empty(),
    {
        AuditChain { records: Vec::new() }
    }

    /// The hash to chain the next record onto: the last entry's `this_hash`,
    /// or the genesis anchor when empty.
    pub fn head(&self) -> (r: crate::ids::Hash)
        ensures
            r.0@ == head_of(self@),
    {
        if self.records.len() == 0 {
            genesis()
        } else {
            self.records[self.records.len() - 1].this_hash()
        }
    }

    /// Append an entry. Its `prev_hash` must equal the current head.
    pub fn append(&mut self, entry: AuditEntry) -> (r: Result<(), ChainError>)
        ensures
            r is Ok <==> entry.prev().0@ == head_of(old(self)@),
            r is Ok ==> final(self)@ == old(self)@.push(entry),
            r is Err ==> final(self)@ == old(self)@,
    {
        let prev = entry.prev_hash();
        let head = self.head();
        proof {
            same_digest_same_hash(prev, head);
        }
        if prev != head {
            return Err(ChainError::WrongPrevHash);
        }
        self.records.push(entry);
        Ok(())
    }

    pub fn records(&self) -> (r: &[AuditEntry])
        ensures
            r@ == self@,
    {
        self.records.as_slice()
    }
}

/// The signature of an entry is its operator's, on its decision at this gate
/// over this digest.
pub open spec fn entry_signature_holds(
    gate_id: Seq<char>,
    digest: Seq<u8>,
    checker: CheckerEntry,
) -> bool {
    ed25519_verifies(
        checker.operator.0@,
        cbor_bytes(
            signed_item(
                gate_id,
                digest,
                checker.operator,
                checker.verdict,
                checker.depth,
                checker.cast_at,
            ),
        ),
        checker.signature.0@,
    )
}

/// The hash that entry `i` has to name as the one before it.
pub open spec fn expected_prev(records: Seq<AuditEntry>, i: int) -> Seq<u8> {
    if i <= 0 {
        genesis_digest()
    } else {
        records[i - 1].this().0@
    }
}

/// What is wrong with entry `i`, if anything: its hash first, then its link,
/// then its signatures.
pub open spec fn entry_break(records: Seq<AuditEntry>, i: int) -> Option<ChainBreak> {
    if !records[i].hash_holds() {
        Some(ChainBreak::HashMismatch(i as usize))
    } else if records[i].prev().0@ != expected_prev(records, i) {
        Some(ChainBreak::BrokenLink(i as usize))
    } else if !records[i].signatures_hold() {
        Some(ChainBreak::BadCheckerSignature(i as usize))
    } else {
        None
    }
}

/// The first break at or after entry `from`.
pub open spec fn first_break(records: Seq<AuditEntry>, from: int) -> Option<ChainBreak>
    decreases records.len() - from,
{
    if from < 0 || from >= records.len() {
        None
    } else if entry_break(records, from) is Some {
        entry_break(records, from)
    } else {
        first_break(records, from + 1)
    }
}

/// Every entry's hash, link and signatures are in order.
pub open spec fn verified(records: Seq<AuditEntry>) -> bool {
    forall|i: int| 0 <= i < records.len() ==> #[trigger] entry_break(records, i) is None
}

/// Verify an entire chain: every entry's hash matches its contents, every link
/// matches the previous entry, and every checker/approver signature verifies.
/// Merge signatures are checked against the diff hash, dispatch approvals
/// against the prompt hash. An abandoned dispatch with zero approvers verifies
/// on the hash chain alone.
pub fn verify_chain(records: &[AuditEntry]) -> (r: Result<(), ChainBreak>)
    ensures
        r is Ok <==> verified(records@),
        match r {
            Ok(_) => first_break(records@, 0) is None && forall|i: int|
                0 <= i < records@.len() ==> encodes_only((#[trigger] records@[i]).contents()),
            Err(e) => first_break(records@, 0) == Some(e),
        },
{
    let mut expected: crate::ids::Hash = genesis();
    let mut i: usize = 0;
    while i < records.len()
        invariant
            0 <= i <= records.len(),
            expected.0@ == expected_prev(records@, i as int),
            first_break(records@, 0) == first_break(records@, i as int),
            forall|j: int| 0 <= j < i ==> #[trigger] entry_break(records@, j) is None,
            forall|j: int| 0 <= j < i ==> encodes_only((#[trigger] records@[j]).contents()),
        decreases records.len() - i,
    {
        let entry = &records[i];
        let computed = entry.recompute_hash();
        let stored = entry.this_hash();
        proof {
            same_digest_same_hash(computed, stored);
            same_digest_same_hash(entry.prev(), expected);
        }
        if computed != stored {
            return Err(ChainBreak::HashMismatch(i));
        }
        if entry.prev_hash() != expected {
            return Err(ChainBreak::BrokenLink(i));
        }
        let (gate_id, diff_hash, checkers) = entry.signed_over();
        let mut k: usize = 0;
        while k < checkers.len()
            invariant
                0 <= i < records.len(),
                *entry == records@[i as int],
                entry.hash_holds(),
                entry.prev().0@ == expected_prev(records@, i as int),
                gate_id@ == entry.gate(),
                diff_hash.0@ == entry.reviewed_digest(),
                checkers@ == entry.entries(),
                first_break(records@, 0) == first_break(records@, i as int),
                0 <= k <= checkers.len(),
                forall|j: int|
                    0 <= j < k ==> entry_signature_holds(
                        entry.gate(),
                        entry.reviewed_digest(),
                        #[trigger] checkers@[j],
                    ),
            decreases checkers.len() - k,
        {
            if !verify_entry_signature(gate_id, diff_hash, &checkers[k]) {
                return Err(ChainBreak::BadCheckerSignature(i));
            }
            k = k + 1;
        }
        expected = entry.this_hash();
        i = i + 1;
    }
    Ok(())
}

/// Verify one checker/approver signature against the content it bound to.
fn verify_entry_signature(
    gate_id: &GateId,
    diff_hash: crate::ids::Hash,
    checker: &CheckerEntry,
) -> (r: bool)
    ensures
        r == entry_signature_holds(gate_id@, diff_hash.0@, *checker),
{
    let content = SignedContent {
        gate_id: gate_id.clone(),
        diff_hash,
        operator: checker.operator,
        verdict: checker.verdict.clone(),
        depth: checker.depth,
        cast_at: checker.cast_at,
    };
    let bytes = canonical_bytes(&content);
    verify(checker.operator, bytes.as_slice(), &checker.signature)
}

/// The operators whose verified `go` signatures back this entry.
pub open spec fn go_signers(entry: AuditEntry) -> Seq<OperatorId> {
    entry.entries().filter(
        |c: CheckerEntry|
            c.verdict is Go && entry_signature_holds(entry.gate(), entry.reviewed_digest(), c),
    ).map_values(|c: CheckerEntry| c.operator)
}

/// The operators whose verified `go` signatures back this entry: the source of
/// the `Reviewed-by:` trailers. Works for either entry kind.
pub fn reviewed_by(entry: &AuditEntry) -> (r: Vec<OperatorId>)
    ensures
        r@ == go_signers(*entry),
{
    let (gate_id, diff_hash, checkers) = entry.signed_over();
    let ghost keep = |c: CheckerEntry|
        c.verdict is Go && entry_signature_holds(entry.gate(), entry.reviewed_digest(), c);
    let ghost who = |c: CheckerEntry| c.operator;
    let mut r: Vec<OperatorId> = Vec::new();
    let mut i: usize = 0;
    reveal(Seq::filter);
    while i < checkers.len()
        invariant
            0 <= i <= checkers.len(),
            gate_id@ == entry.gate(),
            diff_hash.0@ == entry.reviewed_digest(),
            checkers@ == entry.entries(),
            keep == (|c: CheckerEntry|
                c.verdict is Go && entry_signature_holds(
                    entry.gate(),
                    entry.reviewed_digest(),
                    c,
                )),
            who == (|c: CheckerEntry| c.operator),
            r@ == checkers@.take(i as int).filter(keep).map_values(who),
        decreases checkers.len() - i,
    {
        reveal(Seq::filter);
        assert(checkers@.take(i as int + 1).drop_last() =~= checkers@.take(i as int));
        let c = &checkers[i];
        if c.verdict.is_go() && verify_entry_signature(gate_id, diff_hash, c) {
            r.push(c.operator);
        }
        i = i + 1;
    }
    assert(checkers@.take(checkers@.len() as int) =~= checkers@);
    r
}

/// A chain is in order exactly when nothing in it breaks.
pub proof fn verified_means_no_break(records: Seq<AuditEntry>)
    ensures
        verified(records) <==> first_break(records, 0) is None,
{
    no_break_from(records, 0);
}

proof fn no_break_from(records: Seq<AuditEntry>, from: int)
    requires
        0 <= from <= records.len(),
    ensures
        first_break(records, from) is None <==> forall|i: int|
            from <= i < records.len() ==> #[trigger] entry_break(records, i) is None,
    decreases records.len() - from,
{
    if from < records.len() {
        no_break_from(records, from + 1);
    }
}

/// The empty chain is in order.
pub proof fn empty_chain_verifies()
    ensures
        verified(Seq::<AuditEntry>::empty()),
{
}

/// Appending to a chain that is in order keeps it in order, where the entry
/// names the head, its own hash holds and its signatures hold.
pub proof fn append_keeps_order(records: Seq<AuditEntry>, entry: AuditEntry)
    requires
        verified(records),
        entry.prev().0@ == head_of(records),
        entry.hash_holds(),
        entry.signatures_hold(),
    ensures
        verified(records.push(entry)),
{
    let longer = records.push(entry);
    assert forall|i: int| 0 <= i < longer.len() implies #[trigger] entry_break(longer, i)
        is None by {
        if i < records.len() {
            assert(entry_break(records, i) is None);
        }
    }
}

/// Every prefix of a chain that is in order is in order.
pub proof fn prefix_verifies(records: Seq<AuditEntry>, n: int)
    requires
        verified(records),
        0 <= n <= records.len(),
    ensures
        verified(records.take(n)),
{
    let shorter = records.take(n);
    assert forall|i: int| 0 <= i < shorter.len() implies #[trigger] entry_break(shorter, i)
        is None by {
        assert(entry_break(records, i) is None);
    }
}

/// A record built from a resolved hold over the diff that the hold reviewed
/// carries signatures that verify, so it can be chained.
pub proof fn built_record_signatures_hold(record: GateRecord, hold: HoldView)
    requires
        hold.valid(),
        record.core.gate_id@ == hold.gate_id,
        record.core.provenance.diff_hash.0@ == hold.diff_hash,
        record.core.checkers@ == entries_of(hold.verdicts),
    ensures
        AuditEntry::Merge(record).signatures_hold(),
{
}

/// A dispatch record built from a satisfied hold over the prompt's own hash
/// carries signatures that verify.
pub proof fn built_dispatch_signatures_hold(record: DispatchRecord, hold: HoldView)
    requires
        hold.valid(),
        record.core.gate_id@ == hold.gate_id,
        hold.diff_hash == prompt_digest(record.core.prompt@),
        record.core.approvers@ == entries_of(hold.verdicts),
    ensures
        AuditEntry::Dispatch(record).signatures_hold(),
{
}

/// The signers named for the record of a satisfied hold are the operators
/// who cast on it, in order, and nobody else.
pub proof fn satisfied_hold_names_its_reviewers(record: GateRecord, hold: HoldView)
    requires
        hold.valid(),
        hold.state is Satisfied,
        record.core.gate_id@ == hold.gate_id,
        record.core.provenance.diff_hash.0@ == hold.diff_hash,
        record.core.checkers@ == entries_of(hold.verdicts),
    ensures
        go_signers(AuditEntry::Merge(record)) == hold.verdicts.map_values(
            |cv: CastVerdict| cv.operator,
        ),
{
    let entry = AuditEntry::Merge(record);
    built_record_signatures_hold(record, hold);
    let keep = |c: CheckerEntry|
        c.verdict is Go && entry_signature_holds(entry.gate(), entry.reviewed_digest(), c);
    filter_keeps_all(entry.entries(), keep);
}

proof fn filter_keeps_all(s: Seq<CheckerEntry>, keep: spec_fn(CheckerEntry) -> bool)
    requires
        forall|i: int| 0 <= i < s.len() ==> keep(#[trigger] s[i]),
    ensures
        s.filter(keep) == s,
    decreases s.len(),
{
    reveal(Seq::filter);
    if s.len() > 0 {
        filter_keeps_all(s.drop_last(), keep);
    }
}

/// Tamper evidence: two chains of one length that both verify and have one head
/// hold the same contents, entry by entry, unless two different encodings
/// collide under SHA-256. So nothing before a known head can be changed
/// unnoticed.
pub proof fn head_fixes_the_chain(a: Seq<AuditEntry>, b: Seq<AuditEntry>)
    requires
        verified(a),
        verified(b),
        a.len() == b.len(),
        head_of(a) == head_of(b),
        forall|i: int| 0 <= i < a.len() ==> encodes_only((#[trigger] a[i]).contents()),
        forall|i: int|
            0 <= i < a.len() && item_digest((#[trigger] a[i]).contents()) == item_digest(
                b[i].contents(),
            ) ==> cbor_bytes(a[i].contents()) == cbor_bytes(b[i].contents()),
    ensures
        forall|i: int|
            0 <= i < a.len() ==> (#[trigger] a[i]).contents() == b[i].contents() && a[i].this()
                == b[i].this() && a[i].prev() == b[i].prev(),
    decreases a.len(),
{
    if a.len() > 0 {
        let n = a.len() - 1;
        assert(entry_break(a, n) is None);
        assert(entry_break(b, n) is None);
        same_digest_same_hash(a[n].this(), b[n].this());
        contents_fix_the_link(a[n], b[n]);
        prefix_verifies(a, n);
        prefix_verifies(b, n);
        let x = a.take(n);
        let y = b.take(n);
        assert forall|i: int| 0 <= i < x.len() implies encodes_only(
            (#[trigger] x[i]).contents(),
        ) by {
            assert(x[i] == a[i]);
        }
        assert forall|i: int|
            0 <= i < x.len() && item_digest((#[trigger] x[i]).contents()) == item_digest(
                y[i].contents(),
            ) implies cbor_bytes(x[i].contents()) == cbor_bytes(y[i].contents()) by {
            assert(x[i] == a[i] && y[i] == b[i]);
        }
        head_fixes_the_chain(x, y);
        assert forall|i: int| 0 <= i < a.len() implies (#[trigger] a[i]).contents()
            == b[i].contents() && a[i].this() == b[i].this() && a[i].prev() == b[i].prev() by {
            if i < n {
                assert(x[i] == a[i] && y[i] == b[i]);
                assert(x[i].contents() == y[i].contents());
            }
        }
    }
}

/// A record whose contents were changed while its hash was kept does not
/// verify, unless the two encodings collide under SHA-256.
pub proof fn changed_contents_break_the_hash(before: AuditEntry, changed: AuditEntry)
    requires
        before.hash_holds(),
        changed.this() == before.this(),
        changed.contents() != before.contents(),
        encodes_only(before.contents()),
        item_digest(changed.contents()) == item_digest(before.contents()) ==> cbor_bytes(
            changed.contents(),
        ) == cbor_bytes(before.contents()),
    ensures
        !changed.hash_holds(),
{
}

/// Equal contents name the same previous entry and are of the same kind.
proof fn contents_fix_the_link(a: AuditEntry, b: AuditEntry)
    requires
        a.contents() == b.contents(),
    ensures
        a.prev() == b.prev(),
        a is Merge <==> b is Merge,
{
    bytes_item_is_injective(a.prev().0@, b.prev().0@);
    assert(a.prev().0 =~= b.prev().0);
}

} // verus!

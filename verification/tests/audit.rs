use kontur::audit::chain::{
    genesis, reviewed_by, verify_chain, AuditChain, AuditEntry, ChainBreak, ChainError,
};
use kontur::audit::record::{
    dispatch_gate_id, prompt_hash, CheckerEntry, DispatchOutcome, DispatchRecord, GateRecord,
    Provenance, RecordError,
};
use kontur::eligibility::MakerSet;
use kontur::hold::{DualHold, HoldState};
use kontur::ids::{GateId, OperatorId, TaskId, Timestamp};
use kontur::policy::{Authorship, GatePolicy, Independence, Outcome};
use kontur::sign::{Ed25519Signer, FixedClock, Signer};
use kontur::verdict::{CastVerdict, Remedy, ReviewDepth, Verdict};

fn hash(b: u8) -> kontur::ids::Hash {
    kontur::ids::Hash([b; 32])
}

fn signer(seed: u8) -> Ed25519Signer {
    Ed25519Signer::from_seed([seed; 32])
}

fn open_hold(gate: &str, task: &str, diff: kontur::ids::Hash) -> DualHold {
    DualHold::new(
        GateId(gate.into()),
        TaskId(task.into()),
        diff,
        GatePolicy::default(),
        MakerSet::new(),
        Authorship::Agent,
    )
}

fn verdict_on(h: &DualHold, seed: u8, at: i64, verdict: Verdict) -> CastVerdict {
    CastVerdict::create(
        &signer(seed),
        &FixedClock(at),
        h.gate_id(),
        h.diff_hash(),
        verdict,
        ReviewDepth::FullDiff,
        None,
    )
}

fn both_go(h: &mut DualHold) {
    for seed in [1u8, 2u8] {
        let cv = verdict_on(h, seed, 1000 + seed as i64, Verdict::Go);
        let ev = h.version();
        h.cast(ev, cv).unwrap();
    }
}

fn short_provenance(task: &str) -> Provenance {
    Provenance {
        task_id: TaskId(task.into()),
        prompt: "p".into(),
        prompt_author: signer(1).operator_id(),
        agent_id: "a".into(),
        agent_model: "m".into(),
        agent_version: "v".into(),
        diff_hash: hash(9),
        files: vec!["f".into()],
        loc: 1,
        tokens: 1,
    }
}

fn merge_record(prev: kontur::ids::Hash, gate: &str) -> GateRecord {
    let mut h = open_hold(gate, "t1", hash(9));
    both_go(&mut h);
    GateRecord::build(prev, short_provenance("t1"), &h).unwrap()
}

fn record(prev: kontur::ids::Hash, gate: &str) -> AuditEntry {
    AuditEntry::Merge(merge_record(prev, gate))
}

// ---------------------------------------------------------------------------
// The chain
// ---------------------------------------------------------------------------

#[test]
fn append_and_verify_two_record_chain() {
    let mut chain = AuditChain::new();
    let r1 = record(genesis(), "g1");
    chain.append(r1).unwrap();
    let r2 = record(chain.head(), "g2");
    chain.append(r2).unwrap();
    assert!(verify_chain(chain.records()).is_ok());
    assert_eq!(chain.records().len(), 2);
}

#[test]
fn append_rejects_wrong_prev_hash() {
    let mut chain = AuditChain::new();
    let bad = record(hash(7), "g1");
    assert_eq!(chain.append(bad).unwrap_err(), ChainError::WrongPrevHash);
}

#[test]
fn mutating_a_record_breaks_verification() {
    let mut chain = AuditChain::new();
    chain.append(record(genesis(), "g1")).unwrap();
    let mut records = chain.records().to_vec();
    // Tamper with recorded provenance without recomputing the hash.
    let AuditEntry::Merge(r) = &mut records[0] else {
        panic!("expected a merge entry")
    };
    r.core.provenance.loc = 999;
    assert_eq!(verify_chain(&records).unwrap_err(), ChainBreak::HashMismatch(0));
}

#[test]
fn reviewed_by_lists_both_go_signers() {
    let r = record(genesis(), "g1");
    let signers = reviewed_by(&r);
    assert_eq!(signers.len(), 2);
    assert!(signers.contains(&signer(1).operator_id()));
    assert!(signers.contains(&signer(2).operator_id()));
}

#[test]
fn verify_chain_detects_broken_link() {
    // Two individually-valid records, but the second points at the wrong prev.
    let r1 = record(genesis(), "g1");
    let r2 = record(hash(7), "g2");
    assert_eq!(verify_chain(&[r1, r2]).unwrap_err(), ChainBreak::BrokenLink(1));
}

#[test]
fn verify_chain_detects_tampered_checker_signature() {
    // Flip a checker's verdict, then recompute this_hash so the hash check passes.
    let mut r = merge_record(genesis(), "g1");
    r.core.checkers[0].verdict = Verdict::NoGo(Remedy::Steer("forged".into()));
    r.this_hash = r.recompute_hash();
    assert_eq!(
        verify_chain(&[AuditEntry::Merge(r)]).unwrap_err(),
        ChainBreak::BadCheckerSignature(0)
    );
}

#[test]
fn verify_chain_accepts_empty() {
    assert!(verify_chain(&[]).is_ok());
}

#[test]
fn chain_errors_have_words() {
    assert_eq!(ChainBreak::BrokenLink(3).message().contains('3'), true);
    assert_ne!(ChainBreak::BrokenLink(3).message(), ChainBreak::HashMismatch(3).message());
    assert!(!ChainError::WrongPrevHash.message().is_empty());
    assert_eq!(RecordError::HoldUnresolved.message(), "cannot record an unresolved gate");
}

#[test]
fn a_refused_append_leaves_the_chain() {
    let mut chain = AuditChain::new();
    chain.append(record(genesis(), "g1")).unwrap();
    let head = chain.head();
    assert!(chain.append(record(genesis(), "g2")).is_err());
    assert_eq!(chain.head(), head);
    assert_eq!(chain.records().len(), 1);
}

#[test]
fn prefixes_of_a_chain_verify() {
    let mut chain = AuditChain::new();
    for gate in ["g1", "g2", "g3"] {
        chain.append(record(chain.head(), gate)).unwrap();
    }
    for n in 0..=3 {
        assert!(verify_chain(&chain.records()[..n]).is_ok());
    }
}

// ---------------------------------------------------------------------------
// Dispatch entries
// ---------------------------------------------------------------------------

fn dispatch_hold(prompt: &str) -> DualHold {
    let mut h = DualHold::new(
        dispatch_gate_id(),
        TaskId("dispatch".into()),
        prompt_hash(prompt),
        GatePolicy {
            blind: false,
            ..GatePolicy::default()
        },
        MakerSet::new(),
        Authorship::HandEdited,
    );
    both_go(&mut h);
    h
}

fn dispatch_entry(prev: kontur::ids::Hash, prompt: &str) -> AuditEntry {
    let h = dispatch_hold(prompt);
    AuditEntry::Dispatch(
        DispatchRecord::build_dispatched(prev, prompt.into(), signer(1).operator_id(), &h).unwrap(),
    )
}

#[test]
fn mixed_dispatch_and_merge_chain_verifies() {
    let mut chain = AuditChain::new();
    chain.append(dispatch_entry(genesis(), "ship the login fix")).unwrap();
    chain.append(record(chain.head(), "g1")).unwrap();
    assert!(verify_chain(chain.records()).is_ok());
    assert_eq!(chain.records().len(), 2);
    // The dispatch entry backs two go-signers via reviewed_by too.
    assert_eq!(reviewed_by(&chain.records()[0]).len(), 2);
}

#[test]
fn tampering_dispatch_prompt_breaks_the_hash() {
    let mut entry = dispatch_entry(genesis(), "original prompt");
    let AuditEntry::Dispatch(d) = &mut entry else {
        panic!("expected a dispatch entry")
    };
    d.core.prompt = "a different prompt".into();
    assert_eq!(verify_chain(&[entry]).unwrap_err(), ChainBreak::HashMismatch(0));
}

#[test]
fn tampering_dispatch_prompt_with_rehash_fails_signature() {
    // The hash check passes, but the approvers signed the original prompt.
    let mut entry = dispatch_entry(genesis(), "original prompt");
    let AuditEntry::Dispatch(d) = &mut entry else {
        panic!("expected a dispatch entry")
    };
    d.core.prompt = "a different prompt".into();
    d.this_hash = d.recompute_hash();
    assert_eq!(verify_chain(&[entry]).unwrap_err(), ChainBreak::BadCheckerSignature(0));
}

#[test]
fn abandoned_dispatch_with_no_approvers_verifies_on_chain_alone() {
    let rec = DispatchRecord::build_abandoned(
        genesis(),
        "half-typed prompt".into(),
        signer(1).operator_id(),
        vec![],
    );
    assert_eq!(rec.core.outcome, DispatchOutcome::Abandoned);
    assert!(rec.core.approvers.is_empty());
    assert!(verify_chain(&[AuditEntry::Dispatch(rec)]).is_ok());
}

#[test]
fn chain_with_blocked_record_verifies_and_detects_tamper() {
    let mut chain = AuditChain::new();
    chain.append(record(genesis(), "g1")).unwrap();
    // A blocked record chained after the satisfied one.
    let mut h = open_hold("g2", "t2", hash(9));
    for (seed, v) in [
        (1u8, Verdict::Go),
        (2u8, Verdict::NoGo(Remedy::Steer("fix".into()))),
    ] {
        let cv = verdict_on(&h, seed, 1000 + seed as i64, v);
        let ev = h.version();
        h.cast(ev, cv).unwrap();
    }
    let rec = GateRecord::build(chain.head(), short_provenance("t2"), &h).unwrap();
    chain.append(AuditEntry::Merge(rec)).unwrap();
    assert!(verify_chain(chain.records()).is_ok());
    let mut tampered = chain.records().to_vec();
    let AuditEntry::Merge(r) = &mut tampered[1] else {
        panic!("expected a merge entry")
    };
    r.core.outcome = Outcome::Unanimous;
    assert!(verify_chain(&tampered).is_err());
}

// ---------------------------------------------------------------------------
// Records
// ---------------------------------------------------------------------------

fn provenance() -> Provenance {
    Provenance {
        task_id: TaskId("t1".into()),
        prompt: "refactor session guard".into(),
        prompt_author: signer(1).operator_id(),
        agent_id: "agent-03".into(),
        agent_model: "model-4".into(),
        agent_version: "1.0".into(),
        diff_hash: hash(9),
        files: vec!["auth/session.ts".into()],
        loc: 59,
        tokens: 6400,
    }
}

#[test]
fn build_records_two_checkers_and_hashes() {
    let mut h = open_hold("g1", "t1", hash(9));
    both_go(&mut h);
    let rec = GateRecord::build(hash(0), provenance(), &h).unwrap();
    assert_eq!(rec.core.checkers.len(), 2);
    assert_eq!(rec.core.outcome, Outcome::Unanimous);
    assert_eq!(rec.this_hash, rec.recompute_hash());
}

#[test]
fn refuses_unsatisfied_hold() {
    let h = open_hold("g2", "t2", hash(1));
    let err = GateRecord::build(hash(0), provenance(), &h).unwrap_err();
    assert_eq!(err, RecordError::HoldUnresolved);
}

#[test]
fn dispatched_record_refuses_unsatisfied_hold() {
    // A partial hold (one key) cannot back a Dispatched record.
    let mut h = DualHold::new(
        dispatch_gate_id(),
        TaskId("dispatch".into()),
        prompt_hash("ship it"),
        GatePolicy {
            blind: false,
            ..GatePolicy::default()
        },
        MakerSet::new(),
        Authorship::HandEdited,
    );
    let cv = verdict_on(&h, 1, 1000, Verdict::Go);
    h.cast(0, cv).unwrap();
    let author = signer(1).operator_id();
    let err = DispatchRecord::build_dispatched(hash(0), "ship it".into(), author, &h).unwrap_err();
    assert_eq!(err, RecordError::HoldUnresolved);
}

#[test]
fn abandoned_record_keeps_partial_approvals() {
    // One operator signed before the compose was killed: the abandoned record
    // carries that single approval and stamps resolved_at from it.
    let cv = CastVerdict::create(
        &signer(1),
        &FixedClock(1234),
        &dispatch_gate_id(),
        prompt_hash("half done"),
        Verdict::Go,
        ReviewDepth::FullDiff,
        None,
    );
    let approver = CheckerEntry {
        operator: cv.operator,
        cast_at: cv.cast_at,
        verdict: cv.verdict.clone(),
        depth: cv.depth,
        comment: cv.comment.clone(),
        signature: cv.signature,
    };
    let rec = DispatchRecord::build_abandoned(
        hash(0),
        "half done".into(),
        signer(1).operator_id(),
        vec![approver],
    );
    assert_eq!(rec.core.outcome, DispatchOutcome::Abandoned);
    assert_eq!(rec.core.approvers.len(), 1);
    assert_eq!(rec.core.resolved_at, Timestamp(1234));
    assert_eq!(rec.this_hash, rec.recompute_hash());
}

#[test]
fn blocked_hold_builds_record_with_remedy_and_outcome() {
    let mut h = open_hold("g1", "t1", hash(9));
    let cv = verdict_on(&h, 1, 1000, Verdict::Go);
    h.cast(0, cv).unwrap();
    let cv = verdict_on(&h, 2, 1001, Verdict::NoGo(Remedy::Steer("cache it".into())));
    h.cast(1, cv).unwrap();
    let rec = GateRecord::build(hash(0), provenance(), &h).unwrap();
    assert_eq!(rec.core.outcome, Outcome::Blocked);
    assert!(rec.core.checkers.iter().any(|c| matches!(
        &c.verdict, Verdict::NoGo(Remedy::Steer(s)) if s == "cache it")));
    assert_eq!(rec.this_hash, rec.recompute_hash());
}

#[test]
fn open_hold_still_refused() {
    let h = open_hold("g2", "t2", hash(1));
    assert_eq!(
        GateRecord::build(hash(0), provenance(), &h).unwrap_err(),
        RecordError::HoldUnresolved
    );
}

// ---------------------------------------------------------------------------
// Whole reviews
// ---------------------------------------------------------------------------

fn guard_provenance(diff: kontur::ids::Hash, author: OperatorId) -> Provenance {
    Provenance {
        task_id: TaskId("t1".into()),
        prompt: "refactor session guard to token store".into(),
        prompt_author: author,
        agent_id: "agent-03".into(),
        agent_model: "model-4".into(),
        agent_version: "1.0".into(),
        diff_hash: diff,
        files: vec!["auth/session.ts".into()],
        loc: 59,
        tokens: 6400,
    }
}

fn go(seed: u8, h: &DualHold) -> CastVerdict {
    verdict_on(h, seed, 1000 + seed as i64, Verdict::Go)
}

fn nogo(seed: u8, h: &DualHold, remedy: Remedy) -> CastVerdict {
    verdict_on(h, seed, 2000 + seed as i64, Verdict::NoGo(remedy))
}

// Dispatch, both go, merge.
#[test]
fn clean_task_produces_a_verified_record() {
    let diff = hash(9);
    let mut h = open_hold("g1", "t1", diff);
    h.cast(0, go(1, &h)).unwrap();
    h.cast(1, go(2, &h)).unwrap();
    assert_eq!(h.state(), HoldState::Satisfied);

    let author = signer(1).operator_id();
    let mut chain = AuditChain::new();
    let rec = GateRecord::build(chain.head(), guard_provenance(diff, author), &h).unwrap();
    let outcome = rec.core.outcome;
    chain.append(AuditEntry::Merge(rec)).unwrap();

    assert!(verify_chain(chain.records()).is_ok());
    assert_eq!(outcome, Outcome::Unanimous);
    assert_eq!(reviewed_by(&chain.records()[0]).len(), 2);
}

// No-go with a steer, then a clean second pass on a re-opened hold.
#[test]
fn caught_in_review_records_resolved_after_disagreement() {
    let mut first = open_hold("g1", "t1", hash(9));
    first.cast(0, go(1, &first)).unwrap();
    let steer = Remedy::Steer("cache the token lookup".into());
    first.cast(1, nogo(2, &first, steer)).unwrap();
    assert_eq!(first.state(), HoldState::Blocked);
    assert!(first.blocking_remedy().is_some());

    let mut second = DualHold::reopen(
        GateId("g1".into()),
        TaskId("t1".into()),
        hash(10),
        GatePolicy::default(),
        MakerSet::new(),
        Authorship::Agent,
    );
    second.cast(0, go(1, &second)).unwrap();
    second.cast(1, go(2, &second)).unwrap();
    assert_eq!(second.outcome(), Some(Outcome::ResolvedAfterDisagreement));
}

// Hand-edit applied; pragmatic mode lets the editor co-sign.
#[test]
fn emergency_handedit_pragmatic_merges_with_both_authorship() {
    let a = signer(1).operator_id();
    let b = signer(2).operator_id();
    let policy = GatePolicy {
        independence: Independence::Pragmatic,
        ..GatePolicy::default()
    };
    let mut h = DualHold::reopen_handedit(
        GateId("g1".into()),
        TaskId("t1".into()),
        hash(11),
        policy,
        MakerSet::new(),
        a,
        true,
        &[a, b],
    );
    assert_eq!(h.authorship(), Authorship::Both);
    h.cast(0, go(1, &h)).unwrap();
    h.cast(1, go(2, &h)).unwrap();
    assert_eq!(h.state(), HoldState::Satisfied);
    assert_eq!(h.authorship(), Authorship::Both);
}

fn build_once() -> kontur::ids::Hash {
    let diff = hash(9);
    let mut h = open_hold("g1", "t1", diff);
    let first = go(1, &h);
    h.cast(0, first).unwrap();
    let second = go(2, &h);
    h.cast(1, second).unwrap();
    let author = signer(1).operator_id();
    GateRecord::build(genesis(), guard_provenance(diff, author), &h)
        .unwrap()
        .this_hash
}

// Identical inputs yield byte-identical record hashes.
#[test]
fn records_are_deterministic() {
    assert_eq!(build_once(), build_once());
    assert_ne!(build_once(), genesis());
}

use kontur::canonical::{canonical_bytes, sha256};
use kontur::eligibility::{is_eligible, MakerSet};
use kontur::error::CastRejected;
use kontur::hold::{DualHold, HoldState};
use kontur::ids::{GateId, HandEditRef, OperatorId, TaskId, Timestamp};
use kontur::policy::{Authorship, Availability, GatePolicy, Independence, Outcome};
use kontur::sealed::{SealedVerdict, VerdictStatus};
use kontur::session::SessionContext;
use kontur::sign::{verify, Clock, Ed25519Signer, FixedClock, Signer};
use kontur::verdict::{CastVerdict, Remedy, ReviewDepth, SignedContent, Verdict};

fn hash(b: u8) -> kontur::ids::Hash {
    kontur::ids::Hash([b; 32])
}

fn op(n: u8) -> OperatorId {
    OperatorId([n; 32])
}

// ---------------------------------------------------------------------------
// Who may review
// ---------------------------------------------------------------------------

#[test]
fn strict_excludes_the_maker() {
    let makers = MakerSet::new().with(op(1));
    assert!(!is_eligible(Independence::Strict, &makers, op(1)));
    assert!(is_eligible(Independence::Strict, &makers, op(2)));
}

#[test]
fn pragmatic_allows_the_maker() {
    let makers = MakerSet::new().with(op(1));
    assert!(is_eligible(Independence::Pragmatic, &makers, op(1)));
    assert!(is_eligible(Independence::Pragmatic, &makers, op(2)));
}

#[test]
fn makerset_dedups() {
    let makers = MakerSet::new().with(op(1)).with(op(1));
    assert!(makers.contains(&op(1)));
}

#[test]
fn maker_sets_are_compared() {
    assert_eq!(MakerSet::new().with(op(1)).with(op(1)), MakerSet::new().with(op(1)));
    assert_ne!(MakerSet::new().with(op(1)), MakerSet::new().with(op(2)));
    assert_eq!(MakerSet::new(), MakerSet::default());
}

#[test]
fn defaults_are_strict_blind_park() {
    let p = GatePolicy::default();
    assert_eq!(p.required, 2);
    assert_eq!(p.independence, Independence::Strict);
    assert!(p.blind);
    assert_eq!(p.availability, Availability::Park);
}

#[test]
fn defaults_to_core_gate_policy() {
    let ctx = SessionContext::new(
        "do the thing",
        op(1),
        "agent-01",
        "model",
        "1",
        vec![op(1), op(2)],
    );
    assert_eq!(ctx.policy, GatePolicy::default());
    assert_eq!(ctx.operators.len(), 2);
}

#[test]
fn with_policy_overrides() {
    let p = GatePolicy {
        independence: Independence::Pragmatic,
        ..GatePolicy::default()
    };
    let ctx = SessionContext::new("x", op(1), "a", "m", "v", vec![op(1)]).with_policy(p);
    assert_eq!(ctx.policy.independence, Independence::Pragmatic);
}

// ---------------------------------------------------------------------------
// Verdicts and signatures
// ---------------------------------------------------------------------------

#[test]
fn nogo_always_carries_a_remedy() {
    let v = Verdict::NoGo(Remedy::Steer("cache the token lookup".into()));
    assert!(!v.is_go());
    match v {
        Verdict::NoGo(Remedy::Steer(s)) => assert_eq!(s, "cache the token lookup"),
        _ => panic!("expected a steer remedy"),
    }

    let v2 = Verdict::NoGo(Remedy::HandEdit(HandEditRef("edit-1".into())));
    assert!(!v2.is_go());
}

#[test]
fn go_is_go() {
    assert!(Verdict::Go.is_go());
}

#[test]
fn sign_and_verify_roundtrip() {
    let signer = Ed25519Signer::from_seed([1u8; 32]);
    let op = signer.operator_id();
    let msg = b"gate-03 diff-hash go";
    let sig = signer.sign(msg);
    assert!(verify(op, msg, &sig));
}

#[test]
fn verify_rejects_tampered_message() {
    let signer = Ed25519Signer::from_seed([1u8; 32]);
    let op = signer.operator_id();
    let sig = signer.sign(b"original");
    assert!(!verify(op, b"tampered", &sig));
}

#[test]
fn verify_rejects_wrong_operator() {
    let a = Ed25519Signer::from_seed([1u8; 32]);
    let b = Ed25519Signer::from_seed([2u8; 32]);
    let msg = b"msg";
    let sig = a.sign(msg);
    assert!(!verify(b.operator_id(), msg, &sig));
}

#[test]
fn distinct_seeds_give_distinct_identities() {
    let a = Ed25519Signer::from_seed([1u8; 32]);
    let b = Ed25519Signer::from_seed([2u8; 32]);
    assert_ne!(a.operator_id(), b.operator_id());
}

// A published pair of keys, with the signature of the empty message.
#[test]
fn keys_and_signatures_follow_the_standard() {
    let seed: [u8; 32] = [
        0x9d, 0x61, 0xb1, 0x9d, 0xef, 0xfd, 0x5a, 0x60, 0xba, 0x84, 0x4a, 0xf4, 0x92, 0xec, 0x2c,
        0xc4, 0x44, 0x49, 0xc5, 0x69, 0x7b, 0x32, 0x69, 0x19, 0x70, 0x3b, 0xac, 0x03, 0x1c, 0xae,
        0x7f, 0x60,
    ];
    let public: [u8; 32] = [
        0xd7, 0x5a, 0x98, 0x01, 0x82, 0xb1, 0x0a, 0xb7, 0xd5, 0x4b, 0xfe, 0xd3, 0xc9, 0x64, 0x07,
        0x3a, 0x0e, 0xe1, 0x72, 0xf3, 0xda, 0xa6, 0x23, 0x25, 0xaf, 0x02, 0x1a, 0x68, 0xf7, 0x07,
        0x51, 0x1a,
    ];
    let signer = Ed25519Signer::from_seed(seed);
    assert_eq!(signer.operator_id(), OperatorId(public));
    let sig = signer.sign(b"");
    assert_eq!(sig.0[..4], [0xe5, 0x56, 0x43, 0x00]);
    assert_eq!(sig.0[60..], [0x8e, 0x7a, 0x10, 0x0b]);
    assert!(verify(OperatorId(public), b"", &sig));
    // Bytes that are no key verify nothing.
    assert!(!verify(OperatorId([0xff; 32]), b"", &sig));
}

#[test]
fn fixed_clock_stands_still() {
    assert_eq!(FixedClock(7).now(), Timestamp(7));
}

#[test]
fn fingerprints_are_the_first_eight_bytes() {
    let mut key = [0u8; 32];
    key[0] = 0xab;
    key[7] = 0x01;
    key[8] = 0xff;
    assert_eq!(OperatorId(key).fingerprint(), "ab00000000000001");
}

// ---------------------------------------------------------------------------
// Canonical bytes
// ---------------------------------------------------------------------------

fn content(gate: &str) -> SignedContent {
    SignedContent {
        gate_id: GateId(gate.into()),
        diff_hash: hash(7),
        operator: op(1),
        verdict: Verdict::Go,
        depth: ReviewDepth::FullDiff,
        cast_at: Timestamp(5),
    }
}

#[test]
fn canonical_bytes_are_stable_across_calls() {
    assert_eq!(canonical_bytes(&content("hi")), canonical_bytes(&content("hi")));
}

#[test]
fn different_values_differ() {
    assert_ne!(canonical_bytes(&content("hi")), canonical_bytes(&content("ho")));
}

// CBOR writes a small integer as one byte, and a short text after its length.
#[test]
fn canonical_bytes_are_cbor() {
    assert_eq!(canonical_bytes(&Timestamp(5)), vec![0x05]);
    assert_eq!(canonical_bytes(&Timestamp(-1)), vec![0x20]);
    assert_eq!(canonical_bytes(&GateId("hi".into())), vec![0x62, b'h', b'i']);
    let bytes = canonical_bytes(&hash(0));
    assert_eq!(bytes.len(), 34);
    assert_eq!(bytes[..2], [0x98, 0x20]);
    // A struct is a map of its fields, in their order.
    let struct_bytes = canonical_bytes(&content("hi"));
    assert_eq!(struct_bytes[0], 0xa6);
    assert_eq!(&struct_bytes[1..9], b"\x67gate_id");
    assert_eq!(&struct_bytes[9..12], b"\x62hi");
}

#[test]
fn canonical_bytes_are_what_serde_writes() {
    // A verdict with a remedy is a map of one entry; a bare one is its name.
    let go = canonical_bytes(&Verdict::Go);
    assert_eq!(go, b"\x62Go".to_vec());
    let nogo = canonical_bytes(&Verdict::NoGo(Remedy::Steer("x".into())));
    let mut expected = Vec::new();
    ciborium::into_writer(
        &ciborium::value::Value::Map(vec![(
            ciborium::value::Value::Text("NoGo".into()),
            ciborium::value::Value::Map(vec![(
                ciborium::value::Value::Text("Steer".into()),
                ciborium::value::Value::Text("x".into()),
            )]),
        )]),
        &mut expected,
    )
    .unwrap();
    assert_eq!(nogo, expected);
}

#[test]
fn sha256_is_deterministic_and_sensitive() {
    assert_eq!(sha256(b"abc"), sha256(b"abc"));
    assert_ne!(sha256(b"abc"), sha256(b"abd"));
}

#[test]
fn sha256_of_abc() {
    let expected: [u8; 32] = [
        0xba, 0x78, 0x16, 0xbf, 0x8f, 0x01, 0xcf, 0xea, 0x41, 0x41, 0x40, 0xde, 0x5d, 0xae, 0x22,
        0x23, 0xb0, 0x03, 0x61, 0xa3, 0x96, 0x17, 0x7a, 0x9c, 0xb4, 0x10, 0xff, 0x61, 0xf2, 0x00,
        0x15, 0xad,
    ];
    assert_eq!(sha256(b"abc").0, expected);
}

// ---------------------------------------------------------------------------
// Sealing
// ---------------------------------------------------------------------------

fn a_cast() -> CastVerdict {
    CastVerdict::create(
        &Ed25519Signer::from_seed([1u8; 32]),
        &FixedClock(1000),
        &GateId("g1".into()),
        hash(0),
        Verdict::Go,
        ReviewDepth::FullDiff,
        None,
    )
}

#[test]
fn sealed_hides_value_but_shows_operator() {
    let cv = a_cast();
    let op = cv.operator;
    let sv = SealedVerdict::new(cv, true);
    assert_eq!(sv.operator(), op);
    assert!(sv.revealed().is_none());
    assert_eq!(sv.view().status, VerdictStatus::Sealed);
}

#[test]
fn unseal_reveals_value() {
    let cv = a_cast();
    let mut sv = SealedVerdict::new(cv, true);
    sv.unseal();
    assert!(sv.revealed().is_some());
    assert_eq!(sv.view().status, VerdictStatus::Revealed(Verdict::Go));
}

#[test]
fn debug_redacts_sealed_verdict() {
    let cv = a_cast();
    let sealed = SealedVerdict::new(cv.clone(), true);
    assert!(sealed.describe().contains("<sealed>"));
    assert!(!sealed.describe().contains("Go"));
    let open = SealedVerdict::new(cv, false);
    assert!(open.describe().contains("Go"));
}

#[test]
fn a_description_takes_the_quoted_note() {
    let mut cv = a_cast();
    cv.verdict = Verdict::NoGo(Remedy::Steer("fix".into()));
    let open = SealedVerdict::new(cv, false);
    assert!(open.describe_with("\"fix\"").contains("NoGo(Steer(\"fix\"))"));
    assert_eq!(open.describe(), open.describe_with("\"fix\""));
}

#[test]
fn signature_roundtrips_and_binds_to_gate() {
    let cv = a_cast();
    assert!(cv.verify_signature(&GateId("g1".into()), hash(0)));
    // Replaying onto a different gate fails.
    assert!(!cv.verify_signature(&GateId("g2".into()), hash(0)));
    // So does replaying onto a different diff.
    assert!(!cv.verify_signature(&GateId("g1".into()), hash(1)));
}

// ---------------------------------------------------------------------------
// The hold
// ---------------------------------------------------------------------------

fn hold() -> DualHold {
    DualHold::new(
        GateId("g1".into()),
        TaskId("t1".into()),
        hash(9),
        GatePolicy::default(),
        MakerSet::new(),
        Authorship::Agent,
    )
}

fn cast_on(seed: u8, h: &DualHold, at: i64, verdict: Verdict) -> CastVerdict {
    CastVerdict::create(
        &Ed25519Signer::from_seed([seed; 32]),
        &FixedClock(at),
        h.gate_id(),
        h.diff_hash(),
        verdict,
        ReviewDepth::FullDiff,
        None,
    )
}

fn go(seed: u8, h: &DualHold) -> CastVerdict {
    cast_on(seed, h, 1000 + seed as i64, Verdict::Go)
}

fn nogo(seed: u8, h: &DualHold, remedy: Remedy) -> CastVerdict {
    cast_on(seed, h, 2000 + seed as i64, Verdict::NoGo(remedy))
}

#[test]
fn two_distinct_go_reaches_satisfied() {
    let mut h = hold();
    assert_eq!(h.state(), HoldState::Open);

    let v = h.cast(0, go(1, &h)).unwrap();
    assert_eq!(v.state, HoldState::Partial);

    let v = h.cast(1, go(2, &h)).unwrap();
    assert_eq!(v.state, HoldState::Satisfied);
    assert_eq!(h.outcome(), Some(Outcome::Unanimous));
}

#[test]
fn blind_hides_first_verdict_until_second_in() {
    let mut h = hold();
    let signer1 = Ed25519Signer::from_seed([1; 32]);
    h.cast(0, go(1, &h)).unwrap();

    // While Partial and blind, the first verdict's value is not observable.
    let views = h.observed_verdicts();
    assert_eq!(views.len(), 1);
    assert_eq!(views[0].operator, signer1.operator_id());
    assert_eq!(views[0].status, VerdictStatus::Sealed);

    // After the second, both reveal.
    h.cast(1, go(2, &h)).unwrap();
    for view in h.observed_verdicts() {
        assert_eq!(view.status, VerdictStatus::Revealed(Verdict::Go));
    }
}

#[test]
fn duplicate_identity_is_rejected() {
    let mut h = hold();
    h.cast(0, go(1, &h)).unwrap();
    let err = h.cast(1, go(1, &h)).unwrap_err();
    assert_eq!(err, CastRejected::DuplicateIdentity);
    // State and version unchanged by the rejected second cast.
    assert_eq!(h.state(), HoldState::Partial);
    assert_eq!(h.version(), 1);
}

#[test]
fn stale_version_is_rejected() {
    let mut h = hold();
    h.cast(0, go(1, &h)).unwrap();
    let err = h.cast(0, go(2, &h)).unwrap_err();
    assert_eq!(err, CastRejected::StaleVersion { expected: 0, actual: 1 });
}

#[test]
fn strict_mode_rejects_the_maker() {
    let maker = Ed25519Signer::from_seed([1; 32]).operator_id();
    let mut h = DualHold::new(
        GateId("g1".into()),
        TaskId("t1".into()),
        hash(9),
        GatePolicy::default(),
        MakerSet::new().with(maker),
        Authorship::Agent,
    );
    let err = h.cast(0, go(1, &h)).unwrap_err();
    assert_eq!(err, CastRejected::Ineligible);
    // A non-maker is accepted.
    assert!(h.cast(0, go(2, &h)).is_ok());
}

#[test]
fn cannot_cast_after_resolved() {
    let mut h = hold();
    h.cast(0, go(1, &h)).unwrap();
    h.cast(1, go(2, &h)).unwrap();
    let err = h.cast(2, go(3, &h)).unwrap_err();
    assert_eq!(err, CastRejected::AlreadyResolved);
}

#[test]
fn bad_signature_is_rejected() {
    let mut h = hold();
    // Sign for a different gate, then submit here.
    let forged = CastVerdict::create(
        &Ed25519Signer::from_seed([1; 32]),
        &FixedClock(1000),
        &GateId("other-gate".into()),
        h.diff_hash(),
        Verdict::Go,
        ReviewDepth::FullDiff,
        None,
    );
    let err = h.cast(0, forged).unwrap_err();
    assert_eq!(err, CastRejected::BadSignature);
}

#[test]
fn nogo_blocks_and_retains_remedy() {
    let mut h = hold();
    h.cast(0, go(1, &h)).unwrap();
    let steer = Remedy::Steer("cache the lookup".into());
    let out = h.cast(1, nogo(2, &h, steer.clone())).unwrap();
    assert_eq!(out.state, HoldState::Blocked);
    assert_eq!(h.blocking_remedy(), Some(steer));
    assert_eq!(h.outcome(), None);
}

#[test]
fn handedit_strict_two_operators_signals_escalation() {
    let a = Ed25519Signer::from_seed([1; 32]).operator_id();
    let b = Ed25519Signer::from_seed([2; 32]).operator_id();
    // A hand-edits; strict mode; only A and B exist, so one key is eligible.
    let mut h = DualHold::reopen_handedit(
        GateId("g1".into()),
        TaskId("t1".into()),
        hash(9),
        GatePolicy::default(),
        MakerSet::new(),
        a,
        true,
        &[a, b],
    );
    assert_eq!(h.authorship(), Authorship::Both);
    let out = h.cast(0, go(2, &h)).unwrap();
    assert!(out.escalation_required);
    assert!(matches!(h.cast(1, go(1, &h)).unwrap_err(), CastRejected::Ineligible));
}

#[test]
fn handedit_pragmatic_editor_may_cosign() {
    let a = Ed25519Signer::from_seed([1; 32]).operator_id();
    let b = Ed25519Signer::from_seed([2; 32]).operator_id();
    let policy = GatePolicy {
        independence: Independence::Pragmatic,
        ..GatePolicy::default()
    };
    let mut h = DualHold::reopen_handedit(
        GateId("g1".into()),
        TaskId("t1".into()),
        hash(9),
        policy,
        MakerSet::new(),
        a,
        true,
        &[a, b],
    );
    let out = h.cast(0, go(1, &h)).unwrap();
    assert!(!out.escalation_required);
    let out = h.cast(1, go(2, &h)).unwrap();
    assert_eq!(out.state, HoldState::Satisfied);
    assert_eq!(h.outcome(), Some(Outcome::ResolvedAfterDisagreement));
}

fn pragmatic_hold(required: u8, makers: &[u8]) -> DualHold {
    let mut set = MakerSet::new();
    for seed in makers {
        set = set.with(Ed25519Signer::from_seed([*seed; 32]).operator_id());
    }
    let policy = GatePolicy {
        required,
        independence: Independence::Pragmatic,
        ..GatePolicy::default()
    };
    DualHold::new(
        GateId("g1".into()),
        TaskId("t1".into()),
        hash(9),
        policy,
        set,
        Authorship::HandEdited,
    )
}

#[test]
fn two_makers_never_clear_a_pragmatic_gate() {
    let mut h = pragmatic_hold(2, &[1, 2]);
    assert_eq!(h.cast(0, go(1, &h)).unwrap().state, HoldState::Partial);
    assert_eq!(h.cast(1, go(2, &h)), Err(CastRejected::Ineligible));
    assert_eq!((h.state(), h.version(), h.outcome()), (HoldState::Partial, 1, None));
    // A non-maker co-signs.
    assert_eq!(h.cast(1, go(3, &h)).unwrap().state, HoldState::Satisfied);
}

#[test]
fn a_maker_may_be_the_last_key_after_a_non_maker() {
    let mut h = pragmatic_hold(2, &[1, 2]);
    h.cast(0, go(3, &h)).unwrap();
    assert_eq!(h.cast(1, go(2, &h)).unwrap().state, HoldState::Satisfied);
}

#[test]
fn only_the_last_of_three_keys_must_be_a_non_makers() {
    let mut h = pragmatic_hold(3, &[1, 2, 3]);
    h.cast(0, go(1, &h)).unwrap();
    h.cast(1, go(2, &h)).unwrap();
    assert_eq!(h.cast(2, go(3, &h)), Err(CastRejected::Ineligible));
    assert_eq!(h.cast(2, go(4, &h)).unwrap().state, HoldState::Satisfied);
}

#[test]
fn one_required_key_may_be_a_makers() {
    let mut h = pragmatic_hold(1, &[1]);
    assert_eq!(h.cast(0, go(1, &h)).unwrap().state, HoldState::Satisfied);
}

#[test]
fn reopened_hold_records_resolved_after_disagreement() {
    let mut h = DualHold::reopen(
        GateId("g1".into()),
        TaskId("t1".into()),
        hash(9),
        GatePolicy::default(),
        MakerSet::new(),
        Authorship::Both,
    );
    h.cast(0, go(1, &h)).unwrap();
    h.cast(1, go(2, &h)).unwrap();
    assert_eq!(h.state(), HoldState::Satisfied);
    assert_eq!(h.outcome(), Some(Outcome::ResolvedAfterDisagreement));
}

#[test]
fn never_satisfies_on_a_single_key() {
    for seed in 0u8..64 {
        let mut h = hold();
        let out = h.cast(0, go(seed, &h)).unwrap();
        assert_eq!(out.state, HoldState::Partial);
        assert!(h.outcome().is_none());
    }
}

#[test]
fn sealed_value_never_leaks_while_partial() {
    for seed in 0u8..64 {
        let mut h = hold();
        h.cast(0, go(seed, &h)).unwrap();
        for view in h.observed_verdicts() {
            assert_eq!(view.status, VerdictStatus::Sealed);
        }
    }
}

#[test]
fn cast_refusals_have_words() {
    assert_eq!(
        CastRejected::StaleVersion { expected: 0, actual: 12 }.message(),
        "stale version: expected 0, hold is at 12"
    );
    assert_eq!(
        CastRejected::DuplicateIdentity.message(),
        "this operator has already cast on this hold"
    );
    assert_eq!(
        CastRejected::Ineligible.message(),
        "operator is not eligible to check this change (independence policy)"
    );
    assert_eq!(CastRejected::AlreadyResolved.message(), "hold is already resolved");
    assert_eq!(
        CastRejected::BadSignature.message(),
        "verdict signature is invalid for this gate"
    );
}

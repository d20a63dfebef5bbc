use kontur::ids::{GateId, HandEditRef, OperatorId};
use kontur::sign::{Ed25519Signer, FixedClock};
use kontur::verdict::{CastVerdict, Remedy, ReviewDepth, Verdict};

/// What a derived description shows of a verdict, sealed or not.
#[derive(Debug)]
#[allow(dead_code)]
struct SealedVerdict<V> {
    operator: OperatorId,
    verdict: V,
    sealed: bool,
}

fn cast(value: Verdict) -> CastVerdict {
    CastVerdict::create(
        &Ed25519Signer::from_seed([1; 32]),
        &FixedClock(1000),
        &GateId("g1".into()),
        kontur::ids::Hash([0; 32]),
        value,
        ReviewDepth::FullDiff,
        None,
    )
}

fn check_descriptions(value: Verdict) {
    let cv = cast(value.clone());
    let operator = cv.operator;
    let mut held = kontur::sealed::SealedVerdict::new(cv, true);
    let hidden = SealedVerdict { operator, verdict: "<sealed>", sealed: true };
    assert_eq!(held.describe(), format!("{hidden:?}"));
    held.unseal();
    let shown = SealedVerdict { operator, verdict: value, sealed: false };
    assert_eq!(held.describe(), format!("{shown:?}"));
}

#[test]
fn a_go_is_described_once_unsealed() {
    check_descriptions(Verdict::Go);
}

#[test]
fn a_steer_is_described_once_unsealed() {
    check_descriptions(Verdict::NoGo(Remedy::Steer("say \"why\"\n\tdon't — \u{200b}".into())));
    check_descriptions(Verdict::NoGo(Remedy::Steer(String::new())));
}

#[test]
fn a_hand_edit_is_described_once_unsealed() {
    check_descriptions(Verdict::NoGo(Remedy::HandEdit(HandEditRef("edit-1".into()))));
}

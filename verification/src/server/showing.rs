//! What the two stations are shown of a session.
use vstd::prelude::*;

use crate::clarify::{choice_text, Choice, QuestionState};
use crate::difftext::split_or_whole_spec;
use crate::gatehost::model::{pending_of, GateModel};
use crate::hold::{observers_see_who_cast, HoldState};
use crate::listing::{filter_picks, picked_at};
use crate::protocol::{WirePhase, WireQuestion};
use crate::sealed::VerdictStatus;
use crate::server::model::{
    file_diff_models, question_shown, shown_diffs, PhaseModel, ServerModel,
};
use crate::text::{fitting, hex_spec, texts};
use crate::workspace::WorkspaceCall;

verus! {

// ---------------------------------------------------------------------------
// Which gate waits
// ---------------------------------------------------------------------------
/// This gate still takes verdicts.
pub open spec fn waits(gate: GateModel) -> bool {
    gate.hold.state != HoldState::Satisfied && gate.hold.state != HoldState::Blocked
}

pub open spec fn waiting() -> spec_fn(GateModel) -> bool {
    |gate: GateModel| waits(gate)
}

/// The gates that wait for keys are the unresolved ones, oldest first, each once.
pub proof fn unresolved_gates_wait(gates: Seq<GateModel>, p: int)
    ensures
        0 <= p < gates.len() && waits(gates[p]) && (forall|j: int|
            0 <= j < p ==> !waits(#[trigger] gates[j])) ==> pending_of(gates).len() > 0
            && pending_of(gates)[0] == gates[p],
        pending_of(gates).len() == 0 <==> (forall|j: int|
            0 <= j < gates.len() ==> !waits(#[trigger] gates[j])),
        exists|places: Seq<int>| #[trigger]
            picked_at(gates, waiting(), pending_of(gates), places),
{
    let fits = |g: GateModel| g.pending();
    let places = filter_picks(gates, fits);
    assert(picked_at(gates, waiting(), pending_of(gates), places));
    if 0 <= p < gates.len() && waits(gates[p]) {
        assert(fits(gates[p]));
        assert(places.contains(p));
    }
    if pending_of(gates).len() > 0 {
        assert(waits(gates[places[0]]));
    } else {
        assert forall|j: int| 0 <= j < gates.len() implies !waits(#[trigger] gates[j]) by {
            if fits(gates[j]) {
                assert(places.contains(j));
            }
        }
    }
}

// ---------------------------------------------------------------------------
// The session
// ---------------------------------------------------------------------------
/// Both stations see both seats, every agent's card, the log, the prompt and the
/// key that waits for approval, each as it is.
pub proof fn stations_see_who_is_there(m: ServerModel, after: ServerModel, now: nat)
    requires
        m.refreshed(after, now),
    ensures
        after.wire.seats@.len() == 2,
        forall|i: int|
            0 <= i < 2 ==> {
                let w = #[trigger] after.wire.seats@[i];
                let s = after.net.seats[i];
                &&& w.label@ == s.label
                &&& w.operator == s.operator
                &&& w.role == s.role
                &&& w.linked == s.linked
                &&& w.ready == s.ready
                &&& w.afk == s.afk
            },
        after.wire.fleet@.len() == after.net.fleet.len(),
        forall|i: int|
            0 <= i < after.wire.fleet@.len() ==> {
                let w = #[trigger] after.wire.fleet@[i];
                let c = after.net.fleet[i];
                &&& w.id@ == c.id
                &&& w.status@ == c.status
                &&& w.needs_signoff == c.needs_signoff
            },
        after.wire.log@.len() == after.net.log.len(),
        forall|i: int|
            0 <= i < after.wire.log@.len() ==> (#[trigger] after.wire.log@[i])@
                == after.net.log[i],
        after.wire.prompt@ == after.net.prompt,
        after.net.pending_join is None <==> after.wire.pending_join is None,
        after.net.pending_join matches Some(op) ==> (after.wire.pending_join matches Some(j)
            && j.operator == op && j.fingerprint@ == hex_spec(op.0@.take(8))),
{
    assert(texts(after.wire.log@) == after.net.log);
    assert forall|i: int| 0 <= i < after.wire.log@.len() implies (#[trigger] after.wire.log@[i])@
        == after.net.log[i] by {
        assert(texts(after.wire.log@)[i] == after.wire.log@[i]@);
    }
}

/// Both stations see where the session stands, and what is asked of them there.
pub proof fn stations_see_what_is_asked(m: ServerModel, after: ServerModel, now: nat)
    requires
        m.refreshed(after, now),
    ensures
        after.net.phase is AwaitOperators <==> after.wire.phase is AwaitOperators,
        after.net.phase is DispatchReady <==> after.wire.phase is DispatchReady,
        after.net.phase is PlanReview <==> after.wire.phase is PlanReview,
        after.net.phase is Clarify <==> after.wire.phase is Clarify,
        after.net.phase is Executing <==> after.wire.phase is Executing,
        after.net.phase is Closed <==> after.wire.phase is Closed,
        after.wire.phase matches WirePhase::DispatchReady { prompt } ==> prompt@
            == after.net.prompt,
        after.wire.phase matches WirePhase::PlanReview { tasks } ==> texts(tasks@) == match after.net.agent_plan {
            Some(plan) => plan,
            None => after.cfg.plan,
        },
        after.wire.phase matches WirePhase::Closed {
            gates,
            chain_verified,
            reviewers,
            merged,
            abandoned,
        } ==> after.net.phase == (PhaseModel::Closed {
            gates: gates as nat,
            chain_verified,
            reviewers: texts(reviewers@),
            merged,
            abandoned,
        }),
        after.wire.phase matches WirePhase::Clarify { questions } ==> {
            &&& after.net.clarify is None ==> questions@.len() == 0
            &&& after.net.clarify matches Some(exchange) ==> questions@.len()
                == exchange.states.len()
        },
{
}

/// This is the seat's pick among the two answers and both of them, in words.
pub open spec fn pick_reads(
    pick: Option<int>,
    a_text: Seq<char>,
    b_text: Seq<char>,
    shown: Option<String>,
) -> bool {
    &&& pick is None <==> shown is None
    &&& pick matches Some(i) ==> shown->Some_0@ == if i == 0 {
        a_text
    } else if i == 1 {
        b_text
    } else {
        "accept both"@
    }
}

/// This is the seat's answer in words.
pub open spec fn answer_reads(
    answer: Option<Choice>,
    options: Seq<Seq<char>>,
    shown: Option<String>,
) -> bool {
    &&& answer is None <==> shown is None
    &&& answer matches Some(choice) ==> shown->Some_0@ == choice_text(choice, options)
}

/// How a question reads on the wire. While the seats answer it: the agent's words
/// and options, a free answer allowed, and each seat's answer. While two answers
/// are reconciled: both of them, the first seat's first, or both, and each seat's
/// pick. Once it is settled: what was accepted.
pub open spec fn question_reads(prompt: Seq<char>, state: QuestionState, w: WireQuestion) -> bool {
    match state {
        QuestionState::Collecting { options, a, b } => {
            &&& w.prompt@ == prompt
            &&& texts(w.options@) == options
            &&& w.allows_custom
            &&& w.resolved is None
            &&& answer_reads(a, options, w.picks@[0])
            &&& answer_reads(b, options, w.picks@[1])
        },
        QuestionState::Reconciling { a_text, b_text, first, second } => {
            &&& w.prompt@ == "operators differ on \""@ + prompt + "\" — A: "@ + a_text + " · B: "@
                + b_text + " — agree which to use"@
            &&& w.options@.len() == 3
            &&& w.options@[0]@ == a_text
            &&& w.options@[1]@ == b_text
            &&& w.options@[2]@ == "accept both"@
            &&& !w.allows_custom
            &&& w.resolved is None
            &&& pick_reads(first, a_text, b_text, w.picks@[0])
            &&& pick_reads(second, a_text, b_text, w.picks@[1])
        },
        QuestionState::Resolved(answers) => {
            &&& w.prompt@ == prompt
            &&& w.options@.len() == 0
            &&& !w.allows_custom
            &&& w.picks@[0] is None && w.picks@[1] is None
            &&& w.resolved matches Some(v) && texts(v@) == answers
        },
    }
}

/// Both stations see every question of an exchange, in its order.
pub proof fn stations_see_every_question(m: ServerModel, after: ServerModel, now: nat, q: int)
    requires
        m.refreshed(after, now),
        after.net.phase is Clarify,
        after.net.clarify is Some,
        0 <= q < after.net.clarify->Some_0.states.len(),
    ensures
        after.wire.phase matches WirePhase::Clarify { questions } && questions@.len()
            == after.net.clarify->Some_0.states.len() && question_reads(
            after.net.clarify->Some_0.prompts[q],
            after.net.clarify->Some_0.states[q],
            questions@[q],
        ),
{
    let exchange = after.net.clarify->Some_0;
    let w = after.wire.phase->Clarify_questions@[q];
    assert(question_shown(exchange, q, w));
    let pick = (#[trigger] w.picks@[0], #[trigger] w.picks@[1]);
    assert(texts(w.options@) == exchange.states[q].options());
    assert(texts(w.options@).len() == w.options@.len());
    assert forall|i: int| 0 <= i < w.options@.len() implies texts(w.options@)[i] == (
    #[trigger] w.options@[i])@ by {}
}

// ---------------------------------------------------------------------------
// The review gate
// ---------------------------------------------------------------------------
/// Both stations see the oldest gate that waits for keys: which it is, what it is
/// over, who made it, who has cast, the last command of its task, who says they
/// are reviewing it, and every note on it.
pub proof fn stations_see_the_waiting_gate(m: ServerModel, after: ServerModel, now: nat, p: int)
    requires
        m.refreshed(after, now),
        0 <= p < m.host.gates.len(),
        waits(m.host.gates[p]),
        forall|j: int| 0 <= j < p ==> !waits(#[trigger] m.host.gates[j]),
    ensures
        after.wire.gate is Some,
        ({
            let gate = m.host.gates[p];
            let g = after.wire.gate->Some_0;
            &&& g.gate_id@ == gate.hold.gate_id
            &&& g.task@ == gate.hold.task_id
            &&& texts(g.files@) == gate.provenance.files
            &&& g.loc == gate.provenance.loc
            &&& g.diff_hash.0@ == gate.hold.diff_hash
            &&& g.agent@ == gate.provenance.agent_id
            &&& g.escalation_required == gate.escalation_required
            &&& g.keys@.len() == gate.hold.verdicts.len()
            &&& forall|k: int|
                0 <= k < g.keys@.len() ==> {
                    &&& (#[trigger] g.keys@[k]).operator == gate.hold.verdicts[k].operator
                    &&& gate.hold.policy.blind ==> g.keys@[k].status is Sealed
                    &&& !gate.hold.policy.blind ==> g.keys@[k].status == VerdictStatus::Revealed(
                        gate.hold.verdicts[k].verdict,
                    )
                }
            &&& g.last_cmd is Some <==> m.net.last_cmd.contains_key(gate.hold.task_id)
            &&& g.last_cmd matches Some(cmd) ==> cmd.command@
                == m.net.last_cmd[gate.hold.task_id].command && cmd.exit_code
                == m.net.last_cmd[gate.hold.task_id].exit_code
            &&& g.claimed_by is Some <==> (m.net.claim matches Some(c) && c.0 == gate.hold.gate_id)
            &&& g.claimed_by matches Some(who) ==> who@ == m.net.seats[m.net.claim->Some_0.1 as int].label
            &&& !m.net.discuss.contains_key(gate.hold.gate_id) ==> g.discuss@.len() == 0
            &&& m.net.discuss.contains_key(gate.hold.gate_id) ==> {
                let notes = m.net.discuss[gate.hold.gate_id];
                &&& g.discuss@.len() == notes.len()
                &&& forall|i: int|
                    0 <= i < notes.len() ==> {
                        &&& (#[trigger] g.discuss@[i]).who@
                            == m.net.seats[notes[i].0 as int].label
                        &&& g.discuss@[i].text@ == notes[i].1
                    }
            }
        }),
        after.host.calls.len() == m.host.calls.len() + 1,
        after.host.calls.drop_last() == m.host.calls,
        after.host.calls.last() matches WorkspaceCall::Freeze { task, .. } && task
            == m.host.gates[p].hold.task_id,
{
    unresolved_gates_wait(m.host.gates, p);
    let gate = m.host.gates[p];
    let g = after.wire.gate->Some_0;
    assert forall|k: int| 0 <= k < g.keys@.len() implies {
        &&& (#[trigger] g.keys@[k]).operator == gate.hold.verdicts[k].operator
        &&& gate.hold.policy.blind ==> g.keys@[k].status is Sealed
        &&& !gate.hold.policy.blind ==> g.keys@[k].status == VerdictStatus::Revealed(
            gate.hold.verdicts[k].verdict,
        )
    } by {
        observers_see_who_cast(gate.hold, k);
    }
    assert(after.host.calls.drop_last() =~= m.host.calls);
}

/// Both stations see no gate where none waits for keys.
pub proof fn stations_see_no_resolved_gate(m: ServerModel, after: ServerModel, now: nat)
    requires
        m.refreshed(after, now),
        forall|j: int| 0 <= j < m.host.gates.len() ==> !waits(#[trigger] m.host.gates[j]),
    ensures
        after.wire.gate is None,
{
    unresolved_gates_wait(m.host.gates, 0);
}

/// The diff that both stations see is the one frozen for them at that moment,
/// file by file: a section of up to 64 KiB whole, and of a longer one the longest
/// beginning within 64 KiB, and then a line that says so. A diff that could not
/// be frozen, or is no text, is not shown.
pub proof fn stations_see_the_frozen_diff(m: ServerModel, after: ServerModel, now: nat, p: int)
    requires
        m.refreshed(after, now),
        0 <= p < m.host.gates.len(),
        waits(m.host.gates[p]),
        forall|j: int| 0 <= j < p ==> !waits(#[trigger] m.host.gates[j]),
    ensures
        after.wire.gate is Some,
        after.host.calls.last() is Freeze,
        ({
            let files = m.host.gates[p].provenance.files;
            let frozen = after.host.calls.last()->Freeze_result;
            let shown = after.wire.gate->Some_0.file_diffs@;
            let readable = frozen is Ok && vstd::utf8::valid_utf8(frozen->Ok_0.bytes@);
            let sections = split_or_whole_spec(
                vstd::utf8::decode_utf8(frozen->Ok_0.bytes@),
                if files.len() == 1 {
                    files[0]
                } else {
                    "(all files)"@
                },
            );
            &&& !readable ==> shown.len() == 0
            &&& readable ==> shown.len() == sections.len()
            &&& readable ==> forall|i: int|
                0 <= i < shown.len() ==> {
                    let section = sections[i].1;
                    let long = vstd::utf8::encode_utf8(section).len() > 65536;
                    &&& (#[trigger] shown[i]).path@ == sections[i].0
                    &&& shown[i].truncated == long
                    &&& !long ==> shown[i].diff@ == section
                    &&& long ==> shown[i].diff@ == section.take(fitting(section, 65536) as int)
                        + "\n… (diff truncated)"@
                }
            &&& after.wire.gate->Some_0.diff_truncated <==> exists|i: int|
                0 <= i < shown.len() && (#[trigger] shown[i]).truncated
        }),
{
    unresolved_gates_wait(m.host.gates, p);
    let files = m.host.gates[p].provenance.files;
    let shown = after.wire.gate->Some_0.file_diffs@;
    let frozen = after.host.calls.last()->Freeze_result;
    let diff = match frozen {
        Ok(f) => Some(f.bytes@),
        Err(_) => None,
    };
    assert(file_diff_models(shown) == shown_diffs(diff, files));
    assert(file_diff_models(shown).len() == shown.len());
    assert forall|i: int| 0 <= i < shown.len() implies file_diff_models(shown)[i] == (
        (#[trigger] shown[i]).path@,
        shown[i].diff@,
        shown[i].truncated,
    ) by {}
}

} // verus!

//! What holds of every session that two stations drive.
use vstd::prelude::*;

use crate::difftext::split_or_whole_spec;
use crate::error::GateHostError;
use crate::gatehost::model::{pending_of, GateModel, GateProgress, HostModel, PlanDecision};
use crate::ids::{GateId, OperatorId};
use crate::protocol::{ClientMsg, ServerMsg, WireGate};
use crate::sealed::VerdictStatus;
use crate::server::model::{
    choice_of, is_zero_key, refused, seat_shown, shown_diffs, whole_path, Admission, ConfigModel,
    JoinDecision, JoinStep, NetModel, ServerModel, FILE_DIFF_CAP,
};
use crate::text::{fitting, fitting_is_longest, texts, trimmed};
use crate::verdict::CastVerdict;
use crate::workspace::WorkspaceCall;

verus! {

/// What a refresh can change: the closing of the session, what both stations
/// are shown, and the calls to the workspace that either needs.
pub open spec fn same_but_shown(m: ServerModel, after: ServerModel) -> bool {
    &&& after.host == (HostModel { calls: after.host.calls, ..m.host })
    &&& after.net == (NetModel {
        phase: after.net.phase,
        log: after.net.log,
        finalizing: after.net.finalizing,
        ..m.net
    })
    &&& after.cfg == m.cfg
    &&& after.plan_approved == m.plan_approved
    &&& after.join == m.join
}

/// A refresh shows and may close; it decides nothing.
pub proof fn refresh_only_shows(m: ServerModel, after: ServerModel, now: nat)
    requires
        m.refreshed(after, now),
    ensures
        same_but_shown(m, after),
        after.net.phase == m.net.phase || (m.ready_to_close() && after.net.phase is Closed),
{
}

/// Both stations always see where the session stands: after every refresh the
/// phase, the seats, the log and the prompt on the wire are the session's own.
pub proof fn stations_see_the_session(m: ServerModel, after: ServerModel, now: nat)
    requires
        m.refreshed(after, now),
    ensures
        after.net.phase_shown(after.cfg.plan, after.wire.phase),
        forall|i: int| 0 <= i < 2 ==> seat_shown(after.net.seats[i], #[trigger] after.wire.seats@[i]),
        texts(after.wire.log@) == after.net.log,
        after.wire.prompt@ == after.net.prompt,
        after.wire.gate is Some <==> pending_of(after.host.gates).len() > 0,
{
}

/// Any edit of the prompt or the plan that is taken resets both ready flags:
/// consent counts only for what is on the screen.
pub proof fn edits_reset_consent(
    m: ServerModel,
    seat: int,
    operator: OperatorId,
    msg: ClientMsg,
    now: nat,
    replies: Seq<ServerMsg>,
    after: ServerModel,
)
    requires
        m.valid(),
        0 <= seat < 2,
        m.handled(seat, operator, msg, now, replies, after),
        msg is SetPrompt || msg is PromptDraft || msg is EditPlan || msg is SteerPlan,
    ensures
        replies.len() == 0 ==> !after.net.seats[0].ready && !after.net.seats[1].ready,
        replies.len() > 0 ==> after == m,
{
}

/// What is dispatched is what both seats consented to: the session leaves
/// dispatch only when the other seat was ready too, never with a blank prompt,
/// and the agent's instruction is the prompt both seats see.
pub proof fn dispatch_carries_the_shown_prompt(
    m: ServerModel,
    seat: int,
    operator: OperatorId,
    now: nat,
    replies: Seq<ServerMsg>,
    after: ServerModel,
)
    requires
        m.valid(),
        0 <= seat < 2,
        m.net.phase is DispatchReady,
        m.handled(seat, operator, ClientMsg::Ready, now, replies, after),
    ensures
        after.net.phase is DispatchReady || after.net.phase is PlanReview,
        after.net.phase is PlanReview ==> {
            &&& m.net.seats[1 - seat].ready
            &&& trimmed(m.net.prompt).len() > 0
            &&& after.host.ctx.prompt == m.net.prompt
            &&& after.net.prompt == m.net.prompt
            &&& !after.net.seats[0].ready && !after.net.seats[1].ready
        },
        after.net.phase is DispatchReady ==> after.host.ctx == m.host.ctx,
{
    let mid = m.after_ready(seat, now);
    refresh_only_shows(mid, after, now);
}

/// The agent gets exactly the plan that both seats approved: execution starts
/// only when the other seat was ready too, never with an empty plan, and the
/// proposal is approved with the very list that plan review showed.
pub proof fn approval_hands_over_the_shown_plan(
    m: ServerModel,
    seat: int,
    operator: OperatorId,
    now: nat,
    replies: Seq<ServerMsg>,
    after: ServerModel,
)
    requires
        m.valid(),
        0 <= seat < 2,
        m.net.phase is PlanReview,
        m.handled(seat, operator, ClientMsg::Ready, now, replies, after),
    ensures
        after.net.phase is PlanReview ==> {
            &&& after.host.plan == m.host.plan
            &&& after.host.plan_decisions == m.host.plan_decisions
            &&& after.plan_approved == m.plan_approved
        },
        !(after.net.phase is PlanReview) ==> {
            &&& m.net.seats[1 - seat].ready
            &&& m.effective_plan().len() > 0
            &&& after.plan_approved
            &&& after.host.plan_decisions.last() == PlanDecision::Approved
            &&& !m.host.abandoned ==> after.host.plan == Some(m.effective_plan())
        },
{
    let mid = m.after_ready(seat, now);
    refresh_only_shows(mid, after, now);
}

/// A seat can only cast as itself: a verdict under another identity is refused
/// and changes nothing.
pub proof fn seats_cast_only_as_themselves(
    m: ServerModel,
    seat: int,
    operator: OperatorId,
    gate_id: GateId,
    verdict: CastVerdict,
    now: nat,
    replies: Seq<ServerMsg>,
    after: ServerModel,
)
    requires
        verdict.operator != operator,
        m.handled(seat, operator, ClientMsg::Cast { gate_id, verdict }, now, replies, after),
    ensures
        after == m,
        refused(replies, "verdict identity does not match your seat"@),
{
}

/// Who is bound, who waits and what was decided stay as they are.
pub open spec fn joins_kept(m: ServerModel, after: ServerModel) -> bool {
    &&& after.join == m.join
    &&& after.net.seat_b_bound == m.net.seat_b_bound
    &&& after.net.pending_join == m.net.pending_join
    &&& after.net.seats.len() == 2
    &&& after.net.seats[1].operator == m.net.seats[1].operator
}

proof fn casts_keep_joins(
    m: ServerModel,
    seat: int,
    operator: OperatorId,
    gate_id: GateId,
    verdict: CastVerdict,
    now: nat,
    replies: Seq<ServerMsg>,
    after: ServerModel,
)
    requires
        m.valid(),
        m.cast_handled(seat, operator, gate_id, verdict, now, replies, after),
    ensures
        joins_kept(m, after),
{
    if verdict.operator == operator {
        let (host, r) = choose|host: HostModel, r: Result<GateProgress, GateHostError>| #[trigger]
            m.host.verdict_given(gate_id, verdict, host, r) && match r {
                Err(e) => refused(replies, e.words()) && after == (ServerModel { host, ..m }),
                Ok(progress) => m.after_cast(seat, gate_id@, progress.state, host, now).shows(
                    replies,
                    after,
                    now,
                ),
            };
        if let Ok(progress) = r {
            refresh_only_shows(m.after_cast(seat, gate_id@, progress.state, host, now), after, now);
        }
    }
}

proof fn edits_keep_joins(
    m: ServerModel,
    seat: int,
    operator: OperatorId,
    path: Seq<char>,
    contents: Seq<char>,
    now: nat,
    replies: Seq<ServerMsg>,
    after: ServerModel,
)
    requires
        m.valid(),
        m.edit_handled(seat, operator, path, contents, now, replies, after),
    ensures
        joins_kept(m, after),
{
}

proof fn abandoning_keeps_joins(
    m: ServerModel,
    seat: int,
    now: nat,
    replies: Seq<ServerMsg>,
    after: ServerModel,
)
    requires
        m.valid(),
        m.abandon_handled(seat, now, replies, after),
    ensures
        joins_kept(m, after),
{
}

proof fn ready_keeps_joins(m: ServerModel, seat: int, now: nat)
    requires
        m.valid(),
        0 <= seat < 2,
    ensures
        joins_kept(m, m.after_ready(seat, now)),
{
}

/// Only the host seat decides who joins: no message of the second seat changes
/// what was decided, which key is bound, or which one waits.
#[verifier::rlimit(50)]
pub proof fn second_seat_never_decides_joins(
    m: ServerModel,
    operator: OperatorId,
    msg: ClientMsg,
    now: nat,
    replies: Seq<ServerMsg>,
    after: ServerModel,
)
    requires
        m.valid(),
        m.handled(1, operator, msg, now, replies, after),
    ensures
        joins_kept(m, after),
{
    match msg {
        ClientMsg::Ready => {
            ready_keeps_joins(m, 1, now);
            refresh_only_shows(m.after_ready(1, now), after, now);
        },
        ClientMsg::Cast { gate_id, verdict } => casts_keep_joins(
            m,
            1,
            operator,
            gate_id,
            verdict,
            now,
            replies,
            after,
        ),
        ClientMsg::HandEdit { path, contents } => edits_keep_joins(
            m,
            1,
            operator,
            path@,
            contents@,
            now,
            replies,
            after,
        ),
        ClientMsg::Abandon => abandoning_keeps_joins(m, 1, now, replies, after),
        ClientMsg::Answer { question, choice } => if m.net.phase is Clarify
            && m.net.clarify is Some {
            refresh_only_shows(
                m.after_answer(1, question as int, choice_of(choice), now),
                after,
                now,
            );
        },
        ClientMsg::SteerPlan { steer } => if replies.len() == 0 {
            refresh_only_shows(m.after_steer(1, steer, now), after, now);
        },
        _ => {},
    }
}

/// The second seat is bound only to a key that the host approved; once bound it
/// stays bound; and a key that is newly bound is the seat's identity and on the
/// roster whose verdicts count.
pub proof fn only_approved_keys_are_bound(
    m: ServerModel,
    operator: OperatorId,
    r: Result<usize, String>,
    after: ServerModel,
    now: nat,
)
    requires
        m.valid(),
        m.join_settled(operator, r),
        m.after_join(operator).refreshed(after, now),
    ensures
        m.net.seat_b_bound is Some ==> after.net.seat_b_bound == m.net.seat_b_bound,
        m.net.seat_b_bound is None && after.net.seat_b_bound is Some ==> {
            &&& after.net.seat_b_bound == Some(operator)
            &&& m.join == JoinDecision::Approved(operator)
            &&& after.net.seats[1].operator == operator
            &&& after.host.ctx.operators.contains(operator)
        },
        r is Ok ==> m.join == JoinDecision::Approved(operator) && after.net.seat_b_bound == Some(
            operator,
        ),
        after.net.pending_join != Some(operator),
{
    let mid = m.after_join(operator);
    refresh_only_shows(mid, after, now);
    if m.join_decision(operator) == Some(true) && m.net.seat_b_bound is None {
        let was = m.host.ctx.operators;
        if !was.contains(operator) {
            let n = was.len() as int;
            assert(mid.host.ctx.operators[n] == operator);
        }
    }
}

/// While one key awaits approval, no other can: the host is shown the key that
/// an approval would bind.
pub proof fn one_key_waits_at_a_time(
    m: ServerModel,
    waiting: OperatorId,
    operator: OperatorId,
    now: nat,
    step: JoinStep,
    after: ServerModel,
)
    requires
        m.net.pending_join == Some(waiting),
        operator != waiting,
        m.net.seat_b_bound != Some(operator),
        m.join_requested(operator, now, step, after),
    ensures
        step is Refused,
        after == m,
{
}

/// The key that marks an open seat is no identity, and a client of another
/// version is turned away.
pub proof fn hello_is_checked(cfg: ConfigModel, msg: ClientMsg, a: Admission)
    requires
        cfg.admits(msg, a),
    ensures
        !(msg is Hello) ==> a is Refused,
        msg is Hello && msg->Hello_protocol != crate::protocol::PROTOCOL_VERSION ==> a is Refused,
        msg is Hello && is_zero_key(msg->Hello_operator) ==> a is Refused,
        a matches Admission::Seated(i) ==> i < 2 && cfg.seats[i as int].1 == msg->Hello_operator,
        a matches Admission::OwnKey(op) ==> op == msg->Hello_operator && is_zero_key(
            cfg.seats[1].1,
        ),
{
}

/// Presence and discussion never touch the four-eyes hold: claiming a gate,
/// noting on it, stepping away and keeping alive leave every gate, the audit
/// chain, the roster and every decision as they are.
pub proof fn presence_never_touches_the_gates(
    m: ServerModel,
    seat: int,
    operator: OperatorId,
    msg: ClientMsg,
    now: nat,
    replies: Seq<ServerMsg>,
    after: ServerModel,
)
    requires
        m.valid(),
        0 <= seat < 2,
        m.handled(seat, operator, msg, now, replies, after),
        msg is Claim || msg is Discuss || msg is SetAfk || msg is Ping || msg is Bye
            || msg is Hello,
    ensures
        after.host == (HostModel { calls: after.host.calls, ..m.host }),
{
}

/// A session is merged only when the agent is done and no gate pends, and it
/// closes in the same step.
pub proof fn merging_needs_every_gate_resolved(m: ServerModel, after: ServerModel, now: nat)
    requires
        m.refreshed(after, now),
        !(m.net.phase is Closed),
        after.net.phase is Closed,
    ensures
        m.net.phase is Executing,
        m.net.agent_done,
        pending_of(m.host.gates).len() == 0,
        after.host.calls.last() is Merge,
        after.net.phase->merged == after.host.calls.last()->Merge_result is Ok,
        !after.net.phase->abandoned,
{
}

/// A closed session leaves its trail: the merge carries both signers and the
/// head of the audit chain, and before it the signed records went to the audit
/// home, where there is one, under a name made of that head.
pub proof fn closing_leaves_the_trail(m: ServerModel, after: ServerModel, now: nat)
    requires
        m.refreshed(after, now),
        !(m.net.phase is Closed),
        after.net.phase is Closed,
    ensures
        after.host.calls.last() is Merge,
        after.host.calls.last()->Merge_message == m.merge_message(),
        m.persists() ==> m.audit_call(after.host.calls[m.host.calls.len() as int]),
        after.net.phase->gates == m.host.chain.len(),
        after.net.phase->chain_verified,
        after.net.phase->reviewers == m.net.labels(),
{
}

/// A closed session stays closed, as it was, whatever the seats say: nothing is
/// merged twice and an abandon comes too late.
pub proof fn closed_stays_closed(
    m: ServerModel,
    seat: int,
    operator: OperatorId,
    msg: ClientMsg,
    now: nat,
    replies: Seq<ServerMsg>,
    after: ServerModel,
)
    requires
        m.valid(),
        0 <= seat < 2,
        m.net.phase is Closed,
        m.handled(seat, operator, msg, now, replies, after),
    ensures
        after.net.phase == m.net.phase,
        msg is Abandon ==> after == m,
{
}

/// Abandoning merges nothing: the session closes as abandoned, it takes no
/// verdict from then on, every resolved gate keeps its record, the records go
/// to the audit home where there is one, and no call to the workspace is a
/// merge.
pub proof fn abandoning_merges_nothing(
    m: ServerModel,
    seat: int,
    operator: OperatorId,
    now: nat,
    replies: Seq<ServerMsg>,
    after: ServerModel,
)
    requires
        m.valid(),
        0 <= seat < 2,
        !(m.net.phase is Closed),
        m.handled(seat, operator, ClientMsg::Abandon, now, replies, after),
    ensures
        after.net.phase is Closed,
        after.net.phase->abandoned,
        !after.net.phase->merged,
        after.host.abandoned,
        after.host.chain == m.host.chain,
        after.host.calls.len() >= m.host.calls.len(),
        forall|i: int|
            m.host.calls.len() <= i < after.host.calls.len() ==> !((
            #[trigger] after.host.calls[i]) is Merge),
        m.persists() ==> exists|i: int|
            m.host.calls.len() <= i < after.host.calls.len() && m.audit_call(
                #[trigger] after.host.calls[i],
            ),
{
    let (host, r, audit) = choose|
        host: HostModel,
        r: Result<(), GateHostError>,
        audit: WorkspaceCall,
    | {
        &&& m.host.abandon_made(host, r)
        &&& m.persists() ==> m.audit_call(audit)
        &&& (#[trigger] m.after_abandon(seat, now, host, r, audit)).shows(replies, after, now)
    };
    let ended = m.after_abandon(seat, now, host, r, audit);
    refresh_only_shows(ended, after, now);
    let n = m.host.calls.len() as int;
    let made = host.calls.len() - n;
    assert forall|i: int| n <= i < after.host.calls.len() implies !((
    #[trigger] after.host.calls[i]) is Merge) by {
        if i < n + made {
            let k = i - n;
            assert(host.calls[n + k] is Discard);
        }
    }
    if m.persists() {
        assert(after.host.calls[n + made] == audit);
    }
}

/// A dropped seat leaves no presence behind: it is neither linked nor away, and
/// holds no claim. The gates stay as they are.
pub proof fn dropped_seats_leave_no_presence(
    m: ServerModel,
    seat: int,
    now: nat,
    after: ServerModel,
)
    requires
        m.valid(),
        0 <= seat < 2,
        m.with_net(m.net.after_disconnect(seat, now)).refreshed(after, now),
    ensures
        !after.net.seats[seat].linked,
        !after.net.seats[seat].afk,
        after.net.claim matches Some(c) ==> c.1 != seat,
        after.net.seats[1 - seat] == m.net.seats[1 - seat],
        after.host.gates == m.host.gates,
{
}

/// Every file's section is capped on its own: a short one is shown whole
/// whatever the others are, and a long one is cut to the longest prefix whose
/// bytes are within the cap, and marked.
pub proof fn caps_are_per_file(bytes: Seq<u8>, files: Seq<Seq<char>>, i: int)
    requires
        vstd::utf8::valid_utf8(bytes),
        ({
            let sections = split_or_whole_spec(
                vstd::utf8::decode_utf8(bytes),
                whole_path(files),
            );
            0 <= i < sections.len()
        }),
    ensures
        ({
            let sections = split_or_whole_spec(
                vstd::utf8::decode_utf8(bytes),
                whole_path(files),
            );
            let shown = shown_diffs(Some(bytes), files);
            let size = vstd::utf8::encode_utf8(sections[i].1).len();
            let fits = fitting(sections[i].1, FILE_DIFF_CAP as nat) as int;
            &&& shown.len() == sections.len()
            &&& shown[i].0 == sections[i].0
            &&& size <= FILE_DIFF_CAP ==> shown[i].1 == sections[i].1 && !shown[i].2
            &&& size > FILE_DIFF_CAP ==> {
                &&& shown[i].2
                &&& 0 <= fits < sections[i].1.len()
                &&& sections[i].1.take(fits).is_prefix_of(shown[i].1)
                &&& vstd::utf8::encode_utf8(sections[i].1.take(fits)).len() <= FILE_DIFF_CAP
                &&& forall|n: int|
                    fits < n <= sections[i].1.len() ==> vstd::utf8::encode_utf8(
                        #[trigger] sections[i].1.take(n),
                    ).len() > FILE_DIFF_CAP
            }
        }),
{
    let sections = split_or_whole_spec(vstd::utf8::decode_utf8(bytes), whole_path(files));
    fitting_is_longest(sections[i].1, FILE_DIFF_CAP as nat);
    assert(sections[i].1.take(sections[i].1.len() as int) =~= sections[i].1);
}

/// No station is shown a sealed value: while a blind gate takes verdicts, every
/// key on the wire says who cast and nothing of what.
pub proof fn wire_shows_no_sealed_value(
    net: NetModel,
    gate: GateModel,
    g: WireGate,
    diff: Option<Seq<u8>>,
    k: int,
)
    requires
        net.gate_shown(gate, g, diff),
        gate.hold.sealed(),
        0 <= k < g.keys@.len(),
    ensures
        g.keys@[k].status == VerdictStatus::Sealed,
{
}

/// The answers that settle an exchange are what the agent gets, and only then
/// does the session move on.
pub proof fn agent_gets_the_settled_answers(
    m: ServerModel,
    seat: int,
    operator: OperatorId,
    question: usize,
    choice: crate::protocol::WireChoice,
    now: nat,
    replies: Seq<ServerMsg>,
    after: ServerModel,
)
    requires
        m.valid(),
        0 <= seat < 2,
        m.net.phase is Clarify,
        m.net.clarify is Some,
        m.handled(seat, operator, ClientMsg::Answer { question, choice }, now, replies, after),
    ensures
        ({
            let next = m.net.clarify->Some_0.after(
                seat as nat,
                question as int,
                choice_of(choice),
            );
            if next.done() {
                &&& after.host.clarify_decisions.last() == Some(next.answers())
                &&& after.net.phase is PlanReview
                &&& after.net.clarify is None
            } else {
                &&& after.host.clarify_decisions == m.host.clarify_decisions
                &&& after.net.phase is Clarify
                &&& after.net.clarify == Some(next)
            }
        }),
{
    let mid = m.after_answer(
        seat as nat,
        question as int,
        choice_of(choice),
        now,
    );
    refresh_only_shows(mid, after, now);
}

} // verus!

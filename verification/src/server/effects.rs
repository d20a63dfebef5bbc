//! What each event of the host and each message of a seat brings about.
use vstd::prelude::*;

use crate::gatehost::model::{
    pending_of, ClarifyQuestion, EventView, HostEvent, HostModel, PlanDecision,
};
use crate::hold::HoldState;
use crate::ids::{GateId, OperatorId, TaskId};
use crate::protocol::{ClientMsg, ServerMsg, WirePhase};
use crate::server::laws::refresh_only_shows;
use crate::server::model::{
    card_index, first_forty, taking_in_goes_on, with_card, with_status, CardModel, NetModel,
    SeatModel, ServerModel,
};
use crate::text::{decimal_spec, signed_decimal_spec, texts, trimmed, zero_padded};
use crate::text_laws::blank;

verus! {

// ---------------------------------------------------------------------------
// The log and the fleet
// ---------------------------------------------------------------------------
/// The log with one line more: it ends in this text, behind the minutes and the
/// seconds in two digits each, and before it stand the latest lines, so that
/// there are eight at most.
pub open spec fn one_line_more(
    before: Seq<Seq<char>>,
    after: Seq<Seq<char>>,
    now: nat,
    text: Seq<char>,
) -> bool {
    &&& after.len() == if before.len() < 8 {
        before.len() + 1
    } else {
        8
    }
    &&& after.last() == zero_padded(decimal_spec(now / 60), 2) + ":"@ + zero_padded(
        decimal_spec(now % 60),
        2,
    ) + " "@ + text
    &&& forall|i: int|
        0 <= i < after.len() - 1 ==> #[trigger] after[i] == before[before.len() - after.len() + 1
            + i]
}

/// Every line that is logged stands at the end of the log, and nothing else of
/// what the stations share is touched.
pub proof fn logging_adds_one_line(net: NetModel, now: nat, text: Seq<char>)
    ensures
        one_line_more(net.log, net.logged(now, text).log, now, text),
        net.logged(now, text) == (NetModel { log: net.logged(now, text).log, ..net }),
{
}

/// `after` is `before` with this card in place of the first one of its id, or at
/// the end where there was none.
pub open spec fn card_put(
    before: Seq<CardModel>,
    after: Seq<CardModel>,
    card: CardModel,
) -> bool {
    ||| exists|i: int|
        {
            &&& 0 <= i < before.len()
            &&& (#[trigger] before[i]).id == card.id
            &&& forall|j: int| 0 <= j < i ==> (#[trigger] before[j]).id != card.id
            &&& after == before.update(i, card)
        }
    ||| {
        &&& forall|j: int| 0 <= j < before.len() ==> (#[trigger] before[j]).id != card.id
        &&& after == before.push(card)
    }
}

/// `after` is `before` with this card in place of the first one of its id; where
/// there was none, nothing changed.
pub open spec fn card_changed(
    before: Seq<CardModel>,
    after: Seq<CardModel>,
    card: CardModel,
) -> bool {
    ||| exists|i: int|
        {
            &&& 0 <= i < before.len()
            &&& (#[trigger] before[i]).id == card.id
            &&& forall|j: int| 0 <= j < i ==> (#[trigger] before[j]).id != card.id
            &&& after == before.update(i, card)
        }
    ||| {
        &&& forall|j: int| 0 <= j < before.len() ==> (#[trigger] before[j]).id != card.id
        &&& after == before
    }
}

proof fn card_is_found(fleet: Seq<CardModel>, id: Seq<char>)
    ensures
        card_index(fleet, id) <= fleet.len(),
        card_index(fleet, id) < fleet.len() ==> fleet[card_index(fleet, id) as int].id == id,
        forall|j: int| 0 <= j < card_index(fleet, id) ==> (#[trigger] fleet[j]).id != id,
    decreases fleet.len(),
{
    if fleet.len() > 0 && fleet[0].id != id {
        card_is_found(fleet.skip(1), id);
        assert forall|j: int| 0 <= j < card_index(fleet, id) implies (#[trigger] fleet[j]).id
            != id by {
            if j > 0 {
                assert(fleet.skip(1)[j - 1] == fleet[j]);
            }
        }
    }
}

/// A card takes the place of the one with its id: every agent has one card, and
/// nobody else's changes.
pub proof fn cards_are_kept_by_id(fleet: Seq<CardModel>, card: CardModel)
    ensures
        card_put(fleet, with_card(fleet, card), card),
        card_changed(fleet, with_status(fleet, card), card),
{
    card_is_found(fleet, card.id);
    let i = card_index(fleet, card.id) as int;
    if i < fleet.len() {
        assert(fleet[i].id == card.id);
    }
}

/// `short` is `s`, cut behind its fortieth character where it is longer.
pub open spec fn cut_at_forty(s: Seq<char>, short: Seq<char>) -> bool {
    &&& s.len() <= 40 ==> short == s
    &&& s.len() > 40 ==> short.len() == 40 && short.is_prefix_of(s)
}

/// What is too long for a line is cut behind its fortieth character.
pub proof fn long_words_are_cut_at_forty(s: Seq<char>)
    ensures
        cut_at_forty(s, first_forty(s)),
{
}

// ---------------------------------------------------------------------------
// Events of the host
// ---------------------------------------------------------------------------
/// A write shows on its agent's card and in the log: which file, and how many
/// bytes.
pub proof fn writes_are_reported(
    net: NetModel,
    own: Seq<char>,
    agent: String,
    task: TaskId,
    path: String,
    bytes: usize,
    now: nat,
)
    ensures
        ({
            let after = net.after_event(own, HostEvent::Write { agent, task, path, bytes }@, now);
            &&& card_put(
                net.fleet,
                after.fleet,
                CardModel { id: agent@, status: "write "@ + path@, needs_signoff: false },
            )
            &&& one_line_more(
                net.log,
                after.log,
                now,
                agent@ + " wrote "@ + path@ + " ("@ + decimal_spec(bytes as nat) + "B)"@,
            )
            &&& after == (NetModel { fleet: after.fleet, log: after.log, ..net })
        }),
{
    cards_are_kept_by_id(
        net.fleet,
        CardModel { id: agent@, status: "write "@ + path@, needs_signoff: false },
    );
}

/// A command shows on its agent's card and in the log, with how it ended, and is
/// the last one of its task from then on.
pub proof fn commands_are_reported(
    net: NetModel,
    own: Seq<char>,
    agent: String,
    task: TaskId,
    command: String,
    exit_code: i32,
    now: nat,
)
    ensures
        ({
            let after = net.after_event(
                own,
                HostEvent::Command { agent, task, command, exit_code }@,
                now,
            );
            &&& exists|short: Seq<char>| #[trigger]
                cut_at_forty(command@, short) && card_put(
                    net.fleet,
                    after.fleet,
                    CardModel { id: agent@, status: "run "@ + short, needs_signoff: false },
                ) && one_line_more(
                    net.log,
                    after.log,
                    now,
                    agent@ + " ran "@ + short + (if exit_code == 0 {
                        " · exit 0"@
                    } else {
                        " · FAILED exit "@ + signed_decimal_spec(exit_code as int)
                    }),
                )
            &&& after.last_cmd.contains_key(task@)
            &&& after.last_cmd[task@].command == command@
            &&& after.last_cmd[task@].exit_code == exit_code
            &&& forall|t: Seq<char>|
                t != task@ ==> (#[trigger] after.last_cmd.contains_key(t)
                    == net.last_cmd.contains_key(t)) && after.last_cmd[t] == net.last_cmd[t]
            &&& after == (NetModel {
                fleet: after.fleet,
                log: after.log,
                last_cmd: after.last_cmd,
                ..net
            })
        }),
{
    let short = first_forty(command@);
    cards_are_kept_by_id(
        net.fleet,
        CardModel { id: agent@, status: "run "@ + short, needs_signoff: false },
    );
    long_words_are_cut_at_forty(command@);
    let after = net.after_event(
        own,
        HostEvent::Command { agent, task, command, exit_code }@,
        now,
    );
    let text = agent@ + " ran "@ + short + (if exit_code == 0 {
        " · exit 0"@
    } else {
        " · FAILED exit "@ + signed_decimal_spec(exit_code as int)
    });
    if exit_code != 0 {
        assert(text =~= agent@ + " ran "@ + short + " · FAILED exit "@ + signed_decimal_spec(
            exit_code as int,
        ));
    }
    assert(one_line_more(net.log, after.log, now, text));
}

/// A gate that opens asks for the operators' keys on the card of the session's
/// own agent.
pub proof fn opened_gates_ask_for_keys(
    net: NetModel,
    own: Seq<char>,
    agent: String,
    gate_id: GateId,
    task: TaskId,
    now: nat,
)
    ensures
        ({
            let after = net.after_event(own, HostEvent::GateOpened { agent, gate_id, task }@, now);
            &&& card_put(
                net.fleet,
                after.fleet,
                CardModel { id: own, status: "▶ needs sign-off"@, needs_signoff: true },
            )
            &&& one_line_more(
                net.log,
                after.log,
                now,
                "gate "@ + gate_id@ + " parked at merge gate"@,
            )
            &&& after == (NetModel { fleet: after.fleet, log: after.log, ..net })
        }),
{
    cards_are_kept_by_id(
        net.fleet,
        CardModel { id: own, status: "▶ needs sign-off"@, needs_signoff: true },
    );
}

/// A gate that resolves lets the session's own agent go on: its card asks for
/// nothing any more.
pub proof fn resolved_gates_ask_for_nothing(
    net: NetModel,
    own: Seq<char>,
    gate_id: GateId,
    state: HoldState,
    now: nat,
)
    ensures
        ({
            let after = net.after_event(own, HostEvent::GateResolved { gate_id, state }@, now);
            &&& card_changed(
                net.fleet,
                after.fleet,
                CardModel { id: own, status: "working"@, needs_signoff: false },
            )
            &&& after == (NetModel { fleet: after.fleet, ..net })
        }),
{
    cards_are_kept_by_id(
        net.fleet,
        CardModel { id: own, status: "working"@, needs_signoff: false },
    );
}

/// A superseded gate and a routed steer are logged, and change nothing.
pub proof fn redirects_and_steers_are_logged(
    net: NetModel,
    own: Seq<char>,
    old_gate_id: GateId,
    new_gate_id: GateId,
    steer: String,
    now: nat,
)
    ensures
        ({
            let after = net.after_event(
                own,
                HostEvent::GateSuperseded { old_gate_id, new_gate_id }@,
                now,
            );
            &&& one_line_more(
                net.log,
                after.log,
                now,
                "gate "@ + old_gate_id@ + " superseded by hand-edit → "@ + new_gate_id@,
            )
            &&& after == (NetModel { log: after.log, ..net })
        }),
        ({
            let after = net.after_event(own, HostEvent::PlanSteered { steer }@, now);
            &&& exists|short: Seq<char>| #[trigger]
                cut_at_forty(steer@, short) && one_line_more(
                    net.log,
                    after.log,
                    now,
                    "plan steer routed to agent: "@ + short,
                )
            &&& after == (NetModel { log: after.log, ..net })
        }),
        net.after_event(own, HostEvent::SessionAbandoned@, now) == net,
{
    long_words_are_cut_at_forty(steer@);
}

/// A proposed plan is the agent's plan from then on, task by task, and its card
/// asks for approval.
pub proof fn proposed_plans_are_kept_whole(
    net: NetModel,
    own: Seq<char>,
    agent: String,
    tasks: Vec<String>,
    configured: Seq<Seq<char>>,
    now: nat,
)
    ensures
        ({
            let after = net.after_event(own, HostEvent::PlanProposed { agent, tasks }@, now);
            &&& after.agent_plan matches Some(kept) && kept.len() == tasks@.len() && forall|i: int|
                0 <= i < tasks@.len() ==> #[trigger] kept[i] == tasks@[i]@
            &&& after.effective_plan(configured) == texts(tasks@)
            &&& card_put(
                net.fleet,
                after.fleet,
                CardModel {
                    id: agent@,
                    status: "plan: "@ + decimal_spec(tasks@.len()) + " task(s) awaiting approval"@,
                    needs_signoff: true,
                },
            )
            &&& one_line_more(
                net.log,
                after.log,
                now,
                "agent proposed "@ + decimal_spec(tasks@.len()) + " tasks"@,
            )
            &&& after == (NetModel {
                agent_plan: after.agent_plan,
                fleet: after.fleet,
                log: after.log,
                ..net
            })
        }),
{
    cards_are_kept_by_id(
        net.fleet,
        CardModel {
            id: agent@,
            status: "plan: "@ + decimal_spec(tasks@.len()) + " task(s) awaiting approval"@,
            needs_signoff: true,
        },
    );
}

/// Asked questions open an exchange in which every question stands in its order,
/// in its words, with its options, and answered by nobody.
pub proof fn asked_questions_open_an_exchange(
    net: NetModel,
    own: Seq<char>,
    agent: String,
    questions: Vec<ClarifyQuestion>,
    now: nat,
)
    ensures
        ({
            let after = net.after_event(own, HostEvent::QuestionsAsked { agent, questions }@, now);
            &&& after.phase is Clarify
            &&& after.clarify matches Some(exchange) && {
                &&& exchange.prompts.len() == questions@.len()
                &&& exchange.states.len() == questions@.len()
                &&& forall|q: int|
                    0 <= q < questions@.len() ==> #[trigger] exchange.prompts[q]
                        == questions@[q].prompt@
                &&& forall|q: int|
                    0 <= q < questions@.len() ==> {
                        &&& (#[trigger] exchange.states[q]) is Collecting
                        &&& exchange.states[q]->Collecting_options == texts(
                            questions@[q].options@,
                        )
                        &&& exchange.states[q]->Collecting_a is None
                        &&& exchange.states[q]->Collecting_b is None
                    }
            }
            &&& card_changed(
                net.fleet,
                after.fleet,
                CardModel {
                    id: agent@,
                    status: "awaiting "@ + decimal_spec(questions@.len())
                        + " clarification answer(s)"@,
                    needs_signoff: true,
                },
            )
            &&& one_line_more(
                net.log,
                after.log,
                now,
                "agent asked "@ + decimal_spec(questions@.len()) + " clarification question(s)"@,
            )
            &&& after == (NetModel {
                phase: after.phase,
                clarify: after.clarify,
                fleet: after.fleet,
                log: after.log,
                ..net
            })
        }),
{
    cards_are_kept_by_id(
        net.fleet,
        CardModel {
            id: agent@,
            status: "awaiting "@ + decimal_spec(questions@.len()) + " clarification answer(s)"@,
            needs_signoff: true,
        },
    );
}

// ---------------------------------------------------------------------------
// Messages of a seat
// ---------------------------------------------------------------------------
/// The session goes on: it is not executing, its agent still works, or a gate
/// waits for its keys.
pub open spec fn unfinished(m: ServerModel) -> bool {
    !(m.net.phase is Executing) || !m.net.agent_done || m.net.finalizing || pending_of(
        m.host.gates,
    ).len() > 0
}

/// A session that goes on is shown as it is: what the stations share stays, and
/// of the host only the calls to the workspace grow.
pub proof fn showing_changes_nothing(m: ServerModel, after: ServerModel, now: nat)
    requires
        m.refreshed(after, now),
        unfinished(m),
    ensures
        after.net == m.net,
        after.host == (HostModel { calls: after.host.calls, ..m.host }),
        after.cfg == m.cfg,
        after.plan_approved == m.plan_approved,
        after.join == m.join,
{
}

/// A session with nothing left to do closes: the agent is done and every gate is
/// resolved.
pub proof fn finished_sessions_close(m: ServerModel, after: ServerModel, now: nat)
    requires
        m.refreshed(after, now),
        !unfinished(m),
    ensures
        after.net.phase is Closed,
        after.net.finalizing,
{
}

/// Everything but what the stations share stays as it is.
pub open spec fn host_untouched(m: ServerModel, after: ServerModel) -> bool {
    &&& after.host == (HostModel { calls: after.host.calls, ..m.host })
    &&& after.cfg == m.cfg
    &&& after.plan_approved == m.plan_approved
    &&& after.join == m.join
}

/// Neither seat counts as ready any more, and nothing else of a seat changed.
pub open spec fn consent_withdrawn(before: Seq<SeatModel>, after: Seq<SeatModel>) -> bool {
    &&& after.len() == 2
    &&& forall|i: int|
        0 <= i < 2 ==> #[trigger] after[i] == (SeatModel { ready: false, ..before[i] })
}

/// One ready seat waits for the other: it is marked, and nothing else happens.
pub proof fn one_ready_seat_waits(
    m: ServerModel,
    seat: int,
    operator: OperatorId,
    now: nat,
    replies: Seq<ServerMsg>,
    after: ServerModel,
)
    requires
        m.valid(),
        0 <= seat < 2,
        unfinished(m),
        !m.net.seats[1 - seat].ready || !(m.net.phase is DispatchReady || m.net.phase
            is PlanReview),
        m.handled(seat, operator, ClientMsg::Ready, now, replies, after),
    ensures
        replies.len() == 0,
        host_untouched(m, after),
        after.net.seats.len() == 2,
        after.net.seats[seat] == (SeatModel { ready: true, ..m.net.seats[seat] }),
        after.net.seats[1 - seat] == m.net.seats[1 - seat],
        after.net == (NetModel { seats: after.net.seats, ..m.net }),
{
}

/// Two ready seats dispatch the prompt that both see: it is the instruction of
/// the agent from then on, and the plan is reviewed next. A blank prompt is not
/// dispatched. Either way both have to consent anew.
#[verifier::rlimit(30)]
pub proof fn two_ready_seats_dispatch(
    m: ServerModel,
    seat: int,
    operator: OperatorId,
    now: nat,
    replies: Seq<ServerMsg>,
    after: ServerModel,
)
    requires
        m.valid(),
        0 <= seat < 2,
        m.net.phase is DispatchReady,
        m.net.seats[1 - seat].ready,
        m.handled(seat, operator, ClientMsg::Ready, now, replies, after),
    ensures
        replies.len() == 0,
        consent_withdrawn(m.net.seats, after.net.seats),
        blank(m.net.prompt) ==> {
            &&& host_untouched(m, after)
            &&& one_line_more(m.net.log, after.net.log, now, "prompt is empty — compose with [p]"@)
            &&& after.net == (NetModel {
                seats: after.net.seats,
                log: after.net.log,
                ..m.net
            })
        },
        !blank(m.net.prompt) ==> {
            &&& after.net.phase is PlanReview
            &&& one_line_more(m.net.log, after.net.log, now, "dispatch confirmed · plan review"@)
            &&& after.net == (NetModel {
                phase: after.net.phase,
                seats: after.net.seats,
                log: after.net.log,
                ..m.net
            })
            &&& after.host.ctx.prompt == m.net.prompt
            &&& after.host == (HostModel {
                ctx: crate::session::ContextView { prompt: m.net.prompt, ..m.host.ctx },
                calls: after.host.calls,
                ..m.host
            })
            &&& after.cfg == m.cfg && after.plan_approved == m.plan_approved && after.join
                == m.join
        },
{
    crate::text_laws::trimming_drops_only_space(m.net.prompt);
}

/// Two ready seats approve the plan that both see: the latest proposal is
/// approved with it and execution starts. Without a plan nothing starts. Either
/// way both have to consent anew.
pub proof fn two_ready_seats_approve(
    m: ServerModel,
    seat: int,
    operator: OperatorId,
    now: nat,
    replies: Seq<ServerMsg>,
    after: ServerModel,
)
    requires
        m.valid(),
        0 <= seat < 2,
        m.net.phase is PlanReview,
        !m.net.agent_done,
        m.net.seats[1 - seat].ready,
        m.handled(seat, operator, ClientMsg::Ready, now, replies, after),
    ensures
        replies.len() == 0,
        consent_withdrawn(m.net.seats, after.net.seats),
        ({
            let plan = match m.net.agent_plan {
                Some(tasks) => tasks,
                None => m.cfg.plan,
            };
            let last = m.host.plan_decisions.len() - 1;
            &&& plan.len() == 0 ==> {
                &&& host_untouched(m, after)
                &&& one_line_more(m.net.log, after.net.log, now, "waiting for agent plan"@)
                &&& after.net == (NetModel {
                    seats: after.net.seats,
                    log: after.net.log,
                    ..m.net
                })
            }
            &&& plan.len() > 0 ==> {
                &&& after.net.phase is Executing
                &&& after.plan_approved
                &&& one_line_more(m.net.log, after.net.log, now, "plan approved · executing"@)
                &&& after.net == (NetModel {
                    phase: after.net.phase,
                    seats: after.net.seats,
                    log: after.net.log,
                    ..m.net
                })
                &&& !m.host.abandoned ==> after.host.plan == Some(plan)
                &&& m.host.abandoned ==> after.host.plan == m.host.plan
                &&& after.host.plan_decisions.len() == m.host.plan_decisions.len()
                &&& after.host.plan_decisions[last] is Approved
                &&& forall|k: int|
                    0 <= k < last ==> #[trigger] after.host.plan_decisions[k]
                        == m.host.plan_decisions[k]
                &&& after.host == (HostModel {
                    plan: after.host.plan,
                    plan_decisions: after.host.plan_decisions,
                    calls: after.host.calls,
                    ..m.host
                })
                &&& after.cfg == m.cfg && after.join == m.join
            }
        }),
{
}

/// A committed prompt is the session's and the agent's from then on, and both
/// seats have to consent anew. A blank one is refused, and once dispatched the
/// prompt is locked.
#[verifier::rlimit(30)]
pub proof fn committed_prompts_are_taken_as_written(
    m: ServerModel,
    seat: int,
    operator: OperatorId,
    prompt: String,
    now: nat,
    replies: Seq<ServerMsg>,
    after: ServerModel,
)
    requires
        m.valid(),
        0 <= seat < 2,
        m.handled(seat, operator, ClientMsg::SetPrompt { prompt }, now, replies, after),
    ensures
        !(m.net.phase is DispatchReady) ==> {
            &&& after == m
            &&& replies.len() == 1
            &&& replies[0] matches ServerMsg::Rejected { reason } && reason@
                == "prompt is locked after dispatch"@
        },
        m.net.phase is DispatchReady && blank(prompt@) ==> {
            &&& after == m
            &&& replies.len() == 1
            &&& replies[0] matches ServerMsg::Rejected { reason } && reason@
                == "prompt cannot be empty"@
        },
        m.net.phase is DispatchReady && !blank(prompt@) ==> {
            &&& replies.len() == 0
            &&& after.net.prompt == prompt@
            &&& consent_withdrawn(m.net.seats, after.net.seats)
            &&& one_line_more(
                m.net.log,
                after.net.log,
                now,
                m.net.seats[seat].label + " edited the prompt"@,
            )
            &&& after.host == (HostModel {
                ctx: crate::session::ContextView { prompt: prompt@, ..m.host.ctx },
                calls: after.host.calls,
                ..m.host
            })
            &&& after.net == (NetModel {
                prompt: after.net.prompt,
                seats: after.net.seats,
                log: after.net.log,
                ..m.net
            })
            &&& after.cfg == m.cfg && after.plan_approved == m.plan_approved && after.join
                == m.join
        },
{
    crate::text_laws::trimming_drops_only_space(prompt@);
}

/// A draft is the session's prompt from then on, blank or not, and is not
/// logged; both seats have to consent anew. Once dispatched the prompt is
/// locked.
pub proof fn drafts_are_shared_as_typed(
    m: ServerModel,
    seat: int,
    operator: OperatorId,
    prompt: String,
    now: nat,
    replies: Seq<ServerMsg>,
    after: ServerModel,
)
    requires
        m.valid(),
        0 <= seat < 2,
        m.handled(seat, operator, ClientMsg::PromptDraft { prompt }, now, replies, after),
    ensures
        !(m.net.phase is DispatchReady) ==> {
            &&& after == m
            &&& replies.len() == 1
            &&& replies[0] matches ServerMsg::Rejected { reason } && reason@
                == "prompt is locked after dispatch"@
        },
        m.net.phase is DispatchReady ==> {
            &&& replies.len() == 0
            &&& after.net.prompt == prompt@
            &&& consent_withdrawn(m.net.seats, after.net.seats)
            &&& after.net == (NetModel {
                prompt: after.net.prompt,
                seats: after.net.seats,
                ..m.net
            })
            &&& host_untouched(m, after)
        },
{
}

/// A plan that a seat edits is the plan from then on, task by task, and both
/// seats have to consent anew. A list without a task, or with a blank one, is
/// refused, and so is every edit outside plan review.
#[verifier::rlimit(30)]
pub proof fn edited_plans_are_taken_whole(
    m: ServerModel,
    seat: int,
    operator: OperatorId,
    tasks: Vec<String>,
    now: nat,
    replies: Seq<ServerMsg>,
    after: ServerModel,
)
    requires
        m.valid(),
        0 <= seat < 2,
        m.handled(seat, operator, ClientMsg::EditPlan { tasks }, now, replies, after),
    ensures
        ({
            let filled = tasks@.len() > 0 && forall|i: int|
                0 <= i < tasks@.len() ==> !blank(#[trigger] tasks@[i]@);
            &&& !(m.net.phase is PlanReview) ==> {
                &&& after == m
                &&& replies.len() == 1
                &&& replies[0] matches ServerMsg::Rejected { reason } && reason@
                    == "plan is locked"@
            }
            &&& m.net.phase is PlanReview && !filled ==> {
                &&& after == m
                &&& replies.len() == 1
                &&& replies[0] matches ServerMsg::Rejected { reason } && reason@
                    == "plan tasks cannot be empty"@
            }
            &&& m.net.phase is PlanReview && filled ==> {
                &&& replies.len() == 0
                &&& after.net.agent_plan == Some(texts(tasks@))
                &&& after.wire.phase matches WirePhase::PlanReview { tasks: shown } && texts(shown@)
                    == texts(tasks@)
                &&& consent_withdrawn(m.net.seats, after.net.seats)
                &&& one_line_more(
                    m.net.log,
                    after.net.log,
                    now,
                    m.net.seats[seat].label + " edited the plan ("@ + decimal_spec(tasks@.len())
                        + " tasks)"@,
                )
                &&& after.net == (NetModel {
                    agent_plan: after.net.agent_plan,
                    seats: after.net.seats,
                    log: after.net.log,
                    ..m.net
                })
                &&& host_untouched(m, after)
            }
        }),
{
    assert forall|i: int| 0 <= i < tasks@.len() implies blank(#[trigger] tasks@[i]@) == (trimmed(
        texts(tasks@)[i],
    ).len() == 0) by {
        crate::text_laws::trimming_drops_only_space(tasks@[i]@);
    }
    let filled = tasks@.len() > 0 && forall|i: int|
        0 <= i < tasks@.len() ==> !blank(#[trigger] tasks@[i]@);
    if crate::server::model::plan_is_filled(texts(tasks@)) {
        assert forall|i: int| 0 <= i < tasks@.len() implies !blank(#[trigger] tasks@[i]@) by {
            assert(trimmed(texts(tasks@)[i]).len() > 0);
        }
    }
}

/// A steer withdraws the agent's plan, answers its proposal with the steer's
/// words and reports them; both seats have to consent anew. A blank one is
/// refused, and so is every steer outside plan review.
pub proof fn steers_answer_the_proposal(
    m: ServerModel,
    seat: int,
    operator: OperatorId,
    steer: String,
    now: nat,
    replies: Seq<ServerMsg>,
    after: ServerModel,
)
    requires
        m.valid(),
        0 <= seat < 2,
        m.handled(seat, operator, ClientMsg::SteerPlan { steer }, now, replies, after),
    ensures
        !(m.net.phase is PlanReview) ==> {
            &&& after == m
            &&& replies.len() == 1
            &&& replies[0] matches ServerMsg::Rejected { reason } && reason@ == "plan is locked"@
        },
        m.net.phase is PlanReview && blank(steer@) ==> {
            &&& after == m
            &&& replies.len() == 1
            &&& replies[0] matches ServerMsg::Rejected { reason } && reason@
                == "steer cannot be empty"@
        },
        m.net.phase is PlanReview && !blank(steer@) ==> {
            let last = m.host.plan_decisions.len() - 1;
            &&& replies.len() == 0
            &&& after.net.agent_plan is None
            &&& consent_withdrawn(m.net.seats, after.net.seats)
            &&& one_line_more(
                m.net.log,
                after.net.log,
                now,
                m.net.seats[seat].label + " steered a replan"@,
            )
            &&& after.net == (NetModel {
                agent_plan: after.net.agent_plan,
                seats: after.net.seats,
                log: after.net.log,
                ..m.net
            })
            &&& m.host.abandoned ==> host_untouched(m, after)
            &&& !m.host.abandoned ==> {
                &&& after.host.plan_decisions.len() == m.host.plan_decisions.len()
                &&& after.host.plan_decisions[last] matches PlanDecision::Steered(words) && words@
                    == steer@
                &&& forall|k: int|
                    0 <= k < last ==> #[trigger] after.host.plan_decisions[k]
                        == m.host.plan_decisions[k]
                &&& after.host.events.len() == m.host.events.len() + 1
                &&& after.host.events.drop_last() == m.host.events
                &&& after.host.events.last() == (HostEvent::PlanSteered { steer }@)
                &&& after.host == (HostModel {
                    plan_decisions: after.host.plan_decisions,
                    events: after.host.events,
                    calls: after.host.calls,
                    ..m.host
                })
            }
            &&& after.cfg == m.cfg && after.plan_approved == m.plan_approved && after.join
                == m.join
        },
{
    crate::text_laws::trimming_drops_only_space(steer@);
}

// ---------------------------------------------------------------------------
// From the agent's proposal to its approval
// ---------------------------------------------------------------------------
/// What the agent proposes is what plan review shows both stations: the very
/// list, task by task.
pub proof fn proposals_are_shown_whole(
    m: ServerModel,
    agent: String,
    tasks: Vec<String>,
    now: nat,
    after: ServerModel,
)
    requires
        m.event_taken(HostEvent::PlanProposed { agent, tasks }@, now, after),
    ensures
        after.net.agent_plan == Some(texts(tasks@)),
        after.effective_plan() == texts(tasks@),
        m.net.phase is PlanReview ==> (after.wire.phase matches WirePhase::PlanReview { tasks: shown }
            && texts(shown@) == texts(tasks@)),
        after.host.plan == m.host.plan,
        after.host.plan_decisions == m.host.plan_decisions,
{
}

/// A proposal reaches the stations: once the events of the host are taken in,
/// the latest proposal is the plan that counts.
pub proof fn proposals_reach_the_stations(
    m: ServerModel,
    agent: Seq<char>,
    tasks: Seq<Seq<char>>,
    host: HostModel,
    ticket: usize,
    now: nat,
    after: ServerModel,
)
    requires
        m.host.plan_proposed(agent, tasks, host, Ok(ticket)),
        (ServerModel { host, ..m }).pumped(now, after),
    ensures
        host.plan == Some(tasks),
        after.net.agent_plan == Some(tasks),
        after.effective_plan() == tasks,
        after.net.phase is PlanReview ==> (after.wire.phase matches WirePhase::PlanReview {
            tasks: shown,
        } && texts(shown@) == tasks),
        host.plan_decisions.len() == m.host.plan_decisions.len() + 1,
        host.plan_decisions[ticket as int] is Pending,
{
    let drained = ServerModel { host: HostModel { events: seq![], ..host }, ..m };
    let events = host.events;
    assert(events.last() == (EventView::PlanProposed { agent, tasks }));
    let last = choose|last: ServerModel|
        drained.takes_in(events.drop_last(), now, last) && #[trigger] last.event_taken(
            events.last(),
            now,
            after,
        );
}

/// Where nobody edits or steers, what both seats approve is what the agent
/// proposed: after the proposal and both seats' consent the session executes the
/// very list, and the proposal is approved.
pub proof fn untouched_proposals_are_approved_whole(
    m: ServerModel,
    agent: String,
    tasks: Vec<String>,
    first: int,
    operators: (OperatorId, OperatorId),
    times: (nat, nat, nat),
    replies: (Seq<ServerMsg>, Seq<ServerMsg>),
    proposed: ServerModel,
    one: ServerModel,
    both: ServerModel,
)
    requires
        m.valid(),
        m.net.phase is PlanReview,
        !m.net.agent_done,
        !m.host.abandoned,
        tasks@.len() > 0,
        0 <= first < 2,
        m.event_taken(HostEvent::PlanProposed { agent, tasks }@, times.0, proposed),
        proposed.handled(first, operators.0, ClientMsg::Ready, times.1, replies.0, one),
        one.handled(1 - first, operators.1, ClientMsg::Ready, times.2, replies.1, both),
    ensures
        both.net.phase is Executing,
        both.plan_approved,
        both.host.plan == Some(texts(tasks@)),
        both.host.plan_decisions.last() is Approved,
        both.host.plan_decisions.len() == m.host.plan_decisions.len(),
{
}

// ---------------------------------------------------------------------------
// The merge commit
// ---------------------------------------------------------------------------
/// The merge commit names the instruction by its first line, each seat with that
/// seat's own key, and the head of the audit chain, each in a line of its own;
/// where the keys' fingerprints differ, so do the two seats' lines. `n` is where
/// the first line of the prompt ends.
pub proof fn merge_commits_name_both_seats(m: ServerModel, after: ServerModel, now: nat, n: int)
    requires
        m.refreshed(after, now),
        !(m.net.phase is Closed),
        after.net.phase is Closed,
        0 <= n <= m.net.prompt.len(),
        n < m.net.prompt.len() ==> m.net.prompt[n] == '\n',
        forall|j: int| 0 <= j < n ==> m.net.prompt[j] != '\n',
    ensures
        after.host.calls.last() is Merge,
        ({
            let seats = m.net.seats;
            let title = if 0 < n < m.net.prompt.len() && m.net.prompt[n - 1] == '\r' {
                m.net.prompt.take(n - 1)
            } else {
                m.net.prompt.take(n)
            };
            let one = crate::text::hex_spec(seats[0].operator.0@.take(8));
            let two = crate::text::hex_spec(seats[1].operator.0@.take(8));
            &&& after.host.calls.last()->Merge_message == "kontur session: "@ + title
                + "\n\nReviewed-by: "@ + seats[0].label + " "@ + one + "\nReviewed-by: "@
                + seats[1].label + " "@ + two + "\nAudit-chain: sha256:"@ + crate::text::hex_spec(
                crate::audit::chain::head_of(m.host.chain),
            )
            &&& seats[0].operator.0@.take(8) != seats[1].operator.0@.take(8) ==> one != two
        }),
{
    let prompt = m.net.prompt;
    if prompt.len() > 0 {
        crate::text_laws::first_line_stands_first(prompt, n);
        assert(prompt.take(prompt.len() as int) =~= prompt);
    } else {
        assert(prompt.take(n) =~= prompt);
    }
    crate::text_laws::hex_text_fixes_the_bytes(
        m.net.seats[0].operator.0@.take(8),
        m.net.seats[1].operator.0@.take(8),
    );
}

/// A seat's choice is passed on as it was made: the option of that number, or the
/// seat's own words.
pub proof fn choices_are_passed_on(i: usize, words: String)
    ensures
        crate::server::model::choice_of(crate::protocol::WireChoice::Option(i))
            == crate::clarify::Choice::Option(i),
        crate::server::model::choice_of(crate::protocol::WireChoice::Custom(words))
            == crate::clarify::Choice::Custom(words),
{
}

/// A session is configured with its prompt, its plan task by task, and the label
/// and key of each seat.
pub proof fn configurations_are_taken_whole(cfg: crate::server::session::SessionConfig)
    ensures
        cfg@.prompt == cfg.prompt@,
        cfg@.plan == texts(cfg.plan@),
        cfg@.seats.len() == 2,
        forall|i: int|
            0 <= i < 2 ==> (#[trigger] cfg@.seats[i]).0 == cfg.seats@[i].0@ && cfg@.seats[i].1
                == cfg.seats@[i].1,
{
}

// ---------------------------------------------------------------------------
// Taking events in
// ---------------------------------------------------------------------------
/// Every event of the host is taken in, for the session's own agent, and both
/// stations are shown what came of it; that the session was abandoned was shown
/// before.
pub proof fn events_are_taken_in(m: ServerModel, ev: HostEvent, now: nat, after: ServerModel)
    requires
        m.event_taken(ev@, now, after),
        unfinished(m.with_net(m.net.after_event(m.host.ctx.agent_id, ev@, now))),
    ensures
        ev is SessionAbandoned ==> after == m,
        !(ev is SessionAbandoned) ==> {
            &&& after.net == m.net.after_event(m.host.ctx.agent_id, ev@, now)
            &&& host_untouched(m, after)
        },
{
}

/// Events are taken in one by one, the oldest first, and none is left out.
pub proof fn events_are_taken_in_order(
    m: ServerModel,
    events: Seq<EventView>,
    now: nat,
    after: ServerModel,
) -> (next: ServerModel)
    requires
        m.takes_in(events, now, after),
        events.len() > 0,
    ensures
        m.event_taken(events[0], now, next),
        next.takes_in(events.skip(1), now, after),
    decreases events.len(),
{
    let last = choose|last: ServerModel|
        m.takes_in(events.drop_last(), now, last) && #[trigger] last.event_taken(
            events.last(),
            now,
            after,
        );
    if events.len() == 1 {
        assert(events.skip(1) =~= seq![]);
        after
    } else {
        let next = events_are_taken_in_order(m, events.drop_last(), now, last);
        let rest = events.skip(1);
        assert(events.drop_last().skip(1) =~= rest.drop_last());
        assert(rest.last() == events.last());
        taking_in_goes_on(next, rest.drop_last(), now, last, rest.last(), after);
        assert(rest.drop_last().push(rest.last()) =~= rest);
        next
    }
}

proof fn taking_in_keeps_the_hosts_events(
    m: ServerModel,
    events: Seq<EventView>,
    now: nat,
    after: ServerModel,
)
    requires
        m.takes_in(events, now, after),
    ensures
        after.host.events == m.host.events,
    decreases events.len(),
{
    if events.len() > 0 {
        let last = choose|last: ServerModel|
            m.takes_in(events.drop_last(), now, last) && #[trigger] last.event_taken(
                events.last(),
                now,
                after,
            );
        taking_in_keeps_the_hosts_events(m, events.drop_last(), now, last);
        if !(events.last() is SessionAbandoned) {
            refresh_only_shows(
                last.with_net(last.net.after_event(last.host.ctx.agent_id, events.last(), now)),
                after,
                now,
            );
        }
    }
}

/// What happened on the host is taken in once: every event in turn from the
/// oldest, and then the host has none left to hand over.
pub proof fn pumping_takes_every_event_once(m: ServerModel, now: nat, after: ServerModel)
    requires
        m.pumped(now, after),
    ensures
        after.host.events.len() == 0,
        (ServerModel { host: HostModel { events: seq![], ..m.host }, ..m }).takes_in(
            m.host.events,
            now,
            after,
        ),
{
    let drained = ServerModel { host: HostModel { events: seq![], ..m.host }, ..m };
    taking_in_keeps_the_hosts_events(drained, m.host.events, now, after);
}

} // verus!

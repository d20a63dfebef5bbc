//! What each step of a session brings about.
use vstd::prelude::*;

use crate::audit::chain::{go_signers, head_of, AuditEntry};
use crate::canonical::sha256_digest;
use crate::eligibility::count_outside;
use crate::error::{CastRejected, GateHostError};
use crate::gatehost::laws::{starting_from_bounds, starting_from_shrinks, walk_ends};
use crate::gatehost::model::{
    accounted_for, block_all, entry_of_gate, follow, gate_index, gate_index_bounds, gate_name,
    gate_names_are_numbered, gate_number, kept_gates, live_id, makers_of, pending_of,
    pending_tasks, publish, records_gate, signers, stale_gates, successor, tickets_of, AskedView,
    ClarifyDecision, EventView, GateModel, GateProgress, GateView, HostEvent, HostModel,
    SplitDecision, SplitStream, SplitView,
};
use crate::hold::{verdicts_decide, HoldState};
use crate::ids::{GateId, OperatorId};
use crate::listing::{filter_picks, picked_at};
use crate::policy::{Authorship, Independence};
use crate::text::{decimal_spec, texts, zero_padded};
use crate::verdict::CastVerdict;
use crate::workspace::{CommandOutput, FrozenDiff, WorkspaceCall};

verus! {

// ---------------------------------------------------------------------------
// An agent's work
// ---------------------------------------------------------------------------
/// An agent's write is made in its task, at its path and with its bytes, after
/// the task was handed to the agent; it is reported with its size where it was
/// made, and nothing else changes.
pub proof fn writes_are_made_and_reported(
    h: HostModel,
    agent: Seq<char>,
    task: Seq<char>,
    path: Seq<char>,
    contents: Seq<u8>,
    after: HostModel,
    r: Result<(), GateHostError>,
)
    requires
        h.write_made(agent, task, path, contents, after, r),
    ensures
        after.calls.len() == h.calls.len() + 2,
        after.calls.take(h.calls.len() as int) == h.calls,
        after.calls[h.calls.len() as int] == (WorkspaceCall::Assign { task, agent }),
        after.calls.last() matches WorkspaceCall::Write { task: t, path: p, contents: c, result }
            && t == task && p == path && c == contents && (result is Ok <==> r is Ok) && (
        result matches Err(e) ==> r == Err::<(), GateHostError>(GateHostError::Workspace(e))),
        r is Err ==> after.events == h.events,
        r is Ok ==> after.events.len() == h.events.len() + 1 && after.events.drop_last() == h.events
            && after.events.last() == (EventView::Write {
            agent,
            task,
            path,
            bytes: contents.len(),
        }),
        after == (HostModel { calls: after.calls, events: after.events, ..h }),
{
    assert(after.calls.take(h.calls.len() as int) =~= h.calls);
    if r is Ok {
        assert(after.events.drop_last() =~= h.events);
    }
}

/// An agent's command is run in its task and its directory, after the task was
/// handed to the agent; the agent gets what came of it, it is reported with how
/// it ended, and nothing else changes.
pub proof fn commands_are_run_and_reported(
    h: HostModel,
    agent: Seq<char>,
    task: Seq<char>,
    command: Seq<char>,
    cwd: Seq<char>,
    after: HostModel,
    r: Result<CommandOutput, GateHostError>,
)
    requires
        h.command_made(agent, task, command, cwd, after, r),
    ensures
        after.calls.len() == h.calls.len() + 2,
        after.calls.take(h.calls.len() as int) == h.calls,
        after.calls[h.calls.len() as int] == (WorkspaceCall::Assign { task, agent }),
        after.calls.last() matches WorkspaceCall::Command { task: t, command: c, cwd: d, result }
            && t == task && c == command && d == cwd && (result matches Ok(out) ==> r == Ok::<
            CommandOutput,
            GateHostError,
        >(out)) && (result matches Err(e) ==> r == Err::<CommandOutput, GateHostError>(
            GateHostError::Workspace(e),
        )),
        r is Err ==> after.events == h.events,
        r matches Ok(out) ==> after.events.len() == h.events.len() + 1 && after.events.drop_last()
            == h.events && after.events.last() == (EventView::Command {
            agent,
            task,
            command,
            exit_code: out.exit_code,
        }),
        after == (HostModel { calls: after.calls, events: after.events, ..h }),
{
    assert(after.calls.take(h.calls.len() as int) =~= h.calls);
    if r is Ok {
        assert(after.events.drop_last() =~= h.events);
    }
}

/// A plan, questions or a split that an agent puts before the operators is kept
/// and reported as it was put, and decided by nobody yet; an abandoned session
/// takes none.
pub proof fn plans_wait_for_a_decision(
    h: HostModel,
    agent: Seq<char>,
    tasks: Seq<Seq<char>>,
    after: HostModel,
    r: Result<usize, GateHostError>,
)
    requires
        h.plan_proposed(agent, tasks, after, r),
    ensures
        h.abandoned ==> after == h && r == Err::<usize, GateHostError>(
            GateHostError::SessionAbandoned,
        ),
        !h.abandoned ==> {
            &&& r matches Ok(ticket) && ticket == h.plan_decisions.len()
            &&& after.plan == Some(tasks)
            &&& after.plan_decisions.len() == h.plan_decisions.len() + 1
            &&& after.plan_decisions.last() is Pending
            &&& after.plan_decisions.drop_last() == h.plan_decisions
            &&& after.events.len() == h.events.len() + 1
            &&& after.events.last() == (EventView::PlanProposed { agent, tasks })
            &&& after.events.drop_last() == h.events
            &&& after == (HostModel {
                plan: after.plan,
                plan_decisions: after.plan_decisions,
                events: after.events,
                ..h
            })
        },
{
    if !h.abandoned {
        assert(after.events.drop_last() =~= h.events);
        assert(after.plan_decisions.drop_last() =~= h.plan_decisions);
    }
}

/// Questions wait for their answers as they were asked.
pub proof fn questions_wait_for_answers(
    h: HostModel,
    agent: Seq<char>,
    questions: Seq<AskedView>,
    after: HostModel,
    r: Result<usize, GateHostError>,
)
    requires
        h.questions_asked(agent, questions, after, r),
    ensures
        h.abandoned ==> after == h && r == Err::<usize, GateHostError>(
            GateHostError::SessionAbandoned,
        ),
        !h.abandoned ==> {
            &&& r matches Ok(ticket) && ticket == h.clarify_decisions.len()
            &&& after.questions == Some(questions)
            &&& after.clarify_decisions.len() == h.clarify_decisions.len() + 1
            &&& after.clarify_decisions.last() is None
            &&& after.clarify_decisions.drop_last() == h.clarify_decisions
            &&& after.events.len() == h.events.len() + 1
            &&& after.events.last() == (EventView::QuestionsAsked { agent, questions })
            &&& after.events.drop_last() == h.events
            &&& after == (HostModel {
                questions: after.questions,
                clarify_decisions: after.clarify_decisions,
                events: after.events,
                ..h
            })
        },
{
    if !h.abandoned {
        assert(after.events.drop_last() =~= h.events);
        assert(after.clarify_decisions.drop_last() =~= h.clarify_decisions);
    }
}

/// A split waits for a decision as it was proposed.
pub proof fn splits_wait_for_a_decision(
    h: HostModel,
    streams: Seq<SplitStream>,
    after: HostModel,
    r: Result<usize, GateHostError>,
)
    requires
        h.split_proposed(streams, after, r),
    ensures
        h.abandoned ==> after == h && r == Err::<usize, GateHostError>(
            GateHostError::SessionAbandoned,
        ),
        !h.abandoned ==> {
            &&& r matches Ok(ticket) && ticket == h.split_decisions.len()
            &&& after.streams == Some(streams)
            &&& after.split_decisions.len() == h.split_decisions.len() + 1
            &&& after.split_decisions.last() is Pending
            &&& after.split_decisions.drop_last() == h.split_decisions
            &&& after == (HostModel {
                streams: after.streams,
                split_decisions: after.split_decisions,
                ..h
            })
        },
{
    if !h.abandoned {
        assert(after.split_decisions.drop_last() =~= h.split_decisions);
    }
}

// ---------------------------------------------------------------------------
// Gates
// ---------------------------------------------------------------------------
/// Gates are named by their number, in three digits at least, and no two alike.
pub proof fn gates_are_named_apart(n: nat, m: nat)
    ensures
        gate_name(n) == "gate-"@ + zero_padded(decimal_spec(n), 3),
        gate_name(n) == gate_name(m) ==> n == m,
{
    gate_names_are_numbered(n);
    gate_names_are_numbered(m);
}

/// A finished task is put before the operators as it was frozen: a new gate, of
/// the next number, over the digest of the very bytes, under the session's policy
/// and with nobody's key, which records the instruction, its author, the agent
/// that did it, the files, the lines and the tokens. The task was handed to the
/// agent first, and the new gate is reported.
pub proof fn finished_tasks_open_a_gate(
    h: HostModel,
    agent: Seq<char>,
    task: Seq<char>,
    tokens: nat,
    after: HostModel,
    opened: (GateId, usize),
)
    requires
        h.gate_begun(agent, task, tokens, after, Ok(opened)),
    ensures
        !h.abandoned,
        after.calls.len() == h.calls.len() + 2,
        after.calls.take(h.calls.len() as int) == h.calls,
        after.calls[h.calls.len() as int] == (WorkspaceCall::Assign { task, agent }),
        after.calls.last() matches WorkspaceCall::Freeze { task: t, result: Ok(frozen) } && {
            let gate = after.gates.last();
            let digest = sha256_digest(frozen.bytes@);
            &&& t == task
            &&& opened.0@ == gate.hold.gate_id
            &&& opened.1 == gate.watch
            &&& gate.hold.gate_id == gate_name(h.next_gate + 1)
            &&& gate.hold.task_id == task
            &&& gate.hold.diff_hash == digest
            &&& gate.hold.policy == h.ctx.policy
            &&& gate.hold.authorship == Authorship::Agent
            &&& gate.hold.makers == Set::<OperatorId>::empty()
            &&& gate.hold.verdicts.len() == 0
            &&& gate.hold.state is Open
            &&& !gate.hold.contested
            &&& gate.provenance.task_id == task
            &&& gate.provenance.prompt == h.ctx.prompt
            &&& gate.provenance.prompt_author == h.ctx.prompt_author
            &&& gate.provenance.agent_id == agent
            &&& gate.provenance.agent_model == h.ctx.agent_model
            &&& gate.provenance.agent_version == h.ctx.agent_version
            &&& gate.provenance.diff_hash == digest
            &&& gate.provenance.files == texts(frozen.files@)
            &&& gate.provenance.loc == frozen.loc
            &&& gate.provenance.tokens == tokens
            &&& gate.watch == h.watches.len()
            &&& gate.carried.len() == 0
            &&& !gate.escalation_required
        },
        after.gates.len() == h.gates.len() + 1,
        after.gates.drop_last() == h.gates,
        after.watches.len() == h.watches.len() + 1,
        after.watches.last() is Open,
        after.watches.drop_last() == h.watches,
        after.next_gate == h.next_gate + 1,
        after.events.len() == h.events.len() + 1,
        after.events.drop_last() == h.events,
        after.events.last() == (EventView::GateOpened { agent, gate_id: opened.0@, task }),
        after == (HostModel {
            gates: after.gates,
            watches: after.watches,
            next_gate: after.next_gate,
            events: after.events,
            calls: after.calls,
            ..h
        }),
{
    assert(after.calls.take(h.calls.len() as int) =~= h.calls);
    assert(after.gates.drop_last() =~= h.gates);
    assert(after.watches.drop_last() =~= h.watches);
    assert(after.events.drop_last() =~= h.events);
}

/// A task that could not be frozen, or comes after an abandon, opens no gate.
pub proof fn failed_freezes_open_no_gate(
    h: HostModel,
    agent: Seq<char>,
    task: Seq<char>,
    tokens: nat,
    after: HostModel,
    e: GateHostError,
)
    requires
        h.gate_begun(agent, task, tokens, after, Err(e)),
    ensures
        after == (HostModel { calls: after.calls, ..h }),
        after.calls.last() matches WorkspaceCall::Freeze { task: t, result } && t == task && (
        result matches Err(failed) ==> e == GateHostError::Workspace(failed)) && (result is Ok
            ==> h.abandoned && e is SessionAbandoned),
{
}

/// The operator face shows a gate as it is.
pub proof fn gates_are_shown_as_they_are(gate: GateModel, v: GateView)
    requires
        gate.shown_as(v),
    ensures
        v.gate_id@ == gate.hold.gate_id,
        v.task_id@ == gate.hold.task_id,
        v.diff_hash.0@ == gate.hold.diff_hash,
        v.state == gate.hold.state,
        v.escalation_required == gate.escalation_required,
        texts(v.files@) == gate.provenance.files,
        v.loc == gate.provenance.loc,
        v.agent@ == gate.provenance.agent_id,
        v.observed@.len() == gate.hold.verdicts.len(),
        forall|k: int|
            0 <= k < v.observed@.len() ==> (#[trigger] v.observed@[k]).operator
                == gate.hold.verdicts[k].operator,
{
}

// ---------------------------------------------------------------------------
// Hand-edits
// ---------------------------------------------------------------------------
/// This gate gives way to a hand-edit of the task: it is over the task and not
/// resolved.
pub open spec fn gives_way(gate: GateModel, task: Seq<char>) -> bool {
    gate.hold.task_id == task && gate.hold.state != HoldState::Satisfied && gate.hold.state
        != HoldState::Blocked
}

pub open spec fn giving_way(task: Seq<char>) -> spec_fn(GateModel) -> bool {
    |gate: GateModel| gives_way(gate, task)
}

pub open spec fn staying(task: Seq<char>) -> spec_fn(GateModel) -> bool {
    |gate: GateModel| !gives_way(gate, task)
}

/// This ticket is a gate's own or one that it took over.
pub open spec fn answers_for(gate: GateModel, ticket: nat) -> bool {
    gate.watch == ticket || exists|k: int|
        0 <= k < gate.carried.len() && #[trigger] gate.carried[k] == ticket
}

/// Exactly the unresolved gates of the edited task give way, and every other
/// stays where it was in the order.
pub proof fn edited_tasks_gates_give_way(gates: Seq<GateModel>, task: Seq<char>)
    ensures
        exists|places: Seq<int>| #[trigger]
            picked_at(gates, giving_way(task), stale_gates(gates, task), places),
        exists|places: Seq<int>| #[trigger]
            picked_at(gates, staying(task), kept_gates(gates, task), places),
{
    let gone = filter_picks(gates, |g: GateModel| g.stale_for(task));
    let kept = filter_picks(gates, |g: GateModel| !g.stale_for(task));
    assert(picked_at(gates, giving_way(task), stale_gates(gates, task), gone));
    assert(picked_at(gates, staying(task), kept_gates(gates, task), kept)) by {
        assert forall|k: int| 0 <= k < gates.len() && staying(task)(#[trigger] gates[k]) implies
            kept.contains(k) by {}
    }
}

proof fn makers_are_listed(gates: Seq<GateModel>, op: OperatorId)
    ensures
        makers_of(gates).contains(op) <==> exists|i: int|
            0 <= i < gates.len() && (#[trigger] gates[i]).hold.makers.contains(op),
    decreases gates.len(),
{
    if gates.len() > 0 {
        makers_are_listed(gates.drop_last(), op);
        if gates.last().hold.makers.contains(op) {
            assert(gates[gates.len() - 1].hold.makers.contains(op));
        }
        if exists|i: int|
            0 <= i < gates.drop_last().len() && (#[trigger] gates.drop_last()[i]).hold.makers.contains(
                op,
            ) {
            let i = choose|i: int|
                0 <= i < gates.drop_last().len() && (#[trigger] gates.drop_last()[i]).hold.makers.contains(
                    op,
                );
            assert(gates[i].hold.makers.contains(op));
        }
        if exists|i: int| 0 <= i < gates.len() && (#[trigger] gates[i]).hold.makers.contains(op) {
            let i = choose|i: int|
                0 <= i < gates.len() && (#[trigger] gates[i]).hold.makers.contains(op);
            if i < gates.len() - 1 {
                assert(gates.drop_last()[i].hold.makers.contains(op));
            }
        }
    }
}

/// The makers of a hand-edited change are its editor and, where a maker may not
/// cast, whoever made the change that gave way; nobody else.
pub proof fn editors_are_makers(
    h: HostModel,
    task: Seq<char>,
    editor: OperatorId,
    op: OperatorId,
)
    ensures
        h.ctx.policy.independence is Pragmatic ==> (h.edit_makers(task, editor).contains(op) <==> op
            == editor),
        h.ctx.policy.independence is Strict ==> (h.edit_makers(task, editor).contains(op) <==> (op
            == editor || exists|i: int|
            0 <= i < h.gates.len() && gives_way(#[trigger] h.gates[i], task)
                && h.gates[i].hold.makers.contains(op))),
{
    let gone = stale_gates(h.gates, task);
    let places = filter_picks(h.gates, |g: GateModel| g.stale_for(task));
    makers_are_listed(gone, op);
    if exists|i: int|
        0 <= i < h.gates.len() && gives_way(#[trigger] h.gates[i], task)
            && h.gates[i].hold.makers.contains(op) {
        let i = choose|i: int|
            0 <= i < h.gates.len() && gives_way(#[trigger] h.gates[i], task)
                && h.gates[i].hold.makers.contains(op);
        assert(places.contains(i));
        let k = choose|k: int| 0 <= k < places.len() && places[k] == i;
        assert(gone[k].hold.makers.contains(op));
    }
    if exists|k: int| 0 <= k < gone.len() && (#[trigger] gone[k]).hold.makers.contains(op) {
        let k = choose|k: int| 0 <= k < gone.len() && (#[trigger] gone[k]).hold.makers.contains(op);
        let i = places[k];
        assert(gives_way(h.gates[i], task) && h.gates[i].hold.makers.contains(op));
    }
}

proof fn tickets_are_listed(gates: Seq<GateModel>, ticket: nat)
    ensures
        tickets_of(gates).contains(ticket) <==> exists|i: int|
            0 <= i < gates.len() && answers_for(#[trigger] gates[i], ticket),
    decreases gates.len(),
{
    let all = tickets_of(gates);
    if gates.len() > 0 {
        let shorter = gates.drop_last();
        let before = tickets_of(shorter);
        let last = gates.last();
        tickets_are_listed(shorter, ticket);
        if all.contains(ticket) {
            let k = choose|k: int| 0 <= k < all.len() && all[k] == ticket;
            if k < before.len() {
                assert(before[k] == ticket);
                let i = choose|i: int|
                    0 <= i < shorter.len() && answers_for(#[trigger] shorter[i], ticket);
                assert(answers_for(gates[i], ticket));
            } else if k == before.len() {
                assert(answers_for(gates[gates.len() - 1], ticket));
            } else {
                assert(last.carried[k - before.len() - 1] == ticket);
                assert(answers_for(gates[gates.len() - 1], ticket));
            }
        }
        if exists|i: int| 0 <= i < gates.len() && answers_for(#[trigger] gates[i], ticket) {
            let i = choose|i: int|
                0 <= i < gates.len() && answers_for(#[trigger] gates[i], ticket);
            if i < shorter.len() {
                assert(answers_for(shorter[i], ticket));
                let k = choose|k: int| 0 <= k < before.len() && before[k] == ticket;
                assert(all[k] == ticket);
            } else if last.watch == ticket {
                assert(all[before.len() as int] == ticket);
            } else {
                let k = choose|k: int|
                    0 <= k < last.carried.len() && #[trigger] last.carried[k] == ticket;
                assert(all[before.len() + 1 + k] == ticket);
            }
        }
    }
}

/// The fresh gate of a hand-edit answers for whoever waited for a gate that gave
/// way, for its own ticket, and for nobody else.
pub proof fn fresh_gates_take_over_tickets(
    h: HostModel,
    task: Seq<char>,
    frozen: FrozenDiff,
    editor: OperatorId,
    ticket: nat,
)
    ensures
        answers_for(h.edited_gate(task, frozen, editor), ticket) <==> (ticket == h.watches.len()
            || exists|i: int|
            0 <= i < h.gates.len() && gives_way(#[trigger] h.gates[i], task) && answers_for(
                h.gates[i],
                ticket,
            )),
{
    let gate = h.edited_gate(task, frozen, editor);
    let gone = stale_gates(h.gates, task);
    let places = filter_picks(h.gates, |g: GateModel| g.stale_for(task));
    tickets_are_listed(gone, ticket);
    if exists|i: int|
        0 <= i < h.gates.len() && gives_way(#[trigger] h.gates[i], task) && answers_for(
            h.gates[i],
            ticket,
        ) {
        let i = choose|i: int|
            0 <= i < h.gates.len() && gives_way(#[trigger] h.gates[i], task) && answers_for(
                h.gates[i],
                ticket,
            );
        assert(places.contains(i));
        let k = choose|k: int| 0 <= k < places.len() && places[k] == i;
        assert(answers_for(gone[k], ticket));
        let n = choose|n: int| 0 <= n < gate.carried.len() && gate.carried[n] == ticket;
        assert(gate.carried[n] == ticket);
    }
    if answers_for(gate, ticket) && ticket != h.watches.len() {
        let n = choose|n: int| 0 <= n < gate.carried.len() && #[trigger] gate.carried[n] == ticket;
        assert(tickets_of(gone).contains(ticket));
        let k = choose|k: int| 0 <= k < gone.len() && answers_for(#[trigger] gone[k], ticket);
        let i = places[k];
        assert(gives_way(h.gates[i], task) && answers_for(h.gates[i], ticket));
    }
}

/// A hand-edit writes first and freezes then; over what was frozen stands one
/// fresh gate, contested and with nobody's key, in place of the gates that gave
/// way. It is both the agent's work and the editor's; it is short of keys where
/// too few operators may cast. Each gate that gave way redirects to it, and all of
/// it is reported.
pub proof fn hand_edits_open_a_fresh_gate(
    h: HostModel,
    task: Seq<char>,
    path: Seq<char>,
    contents: Seq<u8>,
    editor: OperatorId,
    after: HostModel,
    opened: (GateId, usize),
)
    requires
        h.edit_made(task, path, contents, editor, after, Ok(opened)),
    ensures
        !h.abandoned,
        after.calls.last() matches WorkspaceCall::Freeze { task: t, result: Ok(frozen) } && {
            let gate = after.gates.last();
            let digest = sha256_digest(frozen.bytes@);
            let makers = gate.hold.makers;
            let pool = if h.ctx.policy.independence == Independence::Strict {
                count_outside(h.ctx.operators, makers)
            } else {
                h.ctx.operators.len()
            };
            let gone = stale_gates(h.gates, task);
            &&& t == task
            &&& opened.0@ == gate.hold.gate_id
            &&& opened.1 == gate.watch
            &&& gate.hold.gate_id == gate_name(h.next_gate + 1)
            &&& gate.hold.task_id == task
            &&& gate.hold.diff_hash == digest
            &&& gate.hold.policy == h.ctx.policy
            &&& gate.hold.authorship == Authorship::Both
            &&& gate.hold.verdicts.len() == 0
            &&& gate.hold.state is Open
            &&& gate.hold.contested
            &&& gate.hold.eligible_pool == pool
            &&& gate.escalation_required <==> pool < h.ctx.policy.required
            &&& makers == h.edit_makers(task, editor)
            &&& gate == h.edited_gate(task, frozen, editor)
            &&& gate.provenance.task_id == task
            &&& gate.provenance.prompt == h.ctx.prompt
            &&& gate.provenance.prompt_author == h.ctx.prompt_author
            &&& gate.provenance.agent_id == h.ctx.agent_id
            &&& gate.provenance.agent_model == h.ctx.agent_model
            &&& gate.provenance.agent_version == h.ctx.agent_version
            &&& gate.provenance.diff_hash == digest
            &&& gate.provenance.files == texts(frozen.files@)
            &&& gate.provenance.loc == frozen.loc
            &&& gate.provenance.tokens == 0
            &&& gate.watch == h.watches.len()
            &&& after.gates.drop_last() == kept_gates(h.gates, task)
            &&& after.superseded.len() == h.superseded.len() + gone.len()
            &&& forall|k: int|
                0 <= k < h.superseded.len() ==> #[trigger] after.superseded[k] == h.superseded[k]
            &&& forall|k: int|
                h.superseded.len() <= k < after.superseded.len() ==> (
                #[trigger] after.superseded[k]).0 == gone[k - h.superseded.len()].hold.gate_id
                    && after.superseded[k].1 == gate.hold.gate_id
            &&& after.events.len() == h.events.len() + gone.len() + 1
            &&& forall|k: int|
                0 <= k < h.events.len() ==> #[trigger] after.events[k] == h.events[k]
            &&& forall|k: int|
                h.events.len() <= k < after.events.len() - 1 ==> #[trigger] after.events[k] == (
                EventView::GateSuperseded {
                    old_gate_id: gone[k - h.events.len()].hold.gate_id,
                    new_gate_id: gate.hold.gate_id,
                })
            &&& after.events.last() == (EventView::GateOpened {
                agent: h.ctx.agent_id,
                gate_id: gate.hold.gate_id,
                task,
            })
        },
        after.watches.len() == h.watches.len() + 1,
        after.watches.last() is Open,
        after.watches.drop_last() == h.watches,
        after.next_gate == h.next_gate + 1,
        after == (HostModel {
            gates: after.gates,
            superseded: after.superseded,
            watches: after.watches,
            next_gate: after.next_gate,
            events: after.events,
            calls: after.calls,
            ..h
        }),
{
    assert(after.gates.drop_last() =~= kept_gates(h.gates, task));
    assert(after.watches.drop_last() =~= h.watches);
}

// ---------------------------------------------------------------------------
// Verdicts
// ---------------------------------------------------------------------------
/// A verdict is refused for cause: an abandoned session takes none, a gate must
/// be known, its operator on the roster, and what its hold refuses is refused.
pub proof fn verdicts_are_refused_for_cause(
    h: HostModel,
    gate_id: GateId,
    cv: CastVerdict,
    after: HostModel,
    e: GateHostError,
    i: int,
)
    requires
        h.verdict_given(gate_id, cv, after, Err(e)),
        !(e is Workspace),
        0 <= i <= h.gates.len(),
        forall|j: int| 0 <= j < i ==> (#[trigger] h.gates[j]).hold.gate_id != gate_id@,
        i < h.gates.len() ==> h.gates[i].hold.gate_id == gate_id@,
    ensures
        after == h,
        h.abandoned ==> e is SessionAbandoned,
        !h.abandoned && i == h.gates.len() ==> (e matches GateHostError::UnknownGate(words)
            && words@ == gate_id@),
        !h.abandoned && i < h.gates.len() && !h.ctx.operators.contains(cv.operator) ==> e
            == GateHostError::Cast(CastRejected::Ineligible),
        !h.abandoned && i < h.gates.len() && h.ctx.operators.contains(cv.operator) ==> {
            let refusal = h.gates[i].hold.refusal(h.gates[i].hold.version as u64, cv);
            refusal is Some && e == GateHostError::Cast(refusal->Some_0)
        },
{
    gate_index_bounds(h.gates, gate_id@);
    let k = gate_index(h.gates, gate_id@) as int;
    assert(k == i) by {
        if k < i {
            assert(h.gates[k].hold.gate_id == gate_id@);
        }
        if i < k {
            assert(h.gates[i].hold.gate_id != gate_id@);
        }
    }
}

/// A verdict that counts is added to its own gate, which then stands as its
/// verdicts decide, and no other gate changes. Whoever casts it learns where the
/// gate stands and, where it is blocked, the first dissenter's remedy.
pub proof fn counted_verdicts_are_added(
    h: HostModel,
    gate_id: GateId,
    cv: CastVerdict,
    after: HostModel,
    r: Result<GateProgress, GateHostError>,
    i: int,
)
    requires
        !h.abandoned,
        h.verdict_given(gate_id, cv, after, r),
        0 <= i < h.gates.len(),
        h.gates[i].hold.gate_id == gate_id@,
        forall|j: int| 0 <= j < i ==> (#[trigger] h.gates[j]).hold.gate_id != gate_id@,
        h.ctx.operators.contains(cv.operator),
        h.gates[i].hold.refusal(h.gates[i].hold.version as u64, cv) is None,
    ensures
        after.gates.len() == h.gates.len(),
        forall|j: int| 0 <= j < h.gates.len() && j != i ==> #[trigger] after.gates[j] == h.gates[j],
        after.gates[i].hold == h.gates[i].hold.after(cv),
        after.gates[i].hold.verdicts.len() == h.gates[i].hold.verdicts.len() + 1,
        after.gates[i].hold.verdicts.last() == cv,
        after.gates[i].provenance == h.gates[i].provenance,
        after.gates[i].watch == h.gates[i].watch,
        after.gates[i].carried == h.gates[i].carried,
        after.gates[i].escalation_required <==> h.gates[i].hold.eligible_pool
            < h.gates[i].hold.policy.required,
        r matches Ok(progress) ==> {
            &&& progress.state == after.gates[i].hold.state
            &&& progress.escalation_required == after.gates[i].escalation_required
            &&& progress.state is Blocked ==> progress.remedy == crate::hold::first_remedy(
                after.gates[i].hold.verdicts,
            )
            &&& !(progress.state is Blocked) ==> progress.remedy is None
        },
        after == (HostModel {
            gates: after.gates,
            chain: after.chain,
            watches: after.watches,
            events: after.events,
            calls: after.calls,
            ..h
        }),
{
    verdicts_decide(h.gates[i].hold, cv);
    gate_index_bounds(h.gates, gate_id@);
    let k = gate_index(h.gates, gate_id@) as int;
    assert(k == i) by {
        if k < i {
            assert(h.gates[k].hold.gate_id == gate_id@);
        }
        if i < k {
            assert(h.gates[i].hold.gate_id != gate_id@);
        }
    }
}

/// What a counted verdict sets off: nothing while keys are missing; with the last
/// go the task is accepted, and with a no-go that resolves it the task is
/// discarded, and either way its record is added to the audit chain, everyone who
/// waits learns where that gate stands, and it is reported. A task that could not
/// be accepted is neither recorded nor made known; one that could not be
/// discarded is recorded all the same.
pub proof fn resolved_gates_are_carried_out(
    h: HostModel,
    gate_id: GateId,
    cv: CastVerdict,
    after: HostModel,
    r: Result<GateProgress, GateHostError>,
    i: int,
)
    requires
        !h.abandoned,
        h.verdict_given(gate_id, cv, after, r),
        0 <= i < h.gates.len(),
        h.gates[i].hold.gate_id == gate_id@,
        forall|j: int| 0 <= j < i ==> (#[trigger] h.gates[j]).hold.gate_id != gate_id@,
        h.ctx.operators.contains(cv.operator),
        h.gates[i].hold.refusal(h.gates[i].hold.version as u64, cv) is None,
    ensures
        ({
            let gate = after.gates[i];
            let told = after.watches.len() == h.watches.len() && forall|w: int|
                0 <= w < h.watches.len() ==> #[trigger] after.watches[w] == if answers_for(
                    gate,
                    w as nat,
                ) {
                    gate.hold.state
                } else {
                    h.watches[w]
                };
            let reported = after.events.len() == h.events.len() + 1 && after.events.drop_last()
                == h.events && after.events.last() == (EventView::GateResolved {
                gate_id: gate.hold.gate_id,
                state: gate.hold.state,
            });
            let recorded = after.chain.len() == h.chain.len() + 1 && after.chain.drop_last()
                == h.chain && records_gate(
                after.chain.last(),
                head_of(h.chain),
                h.gates[i].provenance,
                gate.hold,
            );
            let unrecorded = after.chain == h.chain;
            let untold = after.watches == h.watches && after.events == h.events;
            &&& gate.hold.state is Open || gate.hold.state is Partial ==> unrecorded && told
                && after.events == h.events && after.calls == h.calls && r is Ok
            &&& gate.hold.state is Satisfied ==> {
                &&& after.calls.len() == h.calls.len() + 1
                &&& after.calls.drop_last() == h.calls
                &&& after.calls.last() matches WorkspaceCall::Accept { task, result } && task
                    == gate.hold.task_id && (result is Ok ==> recorded && told && reported && r
                    is Ok) && (result matches Err(e) ==> unrecorded && untold && r == Err::<
                    GateProgress,
                    GateHostError,
                >(GateHostError::Workspace(e)))
            }
            &&& gate.hold.state is Blocked ==> {
                &&& recorded
                &&& after.calls.len() == h.calls.len() + 1
                &&& after.calls.drop_last() == h.calls
                &&& after.calls.last() matches WorkspaceCall::Discard { task, result } && task
                    == gate.hold.task_id && (result is Ok ==> told && reported && r is Ok) && (
                result matches Err(e) ==> untold && r == Err::<GateProgress, GateHostError>(
                    GateHostError::Workspace(e),
                ))
            }
        }),
{
    gate_index_bounds(h.gates, gate_id@);
    let k = gate_index(h.gates, gate_id@) as int;
    assert(k == i) by {
        if k < i {
            assert(h.gates[k].hold.gate_id == gate_id@);
        }
        if i < k {
            assert(h.gates[i].hold.gate_id != gate_id@);
        }
    }
    let gate = after.gates[i];
    assert forall|w: int| 0 <= w < h.watches.len() implies #[trigger] publish(
        h.watches,
        gate,
        gate.hold.state,
    )[w] == if answers_for(gate, w as nat) {
        gate.hold.state
    } else {
        h.watches[w]
    } by {}
    if after.events != h.events {
        assert(after.events.drop_last() =~= h.events);
    }
    if after.chain != h.chain {
        assert(after.chain.drop_last() =~= h.chain);
    }
    if after.calls != h.calls {
        assert(after.calls.drop_last() =~= h.calls);
    }
}

// ---------------------------------------------------------------------------
// Abandoning
// ---------------------------------------------------------------------------
proof fn blocking_reaches_who_waits(watches: Seq<HoldState>, gates: Seq<GateModel>, w: int)
    requires
        0 <= w < watches.len(),
    ensures
        block_all(watches, gates).len() == watches.len(),
        (exists|i: int|
            0 <= i < gates.len() && (#[trigger] gates[i]).pending() && answers_for(
                gates[i],
                w as nat,
            )) ==> block_all(watches, gates)[w] is Blocked,
        !(exists|i: int|
            0 <= i < gates.len() && (#[trigger] gates[i]).pending() && answers_for(
                gates[i],
                w as nat,
            )) ==> block_all(watches, gates)[w] == watches[w],
    decreases gates.len(),
{
    if gates.len() > 0 {
        let shorter = gates.drop_last();
        blocking_reaches_who_waits(watches, shorter, w);
        let before = block_all(watches, shorter);
        if exists|i: int|
            0 <= i < gates.len() && (#[trigger] gates[i]).pending() && answers_for(
                gates[i],
                w as nat,
            ) {
            let i = choose|i: int|
                0 <= i < gates.len() && (#[trigger] gates[i]).pending() && answers_for(
                    gates[i],
                    w as nat,
                );
            if i < shorter.len() {
                assert(shorter[i].pending() && answers_for(shorter[i], w as nat));
            } else {
                assert(gates.last().speaks_for(w as nat));
            }
        } else {
            assert(!(exists|i: int|
                0 <= i < shorter.len() && (#[trigger] shorter[i]).pending() && answers_for(
                    shorter[i],
                    w as nat,
                ))) by {
                if exists|i: int|
                    0 <= i < shorter.len() && (#[trigger] shorter[i]).pending() && answers_for(
                        shorter[i],
                        w as nat,
                    ) {
                    let i = choose|i: int|
                        0 <= i < shorter.len() && (#[trigger] shorter[i]).pending() && answers_for(
                            shorter[i],
                            w as nat,
                        );
                    assert(gates[i].pending() && answers_for(gates[i], w as nat));
                }
            }
            if gates.last().pending() {
                assert(!answers_for(gates[gates.len() - 1], w as nat));
                assert(!gates.last().speaks_for(w as nat));
            }
        }
    }
}

/// An abandoned session discards the task of every gate that is not resolved, in
/// order, up to the first that fails, and tells whoever waits for one of them that
/// it is blocked; nobody else is told anything. It is reported once all are
/// discarded.
pub proof fn abandoning_discards_what_waits(
    h: HostModel,
    after: HostModel,
    r: Result<(), GateHostError>,
)
    requires
        h.abandon_made(after, r),
    ensures
        after.abandoned,
        ({
            let waiting = pending_of(h.gates);
            let made = after.calls.len() - h.calls.len();
            &&& 0 <= made <= waiting.len()
            &&& after.calls.take(h.calls.len() as int) == h.calls
            &&& forall|k: int|
                0 <= k < made ==> ((#[trigger] after.calls[h.calls.len() + k]) matches WorkspaceCall::Discard {
                    task,
                    result,
                } && task == waiting[k].hold.task_id && (k < made - 1 ==> result is Ok))
            &&& r is Ok ==> made == waiting.len()
            &&& r is Ok && made > 0 ==> after.calls.last()->Discard_result is Ok
            &&& r matches Err(e) ==> made > 0 && after.calls.last()->Discard_result is Err && e
                == GateHostError::Workspace(after.calls.last()->Discard_result->Err_0)
        }),
        after.watches.len() == h.watches.len(),
        forall|w: int|
            0 <= w < h.watches.len() ==> {
                let waited = exists|i: int|
                    0 <= i < h.gates.len() && h.gates[i].hold.state != HoldState::Satisfied
                        && h.gates[i].hold.state != HoldState::Blocked && answers_for(
                        #[trigger] h.gates[i],
                        w as nat,
                    );
                &&& waited ==> (#[trigger] after.watches[w]) is Blocked
                &&& !waited ==> after.watches[w] == h.watches[w]
            },
        r is Err ==> after.events == h.events,
        r is Ok ==> after.events.len() == h.events.len() + 1 && after.events.last()
            is SessionAbandoned && after.events.drop_last() == h.events,
        after == (HostModel {
            abandoned: true,
            watches: after.watches,
            events: after.events,
            calls: after.calls,
            ..h
        }),
{
    let waiting = pending_of(h.gates);
    assert forall|k: int| 0 <= k < waiting.len() implies #[trigger] pending_tasks(h.gates)[k]
        == waiting[k].hold.task_id by {}
    assert forall|w: int| 0 <= w < h.watches.len() implies {
        let waited = exists|i: int|
            0 <= i < h.gates.len() && h.gates[i].hold.state != HoldState::Satisfied
                && h.gates[i].hold.state != HoldState::Blocked && answers_for(
                #[trigger] h.gates[i],
                w as nat,
            );
        &&& waited ==> (#[trigger] after.watches[w]) is Blocked
        &&& !waited ==> after.watches[w] == h.watches[w]
    } by {
        blocking_reaches_who_waits(h.watches, h.gates, w);
        if exists|i: int|
            0 <= i < h.gates.len() && h.gates[i].hold.state != HoldState::Satisfied
                && h.gates[i].hold.state != HoldState::Blocked && answers_for(
                #[trigger] h.gates[i],
                w as nat,
            ) {
            let i = choose|i: int|
                0 <= i < h.gates.len() && h.gates[i].hold.state != HoldState::Satisfied
                    && h.gates[i].hold.state != HoldState::Blocked && answers_for(
                    #[trigger] h.gates[i],
                    w as nat,
                );
            assert(h.gates[i].pending());
        }
    }
    if h.watches.len() == 0 {
        blocking_keeps_the_number(h.watches, h.gates);
    } else {
        blocking_reaches_who_waits(h.watches, h.gates, 0);
    }
    if r is Ok {
        assert(after.events.drop_last() =~= h.events);
    }
}

proof fn blocking_keeps_the_number(watches: Seq<HoldState>, gates: Seq<GateModel>)
    ensures
        block_all(watches, gates).len() == watches.len(),
    decreases gates.len(),
{
    if gates.len() > 0 {
        blocking_keeps_the_number(watches, gates.drop_last());
    }
}

// ---------------------------------------------------------------------------
// Asking about a gate
// ---------------------------------------------------------------------------
/// Who signed a gate's record are the signers of the first entry that is the
/// gate's; a gate without an entry was signed by nobody.
pub proof fn signers_are_of_the_gates_record(chain: Seq<AuditEntry>, id: Seq<char>, k: int)
    requires
        0 <= k <= chain.len(),
        forall|j: int| 0 <= j < k ==> (#[trigger] chain[j]).gate() != id,
        k < chain.len() ==> chain[k].gate() == id,
    ensures
        k < chain.len() ==> entry_of_gate(chain, id) == Some(chain[k]) && signers(chain, id)
            == go_signers(chain[k]),
        k == chain.len() ==> entry_of_gate(chain, id) is None && signers(chain, id).len() == 0,
    decreases k,
{
    if k > 0 {
        let rest = chain.skip(1);
        assert(chain[0].gate() != id);
        assert forall|j: int| 0 <= j < k - 1 implies (#[trigger] rest[j]).gate() != id by {
            assert(rest[j] == chain[j + 1]);
        }
        signers_are_of_the_gates_record(rest, id, k - 1);
    }
}

/// A redirect leads to where its first entry points.
pub proof fn redirects_are_found(
    superseded: Seq<(Seq<char>, Seq<char>)>,
    id: Seq<char>,
    k: int,
)
    requires
        0 <= k <= superseded.len(),
        forall|j: int| 0 <= j < k ==> (#[trigger] superseded[j]).0 != id,
        k < superseded.len() ==> superseded[k].0 == id,
    ensures
        k < superseded.len() ==> successor(superseded, id) == Some(superseded[k].1),
        k == superseded.len() ==> successor(superseded, id) is None,
    decreases k,
{
    if k > 0 {
        let rest = superseded.skip(1);
        assert(superseded[0].0 != id);
        assert forall|j: int| 0 <= j < k - 1 implies (#[trigger] rest[j]).0 != id by {
            assert(rest[j] == superseded[j + 1]);
        }
        redirects_are_found(rest, id, k - 1);
    }
}

proof fn ended_walks_stay(superseded: Seq<(Seq<char>, Seq<char>)>, id: Seq<char>, steps: nat)
    requires
        successor(superseded, follow(superseded, id, steps)) is None,
    ensures
        follow(superseded, id, steps + 1) == follow(superseded, id, steps),
    decreases steps,
{
    reveal_with_fuel(follow, 2);
    if steps > 0 {
        if let Some(next) = successor(superseded, id) {
            ended_walks_stay(superseded, next, (steps - 1) as nat);
        }
    }
}

proof fn walks_from_a_successor_end(h: HostModel, id: Seq<char>, k: int)
    requires
        h.valid(),
        0 <= k < h.superseded.len(),
        h.superseded[k].0 == id,
    ensures
        successor(
            h.superseded,
            follow(h.superseded, h.superseded[k].1, h.superseded.len()),
        ) is None,
{
    let next = h.superseded[k].1;
    assert(accounted_for(h.gates, h.superseded, next));
    starting_from_bounds(h.superseded, gate_number(id), gate_number(next), k);
    starting_from_shrinks(h.superseded, gate_number(id), gate_number(id));
    walk_ends(h, next, h.superseded.len());
}

proof fn live_ids_are_the_successors(
    superseded: Seq<(Seq<char>, Seq<char>)>,
    id: Seq<char>,
    next: Seq<char>,
)
    requires
        successor(superseded, id) == Some(next),
        successor(superseded, follow(superseded, next, superseded.len())) is None,
    ensures
        live_id(superseded, id) == live_id(superseded, next),
{
    ended_walks_stay(superseded, next, superseded.len());
}

/// Asking about a superseded gate is asking about the one in its place; a gate
/// that was not superseded speaks for itself.
pub proof fn superseded_gates_are_asked_about_their_successor(h: HostModel, id: Seq<char>, k: int)
    requires
        h.valid(),
        0 <= k <= h.superseded.len(),
        forall|j: int| 0 <= j < k ==> (#[trigger] h.superseded[j]).0 != id,
        k < h.superseded.len() ==> h.superseded[k].0 == id,
    ensures
        k == h.superseded.len() ==> live_id(h.superseded, id) == id,
        k < h.superseded.len() ==> live_id(h.superseded, id) == live_id(
            h.superseded,
            h.superseded[k].1,
        ),
{
    redirects_are_found(h.superseded, id, k);
    if k < h.superseded.len() {
        walks_from_a_successor_end(h, id, k);
        live_ids_are_the_successors(h.superseded, id, h.superseded[k].1);
    }
}

/// A session starts with nothing decided, asked, gated or recorded, and takes
/// proposals from the start.
pub proof fn sessions_start_undecided(
    ctx: crate::session::ContextView,
    calls: Seq<WorkspaceCall>,
    audit_home: Option<Seq<char>>,
)
    ensures
        ({
            let h = crate::gatehost::host::fresh_session(ctx, calls, audit_home);
            &&& h.ctx == ctx
            &&& h.calls == calls
            &&& h.audit_home == audit_home
            &&& !h.abandoned
            &&& h.chain.len() == 0
            &&& h.gates.len() == 0
            &&& h.next_gate == 0
            &&& h.plan is None
            &&& h.questions is None
            &&& h.streams is None
            &&& h.plan_decisions.len() == 1 && h.plan_decisions[0] is Pending
            &&& h.clarify_decisions.len() == 1 && h.clarify_decisions[0] is None
            &&& h.split_decisions.len() == 1 && h.split_decisions[0] is Pending
            &&& h.superseded.len() == 0
            &&& h.watches.len() == 0
            &&& h.events.len() == 0
        }),
{
}

/// A hand-edit that could not be written or frozen, or comes after an abandon,
/// opens no gate and supersedes none; whoever made it is told why.
pub proof fn failed_edits_open_no_gate(
    h: HostModel,
    task: Seq<char>,
    path: Seq<char>,
    contents: Seq<u8>,
    editor: OperatorId,
    after: HostModel,
    e: GateHostError,
)
    requires
        h.edit_made(task, path, contents, editor, after, Err(e)),
    ensures
        after == (HostModel { calls: after.calls, ..h }),
        h.abandoned ==> e is SessionAbandoned && after == h,
        !h.abandoned ==> {
            let n = h.calls.len() as int;
            &&& n < after.calls.len() <= n + 2
            &&& after.calls[n] matches WorkspaceCall::Write { task: t, path: p, contents: c, result }
                && t == task && p == path && c == contents && (result matches Err(failed) ==> e
                == GateHostError::Workspace(failed) && after.calls.len() == n + 1) && (result is Ok
                ==> (after.calls.last() matches WorkspaceCall::Freeze { task: u, result: frozen }
                && u == task && (frozen matches Err(failed) && e == GateHostError::Workspace(
                failed,
            ))))
        },
{
}

/// An event says all of what happened: whose it was, on which task or gate, and
/// what.
pub proof fn events_say_all_of_what_happened(ev: HostEvent)
    ensures
        ev matches HostEvent::Write { agent, task, path, bytes } ==> ev@ == (EventView::Write {
            agent: agent@,
            task: task.0@,
            path: path@,
            bytes: bytes as nat,
        }),
        ev matches HostEvent::Command { agent, task, command, exit_code } ==> ev@ == (
        EventView::Command { agent: agent@, task: task.0@, command: command@, exit_code }),
        ev matches HostEvent::GateOpened { agent, gate_id, task } ==> ev@ == (
        EventView::GateOpened { agent: agent@, gate_id: gate_id.0@, task: task.0@ }),
        ev matches HostEvent::GateResolved { gate_id, state } ==> ev@ == (EventView::GateResolved {
            gate_id: gate_id.0@,
            state,
        }),
        ev matches HostEvent::GateSuperseded { old_gate_id, new_gate_id } ==> ev@ == (
        EventView::GateSuperseded { old_gate_id: old_gate_id.0@, new_gate_id: new_gate_id.0@ }),
        ev matches HostEvent::PlanProposed { agent, tasks } ==> ev@ == (EventView::PlanProposed {
            agent: agent@,
            tasks: texts(tasks@),
        }),
        ev matches HostEvent::PlanSteered { steer } ==> ev@ == (EventView::PlanSteered {
            steer: steer@,
        }),
        ev matches HostEvent::QuestionsAsked { agent, questions } ==> (
        ev@ matches EventView::QuestionsAsked { agent: a, questions: asked } && a == agent@
            && asked.len() == questions@.len() && forall|q: int|
            0 <= q < asked.len() ==> (#[trigger] asked[q]).prompt == questions@[q].prompt@
                && asked[q].options == texts(questions@[q].options@)),
        ev is SessionAbandoned <==> ev@ is SessionAbandoned,
{
}

/// A decision says all of what was decided: the answers of each question in order,
/// and the streams of a split.
pub proof fn decisions_say_all_of_what_was_decided(
    answers: Vec<Vec<String>>,
    streams: Vec<SplitStream>,
)
    ensures
        ClarifyDecision::Answered(answers)@ matches Some(said) && said.len() == answers@.len()
            && forall|q: int|
            0 <= q < said.len() ==> #[trigger] said[q] == texts(answers@[q]@),
        ClarifyDecision::Pending@ is None,
        SplitDecision::Approved(streams)@ == SplitView::Approved(streams@),
        SplitDecision::Declined@ is Declined,
        SplitDecision::Pending@ is Pending,
{
}

} // verus!

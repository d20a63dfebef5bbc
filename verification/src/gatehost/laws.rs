//! What holds of a session as a whole.
use vstd::prelude::*;

use crate::audit::chain::verified;
use crate::canonical::sha256_digest;
use crate::eligibility::eligible;
use crate::error::GateHostError;
use crate::fleet::{
    growing_keeps_validity, handed_first, handing_over_comes_first, is_run, place, place_bounds,
    run_keeps_owners, worktrees_stay_apart, FleetModel,
};
use crate::gatehost::model::{
    accounted_for, filter_finds, follow, gate_index, gate_index_bounds, gate_name, gate_number,
    live_id, makers_of, stale_gates, successor, tickets_of, GateModel, GateProgress, HostModel,
};
use crate::hold::distinct_operators;
use crate::ids::{GateId, OperatorId};
use crate::verdict::CastVerdict;
use crate::workspace::{
    answered, files_bytes, latest_files, replay, written_file_is_held, CommandOutput, FrozenDiff,
    WorkspaceCall,
};

verus! {

/// An abandoned session takes no verdict, so nothing is accepted after an abandon.
pub proof fn abandoned_takes_no_verdict(h: HostModel, gate_id: Seq<char>, cv: CastVerdict)
    ensures
        !h.abandoning().takes_verdict(gate_id, cv),
        h.abandoned ==> !h.takes_verdict(gate_id, cv),
{
}

/// A verdict of somebody outside the roster never counts.
pub proof fn roster_is_enforced(h: HostModel, gate_id: Seq<char>, cv: CastVerdict)
    requires
        !h.ctx.operators.contains(cv.operator),
    ensures
        !h.takes_verdict(gate_id, cv),
{
}

/// A task is accepted only where its gate is satisfied: by as many valid go
/// verdicts as the policy requires, each from another operator who is on the
/// roster and eligible.
pub proof fn acceptance_needs_every_key(
    h: HostModel,
    gate_id: Seq<char>,
    cv: CastVerdict,
    after: HostModel,
    r: Result<GateProgress, GateHostError>,
    task: Seq<char>,
)
    requires
        h.valid(),
        h.takes_verdict(gate_id, cv),
        h.verdict_taken(gate_id, cv, after, r),
        after.valid(),
        after.calls.len() > h.calls.len(),
        after.calls.last() matches WorkspaceCall::Accept { task: t, .. } && t == task,
    ensures
        ({
            let hold = after.gates[gate_index(h.gates, gate_id) as int].hold;
            &&& hold.task_id == task
            &&& hold.gate_id == gate_id
            &&& hold.state is Satisfied
            &&& hold.verdicts.len() >= hold.policy.required
            &&& distinct_operators(hold.verdicts)
            &&& forall|k: int|
                0 <= k < hold.verdicts.len() ==> {
                    &&& (#[trigger] hold.verdicts[k]).verdict is Go
                    &&& hold.verdicts[k].signature_holds(hold.gate_id, hold.diff_hash)
                    &&& eligible(
                        hold.policy.independence,
                        hold.makers,
                        hold.verdicts[k].operator,
                    )
                    &&& h.ctx.operators.contains(hold.verdicts[k].operator)
                }
            &&& hold.policy.independence is Pragmatic && hold.policy.required >= 2 ==> exists|k: int|
                0 <= k < hold.verdicts.len() && !hold.makers.contains(
                    (#[trigger] hold.verdicts[k]).operator,
                )
        }),
{
    gate_index_bounds(h.gates, gate_id);
}

/// A hand-edit is in the worktree at once, and still needs every key: nothing is
/// accepted by making it, and a gate over its diff starts without a verdict.
pub proof fn hand_edit_needs_every_key(
    h: HostModel,
    task: Seq<char>,
    path: Seq<char>,
    contents: Seq<u8>,
    editor: OperatorId,
    after: HostModel,
    opened: (GateId, usize),
)
    requires
        h.edit_made(task, path, contents, editor, after, Ok(opened)),
    ensures
        after.calls.len() == h.calls.len() + 2,
        after.calls[h.calls.len() as int] matches WorkspaceCall::Write {
            task: t,
            path: p,
            contents: c,
            result,
        } && t == task && p == path && c == contents && result is Ok,
        after.calls.last() matches WorkspaceCall::Freeze { task: t, result: Ok(diff) } && t == task
            && after.gates.last().hold.diff_hash == sha256_digest(diff.bytes@),
        after.gates.last().hold.gate_id == opened.0@,
        after.gates.last().hold.task_id == task,
        after.gates.last().hold.state is Open,
        after.gates.last().hold.verdicts.len() == 0,
        after.gates.last().hold.policy == h.ctx.policy,
        after.gates.last().hold.makers.contains(editor),
        after.chain == h.chain,
{
}

/// Where a maker may not cast, no hand-edit forgets a maker: whoever made the
/// change that was pending, and whoever edits it now, is a maker of the change
/// that the fresh gate is over, and every verdict of theirs on it is refused.
pub proof fn strict_forgets_no_maker(
    h: HostModel,
    task: Seq<char>,
    frozen: FrozenDiff,
    editor: OperatorId,
    i: int,
    maker: OperatorId,
    expected_version: u64,
    cv: CastVerdict,
)
    requires
        h.ctx.policy.independence is Strict,
        maker == editor || (0 <= i < h.gates.len() && h.gates[i].stale_for(task)
            && h.gates[i].hold.makers.contains(maker)),
        cv.operator == maker,
    ensures
        h.hand_edited(task, frozen, editor).gates.last().hold.makers.contains(maker),
        h.hand_edited(task, frozen, editor).gates.last().hold.refusal(
            expected_version,
            cv,
        ) is Some,
{
    if maker != editor {
        let gone = stale_gates(h.gates, task);
        let stale = |g: GateModel| g.stale_for(task);
        filter_finds(h.gates, stale, i);
        let m = choose|m: int| 0 <= m < gone.len() && gone[m] == h.gates[i];
        maker_is_listed(gone, m, maker);
    }
}

proof fn maker_is_listed(gates: Seq<GateModel>, m: int, maker: OperatorId)
    requires
        0 <= m < gates.len(),
        gates[m].hold.makers.contains(maker),
    ensures
        makers_of(gates).contains(maker),
    decreases gates.len(),
{
    if m < gates.len() - 1 {
        maker_is_listed(gates.drop_last(), m, maker);
    }
}

/// In memory an agent's write succeeds, and what the file then holds is what was
/// written; no other file of any task is touched.
pub proof fn write_in_memory_is_held(
    h: HostModel,
    agent: Seq<char>,
    task: Seq<char>,
    path: Seq<char>,
    contents: Seq<u8>,
    after: HostModel,
    r: Result<(), GateHostError>,
)
    requires
        h.write_made(agent, task, path, contents, after, r),
        answered(after.calls),
    ensures
        r is Ok,
        replay(after.calls).file(task, path) == Some(contents),
        forall|t: Seq<char>, p: Seq<char>|
            t != task || p != path ==> #[trigger] replay(after.calls).file(t, p) == replay(
                h.calls,
            ).file(t, p),
{
    let bound = h.assigned(agent, task).calls;
    let result = match r {
        Ok(_) => Ok(()),
        Err(e) => Err(e->Workspace_0),
    };
    written_file_is_held(bound, task, path, contents, result);
    if bound != h.calls {
        assert(bound.drop_last() =~= h.calls);
    }
}

/// In memory a hand-edit is made: the file holds what was written, and the fresh
/// gate is over the files as they then are, each as it was last written.
pub proof fn hand_edit_in_memory_is_made(
    h: HostModel,
    task: Seq<char>,
    path: Seq<char>,
    contents: Seq<u8>,
    editor: OperatorId,
    after: HostModel,
    r: Result<(GateId, usize), GateHostError>,
)
    requires
        !h.abandoned,
        h.edit_made(task, path, contents, editor, after, r),
        answered(after.calls),
    ensures
        r is Ok,
        replay(after.calls).file(task, path) == Some(contents),
        after.gates.last().hold.diff_hash == sha256_digest(
            files_bytes(latest_files(replay(after.calls).tasks[task].writes)),
        ),
{
    let n = h.calls.len() as int;
    let written = after.calls.take(n + 1);
    assert(after.calls[n] is Write);
    assert forall|i: int| 0 <= i < written.len() implies replay(written.take(i)).answers(
        #[trigger] written[i],
    ) by {
        assert(written.take(i) =~= after.calls.take(i));
        assert(written[i] == after.calls[i]);
    }
    assert(written =~= h.calls.push(after.calls[n]));
    written_file_is_held(h.calls, task, path, contents, after.calls[n]->Write_result);
    assert(after.calls.drop_last() =~= written);
    assert(replay(after.calls.take(n + 1)).answers(after.calls[n + 1]));
}

/// Whatever an agent does on a task (a write, a command, a gate), the task is
/// handed to it first.
pub proof fn agents_work_is_handed_over_first(
    h: HostModel,
    agent: Seq<char>,
    task: Seq<char>,
    after: HostModel,
    fleet: FleetModel,
)
    requires
        handed_first(fleet, h.calls),
        ({
            ||| exists|path: Seq<char>, contents: Seq<u8>, r: Result<(), GateHostError>|
                #[trigger] h.write_made(agent, task, path, contents, after, r)
            ||| exists|
                command: Seq<char>,
                cwd: Seq<char>,
                r: Result<CommandOutput, GateHostError>,
            | #[trigger] h.command_made(agent, task, command, cwd, after, r)
            ||| exists|tokens: nat, r: Result<(GateId, usize), GateHostError>| #[trigger]
                h.gate_begun(agent, task, tokens, after, r)
        }),
    ensures
        after.calls == h.calls.push(WorkspaceCall::Assign { task, agent }).push(
            after.calls.last(),
        ),
        after.calls.last().about() == Some(task),
        handed_first(fleet, after.calls),
{
    handing_over_comes_first(fleet, h.calls, task, agent, after.calls.last());
}

/// Through one host the agents of a fleet are kept apart: the diff that an
/// agent's gate is over was frozen in that agent's own worktree, and every call
/// that ever reached this worktree about a task was about one of that agent's.
/// The task must not have been another agent's before.
pub proof fn gated_diff_is_one_agents(
    h: HostModel,
    agent: Seq<char>,
    task: Seq<char>,
    tokens: nat,
    after: HostModel,
    opened: (GateId, usize),
    states: Seq<FleetModel>,
)
    requires
        h.gate_begun(agent, task, tokens, after, Ok(opened)),
        is_run(states, after.calls),
        states[0].valid(),
        states[0].apart(),
        handed_first(states[0], h.calls),
        states[h.calls.len() as int].owners.contains_key(task)
            ==> states[h.calls.len() as int].owner(task) == agent,
    ensures
        ({
            let fleet = states.last();
            let at = place(fleet.agents, agent) as int;
            &&& at < fleet.agents.len()
            &&& fleet.owner(task) == agent
            &&& fleet.calls[at].len() > 0
            &&& fleet.calls[at].last() matches WorkspaceCall::Freeze { task: t, result: Ok(diff) }
                && t == task && after.gates.last().hold.diff_hash == sha256_digest(diff.bytes@)
            &&& forall|c: int|
                0 <= c < fleet.calls[at].len() ==> ((
                #[trigger] fleet.calls[at][c]).about() matches Some(t) ==> fleet.owner(t) == agent)
            &&& forall|i: int, c: int|
                0 <= i < fleet.calls.len() && i != at && 0 <= c < fleet.calls[i].len() ==> ((
                #[trigger] fleet.calls[i][c]).about() matches Some(t) ==> fleet.owner(t) != agent)
        }),
{
    let n = h.calls.len() as int;
    let calls = after.calls;
    agents_work_is_handed_over_first(h, agent, task, after, states[0]);
    worktrees_stay_apart(states, calls, n + 2);
    fleet_takes_two(states, calls, n, task, agent);
}

/// A task handed to an agent, and a call about it that did not fail.
proof fn fleet_takes_two(
    states: Seq<FleetModel>,
    calls: Seq<WorkspaceCall>,
    n: int,
    task: Seq<char>,
    agent: Seq<char>,
)
    requires
        is_run(states, calls),
        states[0].valid(),
        0 <= n,
        n + 2 == calls.len(),
        calls[n] == (WorkspaceCall::Assign { task, agent }),
        calls[n + 1].about() == Some(task),
        !calls[n + 1].failed(),
        states[n].owners.contains_key(task) ==> states[n].owner(task) == agent,
    ensures
        ({
            let fleet = states[n + 2];
            let at = place(fleet.agents, agent) as int;
            &&& fleet.valid()
            &&& at < fleet.agents.len()
            &&& fleet.agents[at] == agent
            &&& fleet.owner(task) == agent
            &&& fleet.calls[at].len() > 0
            &&& fleet.calls[at].last() == calls[n + 1]
        }),
{
    run_keeps_owners(states, calls, n + 1);
    run_keeps_owners(states, calls, n + 2);
    assert(states[n].takes(calls[n], states[n + 1]));
    assert(states[n + 1].takes(calls[n + 1], states[n + 1 + 1]));
    assert(states[n + 1].owner(task) == agent);
    let f = states[n + 1];
    place_bounds(states[n + 2].agents, agent);
    if !f.housed(task) {
        growing_keeps_validity(f, task, seq![]);
    }
}

/// The audit chain only grows: a verdict leaves it as it is or adds one entry
/// at its end.
pub proof fn chain_only_grows(
    h: HostModel,
    gate_id: Seq<char>,
    cv: CastVerdict,
    after: HostModel,
    r: Result<GateProgress, GateHostError>,
)
    requires
        h.takes_verdict(gate_id, cv),
        h.verdict_taken(gate_id, cv, after, r),
    ensures
        after.chain == h.chain || after.chain == h.chain.push(after.chain.last()),
{
}

/// The chain of a valid session verifies, whatever was cast.
pub proof fn session_chain_verifies(h: HostModel)
    requires
        h.valid(),
    ensures
        verified(h.chain),
{
}

/// Everyone a gate speaks for learns the state that it publishes, and nobody
/// else is told anything.
pub proof fn everyone_waiting_learns_the_outcome(h: HostModel, i: int, ticket: nat)
    requires
        0 <= i < h.gates.len(),
        ticket < h.watches.len(),
    ensures
        h.gates[i].speaks_for(ticket) ==> h.published(i).watches[ticket as int]
            == h.gates[i].hold.state,
        !h.gates[i].speaks_for(ticket) ==> h.published(i).watches[ticket as int]
            == h.watches[ticket as int],
{
}

/// A hand-edit hands over everyone who waited for a gate that it supersedes:
/// the fresh gate speaks for them, and until it resolves they are told nothing.
pub proof fn hand_edit_carries_everyone_waiting(
    h: HostModel,
    task: Seq<char>,
    frozen: FrozenDiff,
    editor: OperatorId,
    i: int,
    ticket: nat,
)
    requires
        0 <= i < h.gates.len(),
        h.gates[i].stale_for(task),
        h.gates[i].speaks_for(ticket),
        ticket < h.watches.len(),
    ensures
        h.hand_edited(task, frozen, editor).gates.last().speaks_for(ticket),
        h.hand_edited(task, frozen, editor).watches[ticket as int] == h.watches[ticket as int],
        !h.hand_edited(task, frozen, editor).gates.last().hold.state.is_final(),
{
    let gone = stale_gates(h.gates, task);
    let stale = |g: GateModel| g.stale_for(task);
    filter_finds(h.gates, stale, i);
    let m = choose|m: int| 0 <= m < gone.len() && gone[m] == h.gates[i];
    ticket_is_listed(gone, m, ticket);
}

proof fn ticket_is_listed(gates: Seq<GateModel>, m: int, ticket: nat)
    requires
        0 <= m < gates.len(),
        gates[m].speaks_for(ticket),
    ensures
        tickets_of(gates).contains(ticket),
    decreases gates.len(),
{
    let shorter = gates.drop_last();
    let before = tickets_of(shorter);
    let all = tickets_of(gates);
    if m < shorter.len() {
        ticket_is_listed(shorter, m, ticket);
        let k = choose|k: int| 0 <= k < before.len() && before[k] == ticket;
        assert(all[k] == ticket);
    } else if gates[m].watch == ticket {
        assert(all[before.len() as int] == ticket);
    } else {
        let k = choose|k: int|
            0 <= k < gates[m].carried.len() && gates[m].carried[k] == ticket;
        assert(all[before.len() + 1 + k] == ticket);
    }
}

/// A superseded gate takes no verdict any more: verdicts must bind the combined
/// diff.
pub proof fn superseded_gate_is_unknown(h: HostModel, k: int, cv: CastVerdict)
    requires
        h.valid(),
        0 <= k < h.superseded.len(),
    ensures
        gate_index(h.gates, h.superseded[k].0) == h.gates.len(),
        !h.takes_verdict(h.superseded[k].0, cv),
{
    gate_index_bounds(h.gates, h.superseded[k].0);
}

proof fn successor_is_listed(superseded: Seq<(Seq<char>, Seq<char>)>, id: Seq<char>)
    ensures
        match successor(superseded, id) {
            Some(next) => exists|k: int|
                0 <= k < superseded.len() && (#[trigger] superseded[k]).0 == id && superseded[k].1
                    == next,
            None => forall|k: int|
                0 <= k < superseded.len() ==> (#[trigger] superseded[k]).0 != id,
        },
    decreases superseded.len(),
{
    if superseded.len() > 0 && superseded[0].0 != id {
        successor_is_listed(superseded.skip(1), id);
        match successor(superseded, id) {
            Some(next) => {
                let k = choose|k: int|
                    0 <= k < superseded.skip(1).len() && (#[trigger] superseded.skip(1)[k]).0 == id
                        && superseded.skip(1)[k].1 == next;
            },
            None => {
                assert forall|k: int| 0 <= k < superseded.len() implies (
                #[trigger] superseded[k]).0 != id by {
                    if k > 0 {
                        assert(superseded[k] == superseded.skip(1)[k - 1]);
                    }
                }
            },
        }
    }
}

/// How many redirects start at gates numbered from `n` on.
pub open spec fn starting_from(superseded: Seq<(Seq<char>, Seq<char>)>, n: nat) -> nat
    decreases superseded.len(),
{
    if superseded.len() == 0 {
        0
    } else {
        starting_from(superseded.drop_last(), n) + (if gate_number(superseded.last().0) >= n {
            1nat
        } else {
            0nat
        })
    }
}

pub proof fn starting_from_bounds(superseded: Seq<(Seq<char>, Seq<char>)>, n: nat, m: nat, k: int)
    requires
        n < m,
        0 <= k < superseded.len(),
        n <= gate_number(superseded[k].0) < m,
    ensures
        starting_from(superseded, m) < starting_from(superseded, n),
    decreases superseded.len(),
{
    starting_from_shrinks(superseded.drop_last(), n, m);
    if k < superseded.len() - 1 {
        starting_from_bounds(superseded.drop_last(), n, m, k);
    }
}

pub proof fn starting_from_shrinks(superseded: Seq<(Seq<char>, Seq<char>)>, n: nat, m: nat)
    requires
        n <= m,
    ensures
        starting_from(superseded, m) <= starting_from(superseded, n) <= superseded.len(),
    decreases superseded.len(),
{
    if superseded.len() > 0 {
        starting_from_shrinks(superseded.drop_last(), n, m);
    }
}

pub proof fn walk_ends(h: HostModel, id: Seq<char>, steps: nat)
    requires
        h.valid(),
        steps >= starting_from(h.superseded, gate_number(id)) + 1,
        accounted_for(h.gates, h.superseded, id),
    ensures
        successor(h.superseded, follow(h.superseded, id, steps)) is None,
        accounted_for(h.gates, h.superseded, follow(h.superseded, id, steps)),
    decreases steps,
{
    successor_is_listed(h.superseded, id);
    match successor(h.superseded, id) {
        None => {},
        Some(next) => {
            let k = choose|k: int|
                0 <= k < h.superseded.len() && (#[trigger] h.superseded[k]).0 == id
                    && h.superseded[k].1 == next;
            starting_from_bounds(h.superseded, gate_number(id), gate_number(next), k);
            walk_ends(h, next, (steps - 1) as nat);
        },
    }
}

/// Asking about a gate that was ever opened reaches a gate that is still there:
/// redirects are followed to their end, and the review gate at the end is one of the
/// session's gates.
pub proof fn every_gate_leads_to_a_live_one(h: HostModel, id: Seq<char>)
    requires
        h.valid(),
        accounted_for(h.gates, h.superseded, id),
    ensures
        gate_index(h.gates, live_id(h.superseded, id)) < h.gates.len(),
        successor(h.superseded, live_id(h.superseded, id)) is None,
{
    starting_from_shrinks(h.superseded, gate_number(id), gate_number(id));
    walk_ends(h, id, h.superseded.len() + 1);
    let live = live_id(h.superseded, id);
    successor_is_listed(h.superseded, live);
    gate_index_bounds(h.gates, live);
}

/// Every gate that is opened is accounted for from then on.
pub proof fn opened_gate_is_accounted_for(
    h: HostModel,
    agent: Seq<char>,
    task: Seq<char>,
    provenance: crate::audit::record::ProvenanceView,
)
    ensures
        ({
            let after = h.opened(agent, task, provenance);
            accounted_for(after.gates, after.superseded, gate_name(h.next_gate + 1))
        }),
{
    let after = h.opened(agent, task, provenance);
    assert(after.gates[h.gates.len() as int].hold.gate_id == gate_name(h.next_gate + 1));
}

} // verus!

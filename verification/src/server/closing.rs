//! How a session ends.
use vstd::prelude::*;

use crate::audit::chain::head_of;
use crate::error::GateHostError;
use crate::gatehost::model::HostModel;
use crate::ids::OperatorId;
use crate::protocol::{ClientMsg, ServerMsg, WireChoice};
use crate::server::effects::one_line_more;
use crate::server::laws::refresh_only_shows;
use crate::server::model::{choice_of, NetModel, PhaseModel, ServerModel};
use crate::text::hex_spec;
use crate::workspace::WorkspaceCall;

verus! {

/// There is a home for the audit chain, and something to keep there.
pub open spec fn leaves_an_audit(m: ServerModel) -> bool {
    m.host.audit_home is Some && m.host.chain.len() > 0
}

/// The whole audit chain went to the audit home, under a name made of its head.
pub open spec fn audit_went_home(m: ServerModel, call: WorkspaceCall) -> bool {
    call matches WorkspaceCall::Audit { dir, name, records, .. } && Some(dir) == m.host.audit_home
        && name == "audit-"@ + hex_spec(head_of(m.host.chain).take(8)) + ".json"@ && records
        == m.host.chain
}

/// The log says where the audit chain went, or that it did not.
pub open spec fn audit_is_logged(
    before: Seq<Seq<char>>,
    after: Seq<Seq<char>>,
    now: nat,
    call: WorkspaceCall,
) -> bool {
    call matches WorkspaceCall::Audit { result, .. } && match result {
        Ok(path) => one_line_more(before, after, now, "audit chain written · "@ + path@),
        Err(words) => one_line_more(before, after, now, "AUDIT WRITE FAILED: "@ + words@),
    }
}

/// A session that is finished leaves its audit chain first, where there is a home
/// for it, and is merged then; it says so in the log, and how either went. The
/// stations learn how many gates were resolved, who reviewed, and whether it was
/// merged.
pub proof fn finished_sessions_say_how(
    m: ServerModel,
    after: ServerModel,
    now: nat,
    kept: Seq<Seq<char>>,
    merged: Seq<Seq<char>>,
)
    requires
        m.refreshed(after, now),
        !(m.net.phase is Closed),
        after.net.phase is Closed,
        leaves_an_audit(m) ==> audit_is_logged(
            m.net.log,
            kept,
            now,
            after.host.calls[m.host.calls.len() as int],
        ),
        !leaves_an_audit(m) ==> kept == m.net.log,
        after.host.calls.last() matches WorkspaceCall::Merge { result: Err(e), .. }
            ==> one_line_more(
            kept,
            merged,
            now,
            "merge error: "@ + GateHostError::Workspace(e).words(),
        ),
        after.host.calls.last() matches WorkspaceCall::Merge { result: Ok(_), .. } ==> merged
            == kept,
    ensures
        after.host.calls.last() is Merge,
        one_line_more(merged, after.net.log, now, "session closed"@),
        after.net.phase == (PhaseModel::Closed {
            gates: m.host.chain.len(),
            chain_verified: true,
            reviewers: seq![m.net.seats[0].label, m.net.seats[1].label],
            merged: after.host.calls.last()->Merge_result is Ok,
            abandoned: false,
        }),
        leaves_an_audit(m) ==> {
            &&& after.host.calls.len() == m.host.calls.len() + 2
            &&& audit_went_home(m, after.host.calls[m.host.calls.len() as int])
        },
        !leaves_an_audit(m) ==> after.host.calls.len() == m.host.calls.len() + 1,
        forall|i: int|
            0 <= i < m.host.calls.len() ==> #[trigger] after.host.calls[i] == m.host.calls[i],
        after.host == (HostModel { calls: after.host.calls, ..m.host }),
        after.net == (NetModel {
            phase: after.net.phase,
            log: after.net.log,
            finalizing: true,
            ..m.net
        }),
        after.cfg == m.cfg,
        after.plan_approved == m.plan_approved,
        after.join == m.join,
{
    let claimed = m.with_net(NetModel { finalizing: true, ..m.net });
    let audit = after.host.calls[m.host.calls.len() as int];
    let merge = after.host.calls.last();
    let persisted = claimed.after_audit(audit, now);
    if leaves_an_audit(m) {
        let line = match audit {
            WorkspaceCall::Audit { result: Ok(path), .. } => "audit chain written · "@ + path@,
            WorkspaceCall::Audit { result: Err(words), .. } => "AUDIT WRITE FAILED: "@ + words@,
            _ => seq![],
        };
        assert(persisted.net.log =~= claimed.net.logged(now, line).log);
        assert(kept =~= persisted.net.log);
    }
    assert(persisted.net.log == kept);
    if merge->Merge_result is Err {
        let e = merge->Merge_result->Err_0;
        let words = "merge error: "@ + GateHostError::Workspace(e).words();
        assert(merged =~= persisted.net.logged(now, words).log);
    }
}

/// The log says what could not be discarded, where the audit chain went, and who
/// abandoned the session, in this order.
pub open spec fn abandoning_is_logged(
    m: ServerModel,
    seat: int,
    now: nat,
    host: HostModel,
    r: Result<(), GateHostError>,
    after: ServerModel,
) -> bool {
    exists|stopped: Seq<Seq<char>>, kept: Seq<Seq<char>>|
        {
            &&& r is Ok ==> stopped == m.net.log
            &&& r matches Err(e) ==> one_line_more(
                m.net.log,
                stopped,
                now,
                "abandon error: "@ + e.words(),
            )
            &&& leaves_an_audit(m) ==> audit_is_logged(
                stopped,
                kept,
                now,
                after.host.calls[host.calls.len() as int],
            )
            &&& !leaves_an_audit(m) ==> kept == stopped
            &&& #[trigger] no_shorter(stopped, kept)
            &&& one_line_more(
                kept,
                after.net.log,
                now,
                m.net.seats[seat].label + " abandoned the session — nothing merged"@,
            )
        }
}

/// The log has not become shorter.
pub open spec fn no_shorter(before: Seq<Seq<char>>, after: Seq<Seq<char>>) -> bool {
    before.len() <= after.len()
}

/// A session that a seat abandons is closed and not merged: the host is told, the
/// audit chain goes home where there is one, the log says who abandoned it, and
/// the stations learn how many gates were resolved and who reviewed.
#[verifier::rlimit(30)]
pub proof fn abandoned_sessions_say_so(
    m: ServerModel,
    seat: int,
    operator: OperatorId,
    now: nat,
    replies: Seq<ServerMsg>,
    after: ServerModel,
)
    requires
        m.valid(),
        0 <= seat < 2,
        !(m.net.phase is Closed),
        m.handled(seat, operator, ClientMsg::Abandon, now, replies, after),
    ensures
        replies.len() == 0,
        after.net.phase == (PhaseModel::Closed {
            gates: m.host.chain.len(),
            chain_verified: true,
            reviewers: seq![m.net.seats[0].label, m.net.seats[1].label],
            merged: false,
            abandoned: true,
        }),
        after.net == (NetModel {
            phase: after.net.phase,
            log: after.net.log,
            finalizing: true,
            ..m.net
        }),
        exists|host: HostModel, r: Result<(), GateHostError>| #[trigger]
            m.host.abandon_made(host, r) && after.host == (HostModel {
                calls: after.host.calls,
                ..host
            }) && (leaves_an_audit(m) ==> host.calls.len() < after.host.calls.len()
                && audit_went_home(m, after.host.calls[host.calls.len() as int]))
                && abandoning_is_logged(m, seat, now, host, r, after),
{
    let (host, r, audit) = choose|
        host: HostModel,
        r: Result<(), GateHostError>,
        audit: WorkspaceCall,
    | {
        &&& m.host.abandon_made(host, r)
        &&& m.persists() ==> m.audit_call(audit)
        &&& (#[trigger] m.after_abandon(seat, now, host, r, audit)).shows(replies, after, now)
    };
    let ended = m.after_abandon(seat, now, host, r, audit);
    refresh_only_shows(ended, after, now);
    let claimed = NetModel { finalizing: true, ..m.net };
    let stopped = ServerModel {
        host,
        net: match r {
            Ok(_) => claimed,
            Err(e) => claimed.logged(now, "abandon error: "@ + e.words()),
        },
        ..m
    };
    let kept = stopped.after_audit(audit, now).net.log;
    if leaves_an_audit(m) {
        assert(after.host.calls[host.calls.len() as int] == audit);
    }
    assert(no_shorter(stopped.net.log, kept));
    assert(abandoning_is_logged(m, seat, now, host, r, after));
}

/// An answer that settles the last question is logged, and the session waits for
/// the agent's plan; any other is not. Beside the exchange nothing changes.
pub proof fn settled_exchanges_are_logged(
    m: ServerModel,
    seat: int,
    operator: OperatorId,
    question: usize,
    choice: WireChoice,
    now: nat,
    replies: Seq<ServerMsg>,
    after: ServerModel,
)
    requires
        m.valid(),
        0 <= seat < 2,
        m.handled(seat, operator, ClientMsg::Answer { question, choice }, now, replies, after),
    ensures
        replies.len() == 0,
        !(m.net.phase is Clarify) || m.net.clarify is None ==> after == m,
        m.net.phase is Clarify && m.net.clarify is Some ==> {
            let next = m.net.clarify->Some_0.after(
                seat as nat,
                question as int,
                choice_of(choice),
            );
            let settled = forall|q: int|
                0 <= q < next.states.len() ==> (#[trigger] next.states[q]) is Resolved;
            let last = m.host.clarify_decisions.len() - 1;
            &&& settled ==> {
                &&& after.net.phase is PlanReview
                &&& after.net.clarify is None
                &&& one_line_more(
                    m.net.log,
                    after.net.log,
                    now,
                    "clarification resolved · awaiting agent plan"@,
                )
                &&& after.host.clarify_decisions.len() == m.host.clarify_decisions.len()
                &&& after.host.clarify_decisions[last] == Some(next.answers())
                &&& forall|k: int|
                    0 <= k < last ==> #[trigger] after.host.clarify_decisions[k]
                        == m.host.clarify_decisions[k]
            }
            &&& !settled ==> {
                &&& after.net.clarify == Some(next)
                &&& after.net.phase is Clarify
                &&& after.net.log == m.net.log
                &&& after.host.clarify_decisions == m.host.clarify_decisions
            }
            &&& after.net == (NetModel {
                phase: after.net.phase,
                clarify: after.net.clarify,
                log: after.net.log,
                ..m.net
            })
            &&& after.host == (HostModel {
                clarify_decisions: after.host.clarify_decisions,
                calls: after.host.calls,
                ..m.host
            })
            &&& after.cfg == m.cfg && after.plan_approved == m.plan_approved && after.join
                == m.join
        },
{
}

} // verus!

//! Who is there: linking, stepping away, claims, notes and joining.
use vstd::prelude::*;

use crate::error::GateHostError;
use crate::gatehost::model::{GateProgress, HostModel};
use crate::hold::HoldState;
use crate::ids::{GateId, OperatorId};
use crate::protocol::{ClientMsg, ServerMsg, WireState, PROTOCOL_VERSION};
use crate::server::effects::{host_untouched, one_line_more, unfinished};
use crate::server::model::{
    first_shown, fresh_net, refused, Admission, ConfigModel, JoinDecision, JoinStep, NetModel,
    SeatModel, ServerModel,
};
use crate::text::{decimal_spec, hex_spec, trimmed};
use crate::text_laws::{blank, trimming_drops_only_space};
use crate::verdict::CastVerdict;
use crate::workspace::WorkspaceCall;

verus! {

// ---------------------------------------------------------------------------
// Starting, linking and dropping
// ---------------------------------------------------------------------------
/// A session starts with two seats as configured, the host's and an operator's,
/// neither linked, ready nor away, the configured prompt, and nothing else; this
/// is what the stations are shown first, without the prompt.
pub proof fn sessions_start_empty(cfg: ConfigModel, w: WireState)
    requires
        first_shown(cfg, w),
    ensures
        ({
            let net = fresh_net(cfg);
            &&& net.phase is AwaitOperators
            &&& net.seats.len() == 2
            &&& net.seats[0].role is Host
            &&& net.seats[1].role is Operator
            &&& forall|i: int|
                0 <= i < 2 ==> {
                    &&& (#[trigger] net.seats[i]).label == cfg.seats[i].0
                    &&& net.seats[i].operator == cfg.seats[i].1
                    &&& !net.seats[i].linked && !net.seats[i].ready && !net.seats[i].afk
                }
            &&& net.prompt == cfg.prompt
            &&& net.fleet.len() == 0
            &&& net.log.len() == 0
            &&& !net.agent_done && !net.finalizing
            &&& net.agent_plan is None
            &&& net.claim is None
            &&& net.clarify is None
            &&& net.seat_b_bound is None
            &&& net.pending_join is None
            &&& forall|k: Seq<char>| !(#[trigger] net.last_cmd.contains_key(k))
            &&& forall|k: Seq<char>| !(#[trigger] net.discuss.contains_key(k))
        }),
        w.phase is AwaitOperators,
        w.seats@.len() == 2,
        w.seats@[0].role is Host,
        w.seats@[1].role is Operator,
        forall|i: int|
            0 <= i < 2 ==> {
                &&& (#[trigger] w.seats@[i]).label@ == cfg.seats[i].0
                &&& w.seats@[i].operator == cfg.seats[i].1
                &&& !w.seats@[i].linked && !w.seats@[i].ready && !w.seats@[i].afk
            },
        w.fleet@.len() == 0,
        w.log@.len() == 0,
        w.gate is None,
        w.pending_join is None,
{
    assert(fresh_net(cfg).seats[0].role is Host);
    assert(w.seats@[0].label@ == fresh_net(cfg).seats[0].label);
    assert(w.seats@[1].label@ == fresh_net(cfg).seats[1].label);
}

/// A seat that links is linked. Once both are, a session that waited for them
/// goes on to dispatch and says so; in every other phase linking changes nothing
/// else.
pub proof fn linked_seats_are_marked(net: NetModel, seat: int, now: nat)
    requires
        net.seats.len() == 2,
        0 <= seat < 2,
    ensures
        ({
            let after = net.after_link(seat, now);
            let opens = net.phase is AwaitOperators && net.seats[1 - seat].linked;
            &&& after.seats.len() == 2
            &&& after.seats[seat] == (SeatModel { linked: true, ..net.seats[seat] })
            &&& after.seats[1 - seat] == net.seats[1 - seat]
            &&& opens ==> {
                &&& after.phase is DispatchReady
                &&& one_line_more(net.log, after.log, now, "both stations linked"@)
            }
            &&& !opens ==> after.phase == net.phase && after.log == net.log
            &&& after == (NetModel {
                seats: after.seats,
                phase: after.phase,
                log: after.log,
                ..net
            })
        }),
{
}

/// A seat that drops is no longer linked or away, its claim is released, and the
/// log says that its gates park; the other seat's claim stays.
pub proof fn dropped_seats_are_marked(net: NetModel, seat: int, now: nat)
    requires
        net.seats.len() == 2,
        0 <= seat < 2,
    ensures
        ({
            let after = net.after_disconnect(seat, now);
            &&& after.seats.len() == 2
            &&& after.seats[seat] == (SeatModel { linked: false, afk: false, ..net.seats[seat] })
            &&& after.seats[1 - seat] == net.seats[1 - seat]
            &&& net.claim matches Some(c) ==> if c.1 == seat {
                after.claim is None
            } else {
                after.claim == net.claim
            }
            &&& net.claim is None ==> after.claim is None
            &&& one_line_more(
                net.log,
                after.log,
                now,
                net.seats[seat].label + " disconnected · gates park"@,
            )
            &&& after == (NetModel {
                seats: after.seats,
                claim: after.claim,
                log: after.log,
                ..net
            })
        }),
{
}

// ---------------------------------------------------------------------------
// Presence and discussion
// ---------------------------------------------------------------------------
/// A claim is the claiming seat's until that seat claims the same gate again,
/// which releases it; either is logged.
pub proof fn claims_toggle(
    m: ServerModel,
    seat: int,
    operator: OperatorId,
    gate_id: GateId,
    now: nat,
    replies: Seq<ServerMsg>,
    after: ServerModel,
)
    requires
        m.valid(),
        0 <= seat < 2,
        unfinished(m),
        m.handled(seat, operator, ClientMsg::Claim { gate_id }, now, replies, after),
    ensures
        replies.len() == 0,
        host_untouched(m, after),
        ({
            let held = m.net.claim matches Some(c) && c.0 == gate_id@ && c.1 == seat;
            &&& held ==> after.net.claim is None && one_line_more(
                m.net.log,
                after.net.log,
                now,
                m.net.seats[seat].label + " released "@ + gate_id@,
            )
            &&& !held ==> after.net.claim == Some((gate_id@, seat as nat)) && one_line_more(
                m.net.log,
                after.net.log,
                now,
                m.net.seats[seat].label + " is reviewing "@ + gate_id@,
            )
            &&& after.net == (NetModel { claim: after.net.claim, log: after.net.log, ..m.net })
        }),
{
}

/// A note stands behind the notes that its gate already has, under its seat and
/// without the space around it, and is logged; every other gate's notes stay. A
/// blank one is dropped.
pub proof fn notes_are_kept_in_order(
    m: ServerModel,
    seat: int,
    operator: OperatorId,
    gate_id: GateId,
    text: String,
    now: nat,
    replies: Seq<ServerMsg>,
    after: ServerModel,
)
    requires
        m.valid(),
        0 <= seat < 2,
        unfinished(m),
        m.handled(seat, operator, ClientMsg::Discuss { gate_id, text }, now, replies, after),
    ensures
        replies.len() == 0,
        blank(text@) ==> after == m,
        !blank(text@) ==> {
            let had = if m.net.discuss.contains_key(gate_id@) {
                m.net.discuss[gate_id@].len()
            } else {
                0
            };
            &&& host_untouched(m, after)
            &&& after.net.discuss.contains_key(gate_id@)
            &&& after.net.discuss[gate_id@].len() == had + 1
            &&& after.net.discuss[gate_id@].last() == (seat as nat, trimmed(text@))
            &&& forall|i: int|
                0 <= i < had ==> #[trigger] after.net.discuss[gate_id@][i]
                    == m.net.discuss[gate_id@][i]
            &&& forall|g: Seq<char>|
                g != gate_id@ ==> (#[trigger] after.net.discuss.contains_key(g)
                    == m.net.discuss.contains_key(g)) && after.net.discuss[g] == m.net.discuss[g]
            &&& one_line_more(
                m.net.log,
                after.net.log,
                now,
                m.net.seats[seat].label + " noted on "@ + gate_id@ + ": "@ + trimmed(text@),
            )
            &&& after.net == (NetModel { discuss: after.net.discuss, log: after.net.log, ..m.net })
        },
{
    trimming_drops_only_space(text@);
}

/// A seat that steps away or comes back is marked so, and the log says which;
/// saying again what is already so changes nothing.
pub proof fn absences_are_marked(
    m: ServerModel,
    seat: int,
    operator: OperatorId,
    afk: bool,
    now: nat,
    replies: Seq<ServerMsg>,
    after: ServerModel,
)
    requires
        m.valid(),
        0 <= seat < 2,
        unfinished(m),
        m.handled(seat, operator, ClientMsg::SetAfk { afk }, now, replies, after),
    ensures
        replies.len() == 0,
        m.net.seats[seat].afk == afk ==> after == m,
        m.net.seats[seat].afk != afk ==> {
            &&& host_untouched(m, after)
            &&& after.net.seats.len() == 2
            &&& after.net.seats[seat] == (SeatModel { afk, ..m.net.seats[seat] })
            &&& after.net.seats[1 - seat] == m.net.seats[1 - seat]
            &&& afk ==> one_line_more(
                m.net.log,
                after.net.log,
                now,
                m.net.seats[seat].label + " is "@ + "AFK"@,
            )
            &&& !afk ==> one_line_more(
                m.net.log,
                after.net.log,
                now,
                m.net.seats[seat].label + " is "@ + "back"@,
            )
            &&& after.net == (NetModel { seats: after.net.seats, log: after.net.log, ..m.net })
        },
{
}

/// A ping is answered and a greeting or a farewell is not; none of them changes
/// anything.
pub proof fn pings_are_answered(
    m: ServerModel,
    seat: int,
    operator: OperatorId,
    msg: ClientMsg,
    now: nat,
    replies: Seq<ServerMsg>,
    after: ServerModel,
)
    requires
        m.handled(seat, operator, msg, now, replies, after),
        msg is Ping || msg is Bye || msg is Hello,
    ensures
        after == m,
        msg is Ping ==> replies.len() == 1 && replies[0] is Pong,
        !(msg is Ping) ==> replies.len() == 0,
{
}

// ---------------------------------------------------------------------------
// Verdicts, files and answers
// ---------------------------------------------------------------------------
/// A verdict that a gate took is logged without its value; where it resolved the
/// gate, the next line says how.
pub proof fn taken_verdicts_are_logged_sealed(
    m: ServerModel,
    seat: int,
    gate_id: Seq<char>,
    state: HoldState,
    host: HostModel,
    now: nat,
)
    requires
        m.net.seats.len() == 2,
        0 <= seat < 2,
    ensures
        ({
            let after = m.after_cast(seat, gate_id, state, host, now);
            let said = m.net.logged(now, m.net.seats[seat].label + " cast · sealed"@).log;
            &&& one_line_more(m.net.log, said, now, m.net.seats[seat].label + " cast · sealed"@)
            &&& state is Satisfied ==> one_line_more(
                said,
                after.net.log,
                now,
                "gate "@ + gate_id + " · both keys in · accepted"@,
            )
            &&& state is Blocked ==> one_line_more(
                said,
                after.net.log,
                now,
                "gate "@ + gate_id + " · no-go · remedy routed to agent"@,
            )
            &&& state is Open || state is Partial ==> after.net.log == said
            &&& after.net == (NetModel { log: after.net.log, ..m.net })
            &&& after.host == host
            &&& after.cfg == m.cfg && after.plan_approved == m.plan_approved && after.join
                == m.join
        }),
{
}

/// A verdict of a seat's own goes to the host: where it is refused the seat is
/// told why, and where it is taken there is nothing to say.
pub proof fn verdicts_reach_the_host(
    m: ServerModel,
    seat: int,
    operator: OperatorId,
    gate_id: GateId,
    verdict: CastVerdict,
    now: nat,
    replies: Seq<ServerMsg>,
    after: ServerModel,
)
    requires
        verdict.operator == operator,
        m.handled(seat, operator, ClientMsg::Cast { gate_id, verdict }, now, replies, after),
    ensures
        exists|host: HostModel, r: Result<GateProgress, GateHostError>| #[trigger]
            m.host.verdict_given(gate_id, verdict, host, r) && (r is Err ==> after == (ServerModel {
                host,
                ..m
            }) && replies.len() == 1 && replies[0] is Rejected && replies[0]->reason@
                == r->Err_0.words()) && (r is Ok ==> replies.len() == 0 && after.host == (
            HostModel { calls: after.host.calls, ..host })),
{
    let (host, r) = choose|host: HostModel, r: Result<GateProgress, GateHostError>| #[trigger]
        m.host.verdict_given(gate_id, verdict, host, r) && match r {
            Err(e) => refused(replies, e.words()) && after == (ServerModel { host, ..m }),
            Ok(progress) => m.after_cast(seat, gate_id@, progress.state, host, now).shows(
                replies,
                after,
                now,
            ),
        };
    if let Ok(progress) = r {
        crate::server::laws::refresh_only_shows(
            m.after_cast(seat, gate_id@, progress.state, host, now),
            after,
            now,
        );
    }
}

/// A fetched file is read in the task that waits for review, and its text sent as
/// it is: nothing where there is no such file, and where it is no text also that
/// it is to be edited on the host.
pub proof fn fetched_files_are_sent_as_read(
    m: ServerModel,
    seat: int,
    operator: OperatorId,
    path: String,
    now: nat,
    replies: Seq<ServerMsg>,
    after: ServerModel,
    p: int,
)
    requires
        m.handled(seat, operator, ClientMsg::FetchFile { path }, now, replies, after),
        !m.host.abandoned,
        0 <= p < m.host.gates.len(),
        crate::server::showing::waits(m.host.gates[p]),
        forall|j: int|
            0 <= j < p ==> !crate::server::showing::waits(#[trigger] m.host.gates[j]),
    ensures
        after.host.calls.len() == m.host.calls.len() + 1,
        after.host.calls.last() matches WorkspaceCall::Read { task, path: read, result } && {
            &&& task == m.host.gates[p].hold.task_id
            &&& read == path@
            &&& result is Err ==> replies.len() == 1 && replies[0] is Rejected
                && replies[0]->reason@ == result->Err_0.words()
            &&& result is Ok ==> replies.len() >= 1 && replies[0] is FileContent
                && replies[0]->FileContent_path@ == path@
            &&& result matches Ok(None) ==> replies.len() == 1
                && replies[0]->FileContent_contents is None
            &&& result matches Ok(Some(bytes)) ==> {
                &&& vstd::utf8::valid_utf8(bytes@) ==> replies.len() == 1 && (
                replies[0]->FileContent_contents matches Some(text) && text@
                    == vstd::utf8::decode_utf8(bytes@))
                &&& !vstd::utf8::valid_utf8(bytes@) ==> {
                    &&& replies.len() == 2
                    &&& replies[0]->FileContent_contents is None
                    &&& replies[1] is Rejected
                    &&& replies[1]->reason@ == "binary file — hand-edit on the host machine"@
                }
            }
        },
        after == (ServerModel {
            host: HostModel { calls: after.host.calls, ..m.host },
            ..m
        }),
{
    crate::server::showing::unresolved_gates_wait(m.host.gates, p);
}

/// Without a gate that waits for keys there is no file to fetch and nothing to
/// edit, and the seat is told so.
pub proof fn nothing_to_edit_without_a_gate(
    m: ServerModel,
    seat: int,
    operator: OperatorId,
    path: String,
    contents: String,
    fetch: bool,
    now: nat,
    replies: Seq<ServerMsg>,
    after: ServerModel,
)
    requires
        m.handled(
            seat,
            operator,
            if fetch {
                ClientMsg::FetchFile { path }
            } else {
                ClientMsg::HandEdit { path, contents }
            },
            now,
            replies,
            after,
        ),
        forall|j: int|
            0 <= j < m.host.gates.len() ==> !crate::server::showing::waits(
                #[trigger] m.host.gates[j],
            ),
    ensures
        after == m,
        replies.len() == 1,
        replies[0] is Rejected,
        fetch ==> replies[0]->reason@ == "no active gate — nothing to fetch"@,
        !fetch ==> replies[0]->reason@ == "no active gate for hand-edit"@,
{
    crate::server::showing::unresolved_gates_wait(m.host.gates, 0);
}

/// A seat's hand-edit is made in the task that waits for review, with the seat's
/// own operator as its editor and the very bytes of the text; once it is made the
/// log says so, and where it is refused the seat is told why.
pub proof fn hand_edits_reach_the_host(
    m: ServerModel,
    seat: int,
    operator: OperatorId,
    path: String,
    contents: String,
    now: nat,
    replies: Seq<ServerMsg>,
    after: ServerModel,
    p: int,
)
    requires
        m.handled(seat, operator, ClientMsg::HandEdit { path, contents }, now, replies, after),
        0 <= p < m.host.gates.len(),
        crate::server::showing::waits(m.host.gates[p]),
        forall|j: int|
            0 <= j < p ==> !crate::server::showing::waits(#[trigger] m.host.gates[j]),
    ensures
        exists|host: HostModel, r: Result<(GateId, usize), GateHostError>|
            {
                &&& #[trigger] m.host.edit_made(
                    m.host.gates[p].hold.task_id,
                    path@,
                    vstd::utf8::encode_utf8(contents@),
                    operator,
                    host,
                    r,
                )
                &&& r is Err ==> after == (ServerModel { host, ..m }) && replies.len() == 1
                    && replies[0] is Rejected && replies[0]->reason@ == r->Err_0.words()
                &&& r is Ok ==> {
                    &&& replies.len() == 0
                    &&& after.host == (HostModel { calls: after.host.calls, ..host })
                    &&& unfinished(ServerModel { host, ..m }) ==> {
                        &&& one_line_more(
                            m.net.log,
                            after.net.log,
                            now,
                            m.net.seats[seat].label + " hand-edit "@ + path@
                                + " · applied · fresh gate"@,
                        )
                        &&& after.net == (NetModel { log: after.net.log, ..m.net })
                    }
                }
            },
{
    crate::server::showing::unresolved_gates_wait(m.host.gates, p);
    let task = m.host.gates[p].hold.task_id;
    let bytes = vstd::utf8::encode_utf8(contents@);
    let (host, r) = choose|host: HostModel, r: Result<(GateId, usize), GateHostError>| #[trigger]
        m.host.edit_made(task, path@, bytes, operator, host, r) && match r {
            Err(e) => refused(replies, e.words()) && after == (ServerModel { host, ..m }),
            Ok(_) => (ServerModel {
                net: m.net.logged(
                    now,
                    m.net.seats[seat].label + " hand-edit "@ + path@ + " · applied · fresh gate"@,
                ),
                host,
                ..m
            }).shows(replies, after, now),
        };
    if r is Ok {
        let edited = ServerModel {
            net: m.net.logged(
                now,
                m.net.seats[seat].label + " hand-edit "@ + path@ + " · applied · fresh gate"@,
            ),
            host,
            ..m
        };
        crate::server::laws::refresh_only_shows(edited, after, now);
    }
}

// ---------------------------------------------------------------------------
// Joining
// ---------------------------------------------------------------------------
/// Who is let in: a client of this version with a key of its own, straight to the
/// seat that is configured for the key; any other key only where the second seat
/// is open. Everyone else is told why not.
pub proof fn greetings_are_settled_by_key(
    cfg: ConfigModel,
    seat: String,
    operator: OperatorId,
    protocol: u32,
    a: Admission,
)
    requires
        cfg.admits(ClientMsg::Hello { seat, operator, protocol }, a),
    ensures
        ({
            let zero = forall|i: int| 0 <= i < 32 ==> #[trigger] operator.0@[i] == 0;
            let open = forall|i: int| 0 <= i < 32 ==> #[trigger] cfg.seats[1].1.0@[i] == 0;
            &&& protocol != PROTOCOL_VERSION ==> (a matches Admission::Refused(reason) && reason@
                == "protocol mismatch — update kontur (server v"@ + decimal_spec(
                PROTOCOL_VERSION as nat,
            ) + ", client v"@ + decimal_spec(protocol as nat) + ")"@)
            &&& protocol == PROTOCOL_VERSION && zero ==> (a matches Admission::Refused(reason)
                && reason@ == "invalid operator identity"@)
            &&& protocol == PROTOCOL_VERSION && !zero && operator == cfg.seats[0].1 ==> a
                == Admission::Seated(0)
            &&& protocol == PROTOCOL_VERSION && !zero && operator != cfg.seats[0].1 && operator
                == cfg.seats[1].1 ==> a == Admission::Seated(1)
            &&& protocol == PROTOCOL_VERSION && !zero && operator != cfg.seats[0].1 && operator
                != cfg.seats[1].1 && open ==> a == Admission::OwnKey(operator)
            &&& protocol == PROTOCOL_VERSION && !zero && operator != cfg.seats[0].1 && operator
                != cfg.seats[1].1 && !open ==> (a matches Admission::Refused(reason) && reason@
                == "unknown operator (client seat: "@ + seat@ + ")"@)
            &&& PROTOCOL_VERSION == 5
        }),
{
}

/// Whatever does not greet first is refused.
pub proof fn greetings_come_first(cfg: ConfigModel, msg: ClientMsg, a: Admission)
    requires
        cfg.admits(msg, a),
        !(msg is Hello),
    ensures
        a matches Admission::Refused(reason) && reason@ == "first message must be Hello"@,
{
}

/// A request to join with an own key waits for the host's approval, which is
/// asked for by the key's fingerprint, unless the seat is that key's or another's
/// already, or another key waits.
pub proof fn own_keys_wait_for_approval(
    m: ServerModel,
    operator: OperatorId,
    now: nat,
    step: JoinStep,
    after: ServerModel,
)
    requires
        unfinished(m),
        m.join_requested(operator, now, step, after),
    ensures
        m.net.seat_b_bound == Some(operator) ==> step == JoinStep::Seated(1) && after == m,
        m.net.seat_b_bound is Some && m.net.seat_b_bound != Some(operator) ==> after == m && (
        step matches JoinStep::Refused(reason) && reason@
            == "seat B is already bound to a different key"@),
        m.net.seat_b_bound is None && m.net.pending_join is Some && m.net.pending_join != Some(
            operator,
        ) ==> after == m && (step matches JoinStep::Refused(reason) && reason@
            == "another operator is already awaiting approval — try again shortly"@),
        m.net.seat_b_bound is None && (m.net.pending_join is None || m.net.pending_join == Some(
            operator,
        )) ==> {
            &&& step matches JoinStep::Waiting { fingerprint } && fingerprint@ == hex_spec(
                operator.0@.take(8),
            )
            &&& after.net.pending_join == Some(operator)
            &&& one_line_more(
                m.net.log,
                after.net.log,
                now,
                "Operator B requests approval · fingerprint "@ + hex_spec(operator.0@.take(8)),
            )
            &&& after.net == (NetModel {
                pending_join: after.net.pending_join,
                log: after.net.log,
                ..m.net
            })
            &&& host_untouched(m, after)
        },
{
}

/// The host seat's word on a key is kept for that key and logged by its
/// fingerprint; the other seat's is nothing.
pub proof fn the_host_seat_decides_on_keys(
    m: ServerModel,
    seat: int,
    operator: OperatorId,
    joining: OperatorId,
    approve: bool,
    now: nat,
    replies: Seq<ServerMsg>,
    after: ServerModel,
)
    requires
        m.valid(),
        0 <= seat < 2,
        unfinished(m),
        m.handled(
            seat,
            operator,
            ClientMsg::ResolveJoin { operator: joining, approve },
            now,
            replies,
            after,
        ),
    ensures
        replies.len() == 0,
        seat == 1 ==> after == m,
        seat == 0 ==> {
            &&& approve ==> after.join == JoinDecision::Approved(joining) && one_line_more(
                m.net.log,
                after.net.log,
                now,
                "host "@ + "approved"@ + " Operator B ("@ + hex_spec(joining.0@.take(8)) + ")"@,
            )
            &&& !approve ==> after.join == JoinDecision::Rejected(joining) && one_line_more(
                m.net.log,
                after.net.log,
                now,
                "host "@ + "rejected"@ + " Operator B ("@ + hex_spec(joining.0@.take(8)) + ")"@,
            )
            &&& after.net == (NetModel { log: after.net.log, ..m.net })
            &&& after.host == (HostModel { calls: after.host.calls, ..m.host })
            &&& after.cfg == m.cfg && after.plan_approved == m.plan_approved
        },
{
}

/// The wait for approval ends with the host's word on that very key: approved it
/// gets the free seat and a place on the roster, rejected it is told so, and
/// without a word it has waited too long. It waits no longer, and no other key's
/// wait ends.
pub proof fn waits_end_with_the_hosts_word(
    m: ServerModel,
    operator: OperatorId,
    r: Result<usize, String>,
)
    requires
        m.net.seats.len() == 2,
        m.join_settled(operator, r),
    ensures
        ({
            let after = m.after_join(operator);
            let approved = m.join == JoinDecision::Approved(operator);
            let free = m.net.seat_b_bound is None;
            &&& approved && (free || m.net.seat_b_bound == Some(operator)) ==> r == Ok::<
                usize,
                String,
            >(1)
            &&& approved && !free && m.net.seat_b_bound != Some(operator) ==> (r matches Err(reason)
                && reason@ == "seat B is already bound to a different key"@)
            &&& m.join == JoinDecision::Rejected(operator) ==> (r matches Err(reason) && reason@
                == "join rejected by host"@)
            &&& !approved && m.join != JoinDecision::Rejected(operator) ==> (r matches Err(reason)
                && reason@ == "approval timed out"@)
            &&& m.net.pending_join == Some(operator) ==> after.net.pending_join is None
            &&& m.net.pending_join != Some(operator) ==> after.net.pending_join
                == m.net.pending_join
            &&& approved && free ==> {
                &&& after.net.seat_b_bound == Some(operator)
                &&& after.net.seats.len() == 2
                &&& after.net.seats[0] == m.net.seats[0]
                &&& after.net.seats[1] == (SeatModel { operator, ..m.net.seats[1] })
                &&& m.host.ctx.operators.contains(operator) ==> after.host == m.host
                &&& !m.host.ctx.operators.contains(operator) ==> after.host == (HostModel {
                    ctx: crate::session::ContextView {
                        operators: m.host.ctx.operators.push(operator),
                        ..m.host.ctx
                    },
                    ..m.host
                })
            }
            &&& !(approved && free) ==> {
                &&& after.net.seat_b_bound == m.net.seat_b_bound
                &&& after.net.seats == m.net.seats
                &&& after.host == m.host
            }
            &&& after.net == (NetModel {
                pending_join: after.net.pending_join,
                seat_b_bound: after.net.seat_b_bound,
                seats: after.net.seats,
                ..m.net
            })
            &&& after.join == m.join && after.cfg == m.cfg && after.plan_approved
                == m.plan_approved
        }),
{
}

} // verus!

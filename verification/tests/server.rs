use kontur::agent::{steer_for, AgentRun, AgentStep, ScriptedAgent, ScriptedTask, REWORK_CAP};
use kontur::client::{handshake, Handshake, SessionClient};
use kontur::gatehost::host::GateHost;
use kontur::gatehost::model::{ClarifyDecision, ClarifyQuestion, GateFinal, PlanDecision};
use kontur::hold::HoldState;
use kontur::ids::{GateId, HandEditRef, OperatorId, TaskId};
use kontur::protocol::{
    ClientMsg, ServerMsg, WireChoice, WireFleetCard, WireGate, WirePhase, WireState,
    PROTOCOL_VERSION,
};
use kontur::sealed::VerdictStatus;
use kontur::server::model::{Admission, JoinStep};
use kontur::server::session::{SessionConfig, SessionServer};
use kontur::session::SessionContext;
use kontur::sign::{Ed25519Signer, FixedClock, Signer};
use kontur::verdict::{CastVerdict, Remedy, ReviewDepth, Verdict};
use kontur::workspace::InMemoryWorkspace;

const NOW: u64 = 0;

fn key(seed: u8) -> OperatorId {
    Ed25519Signer::from_seed([seed; 32]).operator_id()
}

fn cast(seed: u8, at: i64, gate_id: &GateId, dh: kontur::ids::Hash, v: Verdict) -> CastVerdict {
    CastVerdict::create(
        &Ed25519Signer::from_seed([seed; 32]),
        &FixedClock(at),
        gate_id,
        dh,
        v,
        ReviewDepth::FullDiff,
        None,
    )
}

fn cast_go(seed: u8, gate_id: &GateId, dh: kontur::ids::Hash) -> ClientMsg {
    ClientMsg::Cast {
        gate_id: gate_id.clone(),
        verdict: cast(seed, 1000 + seed as i64, gate_id, dh, Verdict::Go),
    }
}

fn cast_nogo(seed: u8, gate_id: &GateId, dh: kontur::ids::Hash, steer: &str) -> ClientMsg {
    let v = Verdict::NoGo(Remedy::Steer(steer.into()));
    ClientMsg::Cast {
        gate_id: gate_id.clone(),
        verdict: cast(seed, 2000, gate_id, dh, v),
    }
}

fn hello(seat: &str, operator: OperatorId) -> ClientMsg {
    ClientMsg::Hello {
        seat: seat.into(),
        operator,
        protocol: PROTOCOL_VERSION,
    }
}

fn guard_agent(contents: &str) -> ScriptedAgent {
    ScriptedAgent {
        tasks: vec![ScriptedTask {
            id: "t1".into(),
            path: "src/guard.rs".into(),
            contents: contents.into(),
        }],
    }
}

/// A session with its stations and, where there is one, its agent.
struct Rig {
    server: SessionServer<InMemoryWorkspace>,
    agent: Option<AgentRun>,
    ops: [OperatorId; 2],
}

impl Rig {
    fn new(tasks: &[&str], prompt: &str) -> Rig {
        let ops = [key(1), key(2)];
        let ctx = SessionContext::new(prompt, ops[0], "agent-01", "model", "1.0", ops.to_vec());
        let cfg = SessionConfig {
            prompt: prompt.into(),
            plan: tasks.iter().map(|t| t.to_string()).collect(),
            seats: [("A".into(), ops[0]), ("B".into(), ops[1])],
        };
        let host = GateHost::new(ctx, InMemoryWorkspace::new());
        Rig { server: SessionServer::new(host, cfg), agent: None, ops }
    }

    /// The second seat waits for an operator's own key.
    fn byo() -> Rig {
        let ops = [key(1), OperatorId([0; 32])];
        let ctx = SessionContext::new("byo", ops[0], "agent-01", "model", "1.0", vec![ops[0]]);
        let cfg = SessionConfig {
            prompt: "byo".into(),
            plan: vec!["t1".into()],
            seats: [("Operator A [Host]".into(), ops[0]), ("Operator B".into(), ops[1])],
        };
        let host = GateHost::new(ctx, InMemoryWorkspace::new());
        Rig { server: SessionServer::new(host, cfg), agent: None, ops }
    }

    fn with_agent(mut self, agent: ScriptedAgent) -> Rig {
        self.agent = Some(AgentRun::new(agent));
        self
    }

    /// Let events in and the agent work until there is something to wait for.
    fn settle(&mut self) {
        self.server.pump(NOW);
        if let Some(agent) = &mut self.agent {
            for _ in 0..64 {
                let step = agent.step(&mut self.server, NOW);
                self.server.pump(NOW);
                if !matches!(step, AgentStep::Working) {
                    break;
                }
            }
        }
    }

    fn join(&mut self, seat: usize) -> ServerMsg {
        let label = ["A", "B"][seat];
        match self.server.greet(&hello(label, self.ops[seat])) {
            Admission::Seated(s) => {
                assert_eq!(s, seat);
                let welcome = self.server.link(seat, NOW);
                self.settle();
                welcome
            }
            other => panic!("seat {seat}: {other:?}"),
        }
    }

    fn join_both(&mut self) {
        self.join(0);
        self.join(1);
    }

    fn say(&mut self, seat: usize, msg: ClientMsg) -> Vec<ServerMsg> {
        let replies = self.server.handle_client_msg(seat, self.ops[seat], msg, NOW);
        self.settle();
        replies
    }

    fn both_ready(&mut self) {
        self.say(0, ClientMsg::Ready);
        self.say(1, ClientMsg::Ready);
    }

    fn state(&self) -> &WireState {
        self.server.state()
    }

    fn gate(&self) -> &WireGate {
        self.state().gate.as_ref().expect("a gate is shown")
    }

    /// Through dispatch and the plan to the first gate.
    fn to_gate(&mut self) -> (GateId, kontur::ids::Hash) {
        self.join_both();
        self.both_ready();
        self.both_ready();
        (self.gate().gate_id.clone(), self.gate().diff_hash)
    }

    fn ws(&self) -> &InMemoryWorkspace {
        self.server.host().workspace()
    }
}

/// A session at its first gate, as most tests need it.
fn at_gate() -> (Rig, GateId, kontur::ids::Hash) {
    let mut rig = Rig::new(&["guard.rs"], "fix the thing").with_agent(guard_agent("// guard\n"));
    let (gid, dh) = rig.to_gate();
    (rig, gid, dh)
}

fn refusal(replies: &[ServerMsg]) -> String {
    for r in replies {
        if let ServerMsg::Rejected { reason } = r {
            return reason.clone();
        }
    }
    panic!("no rejection among {replies:?}")
}

fn in_dispatch(s: &WireState) -> bool {
    matches!(s.phase, WirePhase::DispatchReady { .. })
}

fn in_plan_review(s: &WireState) -> bool {
    matches!(s.phase, WirePhase::PlanReview { .. })
}

fn plan_tasks(s: &WireState) -> Vec<String> {
    match &s.phase {
        WirePhase::PlanReview { tasks } => tasks.clone(),
        other => panic!("expected PlanReview, got {other:?}"),
    }
}

/// How the session closed: records, verified, merged, abandoned.
fn closing(s: &WireState) -> (usize, bool, bool, bool) {
    match &s.phase {
        WirePhase::Closed { gates, chain_verified, merged, abandoned, .. } => {
            (*gates, *chain_verified, *merged, *abandoned)
        }
        other => panic!("expected Closed, got {other:?}"),
    }
}

// ---------------------------------------------------------------------------
// Admission
// ---------------------------------------------------------------------------

// An unknown key is held pending, its fingerprint is shown to the host, and the
// host's approval seats it.
#[test]
fn byo_join_pends_then_host_approval_seats() {
    let mut rig = Rig::byo();
    let own = key(9);
    rig.join(0);

    match rig.server.greet(&hello("B", own)) {
        Admission::OwnKey(op) => assert_eq!(op, own),
        other => panic!("{other:?}"),
    }
    match rig.server.request_join(own, NOW) {
        JoinStep::Waiting { fingerprint } => assert_eq!(fingerprint, own.fingerprint()),
        other => panic!("operator must be told it awaits approval: {other:?}"),
    }
    // The host sees the pending join on the wire, and B is NOT yet linked.
    assert_eq!(rig.state().pending_join.as_ref().unwrap().operator, own);
    assert!(!rig.state().seats[1].linked);
    assert_eq!(rig.server.join_decision(own), None);

    rig.say(0, ClientMsg::ResolveJoin { operator: own, approve: true });
    assert_eq!(rig.server.join_decision(own), Some(true));
    let seat = rig.server.settle_join(own, NOW).expect("approved");
    assert_eq!(seat, 1);
    rig.server.link(seat, NOW);

    assert!(rig.state().pending_join.is_none());
    assert!(rig.state().seats[1].linked);
    assert!(in_dispatch(rig.state()), "both linked: dispatch opens");
    assert_eq!(rig.state().seats[1].operator, own, "seat B bound to the approved key");
    assert!(
        rig.server.host().session_operators().contains(&own),
        "approved key registered in the session roster"
    );
    // A reconnect needs no second approval.
    rig.server.disconnect(1, NOW);
    match rig.server.request_join(own, NOW) {
        JoinStep::Seated(seat) => assert_eq!(seat, 1),
        other => panic!("{other:?}"),
    }
}

// While one key awaits approval, a second distinct key is rejected.
#[test]
fn byo_second_pending_key_is_rejected() {
    let mut rig = Rig::byo();
    let (x, y) = (key(9), key(8));
    rig.join(0);
    rig.server.request_join(x, NOW);
    assert_eq!(rig.state().pending_join.as_ref().unwrap().operator, x);

    match rig.server.request_join(y, NOW) {
        JoinStep::Refused(reason) => {
            assert!(reason.contains("already awaiting approval"), "got: {reason}")
        }
        other => panic!("second distinct pending key must be rejected: {other:?}"),
    }
    // X is still the (only) pending join.
    assert_eq!(rig.state().pending_join.as_ref().unwrap().operator, x);
}

// The zero key must not seat by matching an open seat's placeholder.
#[test]
fn sentinel_identity_is_rejected_at_hello() {
    let rig = Rig::byo();
    match rig.server.greet(&hello("B", OperatorId([0; 32]))) {
        Admission::Refused(reason) => assert!(reason.contains("invalid operator"), "got: {reason}"),
        other => panic!("the sentinel identity must be rejected, never seated: {other:?}"),
    }
}

// An approved own key signs verdicts that are taken.
#[test]
fn approved_byo_key_can_cast_and_satisfy() {
    let mut rig = Rig::byo().with_agent(guard_agent("// guard\n"));
    let own = key(9);
    rig.join(0);
    rig.server.request_join(own, NOW);
    rig.say(0, ClientMsg::ResolveJoin { operator: own, approve: true });
    let seat = rig.server.settle_join(own, NOW).unwrap();
    rig.server.link(seat, NOW);
    rig.ops[1] = own;

    rig.both_ready();
    rig.both_ready();
    let (gid, dh) = (rig.gate().gate_id.clone(), rig.gate().diff_hash);
    rig.say(1, cast_go(9, &gid, dh));
    rig.say(0, cast_go(1, &gid, dh));
    closing(rig.state());
    assert!(
        !rig.ws().accepted_tasks().is_empty(),
        "the approved key's verdict was taken"
    );
}

#[test]
fn byo_join_rejected_is_closed() {
    let mut rig = Rig::byo();
    let own = key(9);
    rig.join(0);
    rig.server.request_join(own, NOW);
    rig.say(0, ClientMsg::ResolveJoin { operator: own, approve: false });
    assert_eq!(rig.server.join_decision(own), Some(false));
    let reason = rig.server.settle_join(own, NOW).unwrap_err();
    assert!(reason.contains("rejected"), "got: {reason}");
    assert!(rig.state().pending_join.is_none());
    assert!(!rig.state().seats[1].linked);
}

#[test]
fn a_second_seat_approves_nobody() {
    let mut rig = Rig::byo();
    let own = key(9);
    rig.join(0);
    rig.server.request_join(own, NOW);
    let wrong = rig
        .server
        .handle_client_msg(1, own, ClientMsg::ResolveJoin { operator: own, approve: true }, NOW);
    println!("{wrong:?}");
    assert_eq!(rig.server.join_decision(own), None);
}

#[test]
fn an_unknown_key_has_no_seat() {
    let rig = Rig::new(&["t1"], "fix the thing");
    match rig.server.greet(&hello("A", key(7))) {
        Admission::Refused(reason) => assert!(!reason.is_empty()),
        other => panic!("{other:?}"),
    }
    match rig.server.greet(&ClientMsg::Ready) {
        Admission::Refused(reason) => assert_eq!(reason, "first message must be Hello"),
        other => panic!("{other:?}"),
    }
}

// A client on a different protocol version is told which versions there are.
#[test]
fn protocol_mismatch_rejected_at_hello() {
    let rig = Rig::new(&["t1"], "fix the thing");
    let old = ClientMsg::Hello { seat: "A".into(), operator: key(1), protocol: 0 };
    match rig.server.greet(&old) {
        Admission::Refused(reason) => {
            assert!(reason.contains("protocol mismatch"), "got: {reason}");
            assert!(reason.contains("update kontur"), "got: {reason}");
        }
        other => panic!("expected a refusal: {other:?}"),
    }
}

// ---------------------------------------------------------------------------
// The arc of a session
// ---------------------------------------------------------------------------

#[test]
fn two_operators_full_arc() {
    let mut rig = Rig::new(&["guard.rs"], "fix the thing").with_agent(guard_agent("// guard\n"));
    rig.join_both();
    assert!(in_dispatch(rig.state()));
    rig.both_ready();
    assert!(in_plan_review(rig.state()));
    rig.both_ready();
    assert_eq!(rig.state().phase, WirePhase::Executing);

    let (gid, dh) = (rig.gate().gate_id.clone(), rig.gate().diff_hash);
    rig.say(0, cast_go(1, &gid, dh));
    assert!(!rig.gate().keys.is_empty(), "A's key is sealed");
    rig.say(1, cast_go(2, &gid, dh));

    let (_, chain_verified, merged, _) = closing(rig.state());
    assert!(chain_verified, "chain should be verified");
    assert!(merged, "session should have merged successfully");
    let msg = rig.ws().merged_message().expect("should have a merge message");
    assert!(
        msg.contains("Audit-chain: sha256:"),
        "merge message must anchor the audit chain head; got:\n{msg}"
    );
    assert!(msg.contains("Reviewed-by: A"), "merge message should contain A");
    assert!(msg.contains("Reviewed-by: B"), "merge message should contain B");
}

#[test]
fn nogo_routes_remedy_and_agent_reworks() {
    let (mut rig, gid, dh) = at_gate();
    rig.say(0, cast_go(1, &gid, dh));
    rig.say(1, cast_nogo(2, &gid, dh, "add caching"));

    // The agent reworks and opens a second gate.
    let (again, dh2) = (rig.gate().gate_id.clone(), rig.gate().diff_hash);
    assert_ne!(again, gid);
    let reworked = rig.ws().file_contents(&TaskId("t1".into()), "src/guard.rs").unwrap();
    assert!(String::from_utf8(reworked).unwrap().contains("add caching"));

    rig.say(0, cast_go(1, &again, dh2));
    rig.say(1, cast_go(2, &again, dh2));
    assert_eq!(closing(rig.state()).0, 2, "should have 2 audit records");
}

// A seat cannot cast a verdict signed by a key other than its own.
#[test]
fn cast_with_foreign_identity_is_rejected() {
    let (mut rig, gid, dh) = at_gate();
    let replies = rig.say(0, cast_go(2, &gid, dh));
    assert!(refusal(&replies).contains("identity"));
    assert!(rig.gate().keys.is_empty());
}

#[test]
fn ping_is_answered_with_pong() {
    let mut rig = Rig::new(&["t1"], "fix the thing");
    rig.join(0);
    assert_eq!(rig.say(0, ClientMsg::Ping), vec![ServerMsg::Pong]);
}

#[test]
fn disconnect_parks_and_reconnect_resumes() {
    let (mut rig, gid, dh) = at_gate();
    rig.server.disconnect(1, NOW);
    assert!(rig.state().seats.iter().any(|s| s.label == "B" && !s.linked));

    // A casts alone: nothing closes, and one sealed key is recorded.
    rig.say(0, cast_go(1, &gid, dh));
    assert!(!matches!(rig.state().phase, WirePhase::Closed { .. }));
    assert_eq!(rig.gate().keys.len(), 1, "exactly one key (A's, Sealed) should be recorded");
    assert_eq!(rig.gate().keys[0].status, VerdictStatus::Sealed);

    rig.join(1);
    assert!(rig.state().seats.iter().any(|s| s.label == "B" && s.linked));
    rig.say(1, cast_go(2, &gid, dh));
    closing(rig.state());
}

// However often the agent says that it is done, the session closes once.
#[test]
fn finalize_is_idempotent_under_concurrent_refresh() {
    let mut rig = Rig::new(&["dummy"], "fix the thing");
    rig.join_both();
    rig.both_ready();
    rig.both_ready();
    assert_eq!(rig.state().phase, WirePhase::Executing);

    rig.server.agent_done(NOW);
    rig.server.agent_done(NOW);

    closing(rig.state());
    assert!(rig.ws().merged_message().is_some(), "merge message should be set");
    let closed = rig.state().log.iter().filter(|l| l.contains("session closed")).count();
    assert_eq!(closed, 1, "one entry expected: {:?}", rig.state().log);
}

#[test]
fn abandon_mid_gate_discards_and_closes() {
    let (mut rig, _gid, _dh) = at_gate();
    rig.say(0, ClientMsg::Abandon);

    let (_, _, merged, abandoned) = closing(rig.state());
    assert!(abandoned, "phase must be abandoned=true");
    assert!(!merged, "nothing should be merged on abandon");
    assert!(rig.ws().merged_message().is_none());
    assert!(
        !rig.ws().discarded_tasks().is_empty(),
        "pending task must have been discarded"
    );
    assert!(
        rig.server.host().verify_audit().is_ok(),
        "audit chain must remain intact after abandon"
    );
    assert!(
        rig.state().log.iter().any(|l| l.contains("abandoned")),
        "log must mention abandon; log = {:?}",
        rig.state().log
    );
}

#[test]
fn abandon_after_close_is_ignored() {
    let (mut rig, gid, dh) = at_gate();
    rig.say(0, cast_go(1, &gid, dh));
    rig.say(1, cast_go(2, &gid, dh));
    closing(rig.state());

    rig.say(0, ClientMsg::Abandon);
    let (_, _, merged, abandoned) = closing(rig.state());
    assert!(!abandoned, "phase must not flip to abandoned after normal close");
    assert!(merged, "session must remain merged=true");
    let lines = rig.state().log.iter().filter(|l| l.contains("abandoned")).count();
    assert_eq!(lines, 0, "no abandon log line expected; log = {:?}", rig.state().log);
}

// What an agent does through the host shows without a word from the operators.
#[test]
fn external_agent_activity_streams_without_operator_action() {
    let mut rig = Rig::new(&["t1"], "fix the thing");
    rig.join(0);
    let task = TaskId("t1".into());
    let host = rig.server.host_mut();
    host.record_write("agent-01", &task, "main.rs", b"fn main() {}\n").unwrap();
    host.begin_task_gate("agent-01", task, 0).unwrap();
    rig.server.pump(NOW);

    assert!(rig.state().gate.is_some(), "gate must be present");
    assert!(
        rig.state().log.iter().any(|l| l.contains("wrote")),
        "log must contain a 'wrote' line; log = {:?}",
        rig.state().log
    );
}

// A list without questions is no exchange, and is told apart beforehand.
#[test]
fn an_empty_question_list_cannot_be_taken_in() {
    let mut rig = Rig::new(&["t1"], "fix the thing");
    assert!(rig.server.can_pump());
    rig.server.host_mut().ask_clarification("agent-01", vec![]).unwrap();
    assert!(!rig.server.can_pump());
}

#[test]
fn post_abandon_cast_receives_rejected() {
    let (mut rig, gid, dh) = at_gate();
    rig.say(0, ClientMsg::Abandon);
    closing(rig.state());
    let replies = rig.say(0, cast_go(1, &gid, dh));
    assert!(refusal(&replies).contains("abandoned"));
}

// ---------------------------------------------------------------------------
// The prompt
// ---------------------------------------------------------------------------

#[test]
fn set_prompt_updates_wire_and_resets_ready() {
    let mut rig = Rig::new(&["t1"], "fix the thing");
    rig.join_both();
    rig.say(0, ClientMsg::Ready);
    assert!(rig.state().seats[0].ready);

    rig.say(1, ClientMsg::SetPrompt { prompt: "new prompt text".into() });
    assert!(!rig.state().seats[0].ready, "A ready must be reset after prompt edit");
    assert!(!rig.state().seats[1].ready, "B ready must be reset after prompt edit");
    assert_eq!(
        rig.state().phase,
        WirePhase::DispatchReady { prompt: "new prompt text".into() }
    );
    assert_eq!(rig.state().prompt, "new prompt text");
    assert_eq!(rig.server.session_prompt(), "new prompt text");
}

#[test]
fn set_prompt_after_dispatch_rejected() {
    let mut rig = Rig::new(&["t1"], "fix the thing");
    rig.join_both();
    rig.both_ready();
    assert!(in_plan_review(rig.state()));
    let replies = rig.say(0, ClientMsg::SetPrompt { prompt: "too late".into() });
    assert!(refusal(&replies).contains("locked"));
    assert_eq!(rig.server.session_prompt(), "fix the thing");
}

#[test]
fn set_prompt_empty_rejected() {
    let mut rig = Rig::new(&["t1"], "fix the thing");
    rig.join_both();
    let replies = rig.say(0, ClientMsg::SetPrompt { prompt: "   ".into() });
    assert!(refusal(&replies).contains("empty"));
}

// A draft shows as it is typed, resets both ready flags and is not logged.
#[test]
fn prompt_draft_syncs_live_and_is_unlogged() {
    let mut rig = Rig::new(&["t1"], "");
    rig.join_both();
    rig.say(1, ClientMsg::Ready);
    assert!(rig.state().seats.iter().any(|s| s.ready));

    for draft in ["f", "fi", "fix"] {
        rig.say(0, ClientMsg::PromptDraft { prompt: draft.into() });
    }
    assert_eq!(rig.state().phase, WirePhase::DispatchReady { prompt: "fix".into() });
    assert!(
        rig.state().seats.iter().all(|s| !s.ready),
        "draft must reset both ready flags"
    );
    assert!(
        !rig.state().log.iter().any(|l| l.contains("prompt")),
        "drafts must not be logged; log: {:?}",
        rig.state().log
    );

    // Commit and dispatch, then a late draft is refused.
    rig.say(0, ClientMsg::SetPrompt { prompt: "fix the thing".into() });
    rig.both_ready();
    assert!(in_plan_review(rig.state()));
    rig.say(1, ClientMsg::PromptDraft { prompt: "too late".into() });
    assert!(!in_dispatch(rig.state()), "phase must stay past dispatch");
    assert_eq!(rig.server.session_prompt(), "fix the thing");
}

#[test]
fn dispatch_refused_while_prompt_empty() {
    let mut rig = Rig::new(&["t1"], "");
    rig.join_both();
    rig.both_ready();
    assert!(
        rig.state().log.iter().any(|l| l.contains("prompt is empty")),
        "empty-prompt refusal logged"
    );
    assert!(in_dispatch(rig.state()), "phase must stay DispatchReady on blank prompt");
    assert!(
        rig.state().seats.iter().all(|s| !s.ready),
        "both ready flags must reset on refusal"
    );

    rig.say(0, ClientMsg::SetPrompt { prompt: "fix the thing".into() });
    rig.both_ready();
    assert!(in_plan_review(rig.state()), "dispatch proceeds once a prompt exists");
}

// ---------------------------------------------------------------------------
// Questions, presence and notes
// ---------------------------------------------------------------------------

#[test]
fn clarification_resolves_when_both_answer() {
    let mut rig = Rig::new(&["t1"], "fix the thing");
    rig.join_both();
    assert!(in_dispatch(rig.state()));
    let ticket = rig
        .server
        .host_mut()
        .ask_clarification(
            "agent-01",
            vec![ClarifyQuestion {
                prompt: "target db?".into(),
                options: vec!["postgres".into(), "sqlite".into()],
            }],
        )
        .unwrap();
    rig.server.pump(NOW);
    match &rig.state().phase {
        WirePhase::Clarify { questions } => {
            assert_eq!(questions.len(), 1);
            assert_eq!(questions[0].options, vec!["postgres", "sqlite"]);
            assert!(questions[0].allows_custom);
        }
        other => panic!("expected Clarify phase, got {other:?}"),
    }

    // Both operators pick the first option: agreement.
    for seat in [0, 1] {
        rig.say(seat, ClientMsg::Answer { question: 0, choice: WireChoice::Option(0) });
    }
    assert_eq!(
        rig.server.host().clarify_decision(ticket),
        ClarifyDecision::Answered(vec![vec!["postgres".to_string()]])
    );
    assert!(in_plan_review(rig.state()), "back to PlanReview after clarification");
}

#[test]
fn afk_toggles_on_wire_and_clears_on_disconnect() {
    let mut rig = Rig::new(&["t1"], "fix the thing");
    rig.join_both();
    rig.say(1, ClientMsg::SetAfk { afk: true });
    assert!(rig.state().seats[1].afk, "B afk visible");
    assert!(!rig.state().seats[1].ready, "AFK must not touch readiness");
    assert!(!rig.state().seats[0].afk, "A is not AFK");

    // B drops: a returning operator starts present.
    rig.server.disconnect(1, NOW);
    assert!(!rig.state().seats[1].linked && !rig.state().seats[1].afk);
}

#[test]
fn discuss_note_appears_on_gate() {
    let (mut rig, gid, _dh) = at_gate();
    rig.say(
        1,
        ClientMsg::Discuss { gate_id: gid, text: "  is this covered by a test?  ".into() },
    );
    let note = &rig.gate().discuss[0];
    assert_eq!(note.who, "B");
    assert_eq!(note.text, "is this covered by a test?", "trimmed");
}

#[test]
fn claim_marks_gate_and_toggles_off() {
    let (mut rig, gid, _dh) = at_gate();
    rig.say(0, ClientMsg::Claim { gate_id: gid.clone() });
    assert_eq!(rig.gate().claimed_by.as_deref(), Some("A"));
    // A claims again: released.
    rig.say(0, ClientMsg::Claim { gate_id: gid });
    assert!(rig.gate().claimed_by.is_none());
}

#[test]
fn a_dropped_seat_holds_no_claim() {
    let (mut rig, gid, _dh) = at_gate();
    rig.say(1, ClientMsg::Claim { gate_id: gid });
    assert_eq!(rig.gate().claimed_by.as_deref(), Some("B"));
    rig.server.disconnect(1, NOW);
    assert!(rig.gate().claimed_by.is_none());
}

// ---------------------------------------------------------------------------
// Files
// ---------------------------------------------------------------------------

// After a hand-edit both stations see the fresh gate over the combined diff.
#[test]
fn hand_edit_realtime_diff_sync() {
    let mut rig =
        Rig::new(&["guard.rs"], "fix the thing").with_agent(guard_agent("// original\n"));
    let (original, _dh) = rig.to_gate();

    let edit = "// edited by hand\npub fn guard() { unreachable!() }\n";
    rig.say(
        0,
        ClientMsg::HandEdit { path: "src/guard.rs".into(), contents: edit.into() },
    );

    assert_ne!(rig.gate().gate_id, original);
    assert!(rig.gate().file_diffs.iter().any(|fd| fd.diff.contains("edited by hand")));
    let pending = rig.server.host().pending_gates();
    assert_eq!(pending.len(), 1, "only the fresh hand-edit one must remain pending");
    assert_ne!(pending[0].gate_id, original, "a fresh gate must have a new id");
    let bytes = rig
        .ws()
        .file_contents(&TaskId("t1".into()), "src/guard.rs")
        .expect("file must be recorded");
    assert_eq!(bytes, edit.as_bytes().to_vec());
}

#[test]
fn fetch_file_roundtrip() {
    let mut rig = Rig::new(&["t1"], "fix the thing");
    let task = TaskId("t1".into());
    let host = rig.server.host_mut();
    host.record_write("agent-01", &task, "main.rs", b"fn main() {}\n").unwrap();
    host.begin_task_gate("agent-01", task.clone(), 0).unwrap();
    rig.join(0);
    assert!(rig.state().gate.is_some(), "gate visible");

    assert_eq!(
        rig.say(0, ClientMsg::FetchFile { path: "main.rs".into() }),
        vec![ServerMsg::FileContent {
            path: "main.rs".into(),
            contents: Some("fn main() {}\n".into()),
        }]
    );
    assert_eq!(
        rig.say(0, ClientMsg::FetchFile { path: "does_not_exist.rs".into() }),
        vec![ServerMsg::FileContent { path: "does_not_exist.rs".into(), contents: None }]
    );
    assert_eq!(
        rig.ws().file_contents(&task, "main.rs"),
        Some(b"fn main() {}\n".to_vec())
    );
}

// Bytes that are not text are not shown as text.
#[test]
fn fetched_bytes_must_be_text() {
    let mut rig = Rig::new(&["t1"], "fix the thing");
    let task = TaskId("t1".into());
    let host = rig.server.host_mut();
    host.record_write("agent-01", &task, "logo.png", &[0xff, 0xfe]).unwrap();
    host.record_write("agent-01", &task, "ü.txt", "grün\n".as_bytes()).unwrap();
    host.begin_task_gate("agent-01", task, 0).unwrap();
    rig.join(0);
    let replies = rig.say(0, ClientMsg::FetchFile { path: "logo.png".into() });
    assert_eq!(refusal(&replies), "binary file — hand-edit on the host machine");
    assert_eq!(
        rig.say(0, ClientMsg::FetchFile { path: "ü.txt".into() }),
        vec![ServerMsg::FileContent { path: "ü.txt".into(), contents: Some("grün\n".into()) }]
    );
}

// ---------------------------------------------------------------------------
// The plan
// ---------------------------------------------------------------------------

#[test]
fn steer_plan_outside_plan_review_rejected() {
    let mut rig = Rig::new(&["t1"], "fix the thing");
    rig.join_both();
    rig.both_ready();
    rig.both_ready();
    assert_eq!(rig.state().phase, WirePhase::Executing);
    let replies = rig.say(0, ClientMsg::SteerPlan { steer: "revise".into() });
    assert!(refusal(&replies).contains("locked"));
}

#[test]
fn empty_steer_rejected() {
    let mut rig = Rig::new(&["t1"], "fix the thing");
    rig.join_both();
    rig.both_ready();
    let replies = rig.say(0, ClientMsg::SteerPlan { steer: "   ".into() });
    assert!(refusal(&replies).contains("empty"));
}

// A steer resets both ready flags and withdraws the plan.
#[test]
fn steer_plan_resets_ready_and_clears_plan() {
    let mut rig = Rig::new(&["config-task"], "fix the thing");
    rig.join_both();
    rig.both_ready();
    assert!(in_plan_review(rig.state()));
    let ticket = rig
        .server
        .host_mut()
        .propose_plan("agent-01", vec!["agent-task-1".into(), "agent-task-2".into()])
        .unwrap();
    rig.server.pump(NOW);
    assert!(plan_tasks(rig.state()).contains(&"agent-task-1".to_string()));

    rig.say(0, ClientMsg::Ready);
    assert!(rig.state().seats[0].ready);
    rig.say(1, ClientMsg::SteerPlan { steer: "split task 2".into() });

    assert!(!rig.state().seats[0].ready, "seat A ready must reset after steer");
    assert!(
        !plan_tasks(rig.state()).contains(&"agent-task-1".to_string()),
        "agent plan must be withdrawn after steer"
    );
    // The host keeps the plan that was proposed, and the proposer is told.
    assert!(rig.server.host().proposed_plan().is_some());
    assert_eq!(
        rig.server.host().plan_decision(ticket),
        PlanDecision::Steered("split task 2".to_string())
    );
}

// What both seats signed is what the agent gets.
#[test]
fn consent_integrity_editplan_host_proposed_plan_matches_edited_list() {
    let mut rig = Rig::new(&["config-only"], "fix the thing");
    rig.join_both();
    rig.both_ready();
    rig.server
        .host_mut()
        .propose_plan("agent-01", vec!["task-alpha".into(), "task-beta".into()])
        .unwrap();
    rig.server.pump(NOW);
    assert!(plan_tasks(rig.state()).contains(&"task-alpha".to_string()));

    let edited: Vec<String> = vec!["task-beta".into(), "task-alpha-modified".into()];
    rig.say(0, ClientMsg::EditPlan { tasks: edited.clone() });
    assert!(plan_tasks(rig.state()).contains(&"task-alpha-modified".to_string()));
    assert!(rig.state().seats.iter().all(|s| !s.ready));

    rig.both_ready();
    assert_eq!(rig.state().phase, WirePhase::Executing);
    assert!(rig.server.plan_approved());
    assert_eq!(rig.server.host().proposed_plan(), Some(edited));
}

#[test]
fn consent_integrity_fallback_cfg_plan_stored_in_host() {
    let mut rig = Rig::new(&["scripted-task-1", "scripted-task-2"], "fix the thing");
    rig.join_both();
    rig.both_ready();
    assert_eq!(
        rig.server.host().proposed_plan(),
        None,
        "no agent proposal expected before approval"
    );
    rig.both_ready();
    assert_eq!(rig.state().phase, WirePhase::Executing);
    assert_eq!(
        rig.server.host().proposed_plan(),
        Some(vec!["scripted-task-1".to_string(), "scripted-task-2".to_string()])
    );
}

#[test]
fn consent_integrity_wire_tasks_match_editplan_before_executing() {
    let mut rig = Rig::new(&["config-fallback"], "fix the thing");
    rig.join_both();
    rig.both_ready();
    rig.server
        .host_mut()
        .propose_plan("agent-01", vec!["a".into(), "b".into()])
        .unwrap();
    rig.server.pump(NOW);
    assert!(plan_tasks(rig.state()).contains(&"a".to_string()));

    let edited: Vec<String> = vec!["b".into(), "a-modified".into()];
    rig.say(0, ClientMsg::EditPlan { tasks: edited.clone() });
    assert_eq!(
        plan_tasks(rig.state()),
        edited,
        "wire tasks before approval must be the edited list"
    );
    rig.both_ready();
    assert_eq!(rig.state().phase, WirePhase::Executing);
    assert_eq!(rig.server.host().proposed_plan(), Some(edited));
}

#[test]
fn a_plan_is_edited_only_in_review() {
    let mut rig = Rig::new(&["t1"], "fix the thing");
    rig.join_both();
    let early = rig.say(0, ClientMsg::EditPlan { tasks: vec!["x".into()] });
    assert!(!refusal(&early).is_empty());
    rig.both_ready();
    rig.both_ready();
    let late = rig.say(0, ClientMsg::EditPlan { tasks: vec!["x".into()] });
    assert!(refusal(&late).contains("locked"));
}

// ---------------------------------------------------------------------------
// Stations
// ---------------------------------------------------------------------------

// Two stations over the messages that a station sends, and a second cast of one
// operator.
#[test]
fn loopback_full_arc_and_duplicate_rejected() {
    let mut rig = Rig::new(&["auth.rs"], "add auth gate").with_agent(ScriptedAgent {
        tasks: vec![ScriptedTask {
            id: "t1".into(),
            path: "src/auth.rs".into(),
            contents: "// auth\npub fn auth() {}\n".into(),
        }],
    });
    let a = SessionClient::new([1; 32]);
    let b = SessionClient::new([2; 32]);
    assert_eq!(a.operator(), rig.ops[0]);
    assert_eq!(a.hello("A"), hello("A", rig.ops[0]));
    for seat in [0, 1] {
        match handshake(Some(rig.join(seat))) {
            Handshake::Seated => {}
            other => panic!("{other:?}"),
        }
    }
    assert!(in_dispatch(rig.state()));
    rig.say(0, a.ready());
    rig.say(1, b.ready());
    assert!(in_plan_review(rig.state()));
    rig.say(0, a.ready());
    rig.say(1, b.ready());
    assert_eq!(rig.state().phase, WirePhase::Executing);

    let first = a.cast_go(rig.gate(), ReviewDepth::FullDiff);
    let again = a.cast_go(rig.gate(), ReviewDepth::FullDiff);
    rig.say(0, first);
    // B must see A's key as Sealed before B votes.
    assert!(rig.gate().keys.iter().any(|k| k.status == VerdictStatus::Sealed));
    let second = b.cast_go(rig.gate(), ReviewDepth::FullDiff);
    rig.say(1, second);

    assert!(closing(rig.state()).1, "chain must be verified after close");

    // A casts again on the same, now closed, gate.
    let replies = rig.say(0, again);
    assert!(!refusal(&replies).is_empty(), "Rejected reason should not be empty");
}

#[test]
fn stations_say_what_is_asked() {
    let c = SessionClient::new([1; 32]);
    assert_eq!(c.abandon(), ClientMsg::Abandon);
    assert_eq!(c.set_prompt("p"), ClientMsg::SetPrompt { prompt: "p".into() });
    assert_eq!(c.steer_plan("s"), ClientMsg::SteerPlan { steer: "s".into() });
    assert_eq!(c.fetch_file("f"), ClientMsg::FetchFile { path: "f".into() });
    assert_eq!(
        c.edit_plan(&vec!["x".to_string()]),
        ClientMsg::EditPlan { tasks: vec!["x".into()] }
    );
    assert_eq!(
        c.hand_edit("p", "c"),
        ClientMsg::HandEdit { path: "p".into(), contents: "c".into() }
    );
    match handshake(None) {
        Handshake::Closed(m) => assert_eq!(m, "server closed connection before Welcome"),
        other => panic!("{other:?}"),
    }
    match handshake(Some(ServerMsg::Rejected { reason: "no".into() })) {
        Handshake::Refused(m) => assert_eq!(m, "no"),
        other => panic!("{other:?}"),
    }
    match handshake(Some(ServerMsg::Pong)) {
        Handshake::Early(ServerMsg::Pong) => {}
        other => panic!("{other:?}"),
    }
}

#[test]
fn a_no_go_carries_the_steer_it_was_given() {
    let (mut rig, gid, _dh) = at_gate();
    let b = SessionClient::new([2; 32]);
    match b.cast_nogo(rig.gate(), "split it", ReviewDepth::FullDiff) {
        ClientMsg::Cast { gate_id, verdict } => {
            assert_eq!(gate_id, gid);
            assert_eq!(verdict.verdict, Verdict::NoGo(Remedy::Steer("split it".into())));
            assert!(verdict.verify_signature(&gid, rig.gate().diff_hash));
            rig.say(1, ClientMsg::Cast { gate_id, verdict });
        }
        other => panic!("{other:?}"),
    }
    assert_eq!(rig.gate().keys.len(), 1);
}

// ---------------------------------------------------------------------------
// The scripted agent and its log
// ---------------------------------------------------------------------------

#[test]
fn the_demo_agent_does_two_tasks() {
    let agent = ScriptedAgent::demo();
    assert_eq!(agent.tasks.len(), 2);
    let mut rig = Rig::new(&["guard.rs", "tokens.rs"], "fix the thing").with_agent(agent);
    let (gid, dh) = rig.to_gate();
    rig.say(0, cast_go(1, &gid, dh));
    rig.say(1, cast_go(2, &gid, dh));
    // One task at a time: the second one is up only now.
    let (next, dh2) = (rig.gate().gate_id.clone(), rig.gate().diff_hash);
    assert_ne!(next, gid);
    rig.say(0, cast_go(1, &next, dh2));
    rig.say(1, cast_go(2, &next, dh2));
    assert_eq!(closing(rig.state()), (2, true, true, false));
}

#[test]
fn rework_ends_at_the_cap() {
    let (mut rig, mut gid, mut dh) = at_gate();
    let mut rounds: u32 = 0;
    while rig.state().gate.is_some() && rounds < 10 {
        rig.say(0, cast_go(1, &gid, dh));
        rig.say(1, cast_nogo(2, &gid, dh, "again"));
        rounds += 1;
        if let Some(g) = &rig.state().gate {
            gid = g.gate_id.clone();
            dh = g.diff_hash;
        }
    }
    assert_eq!(rounds, REWORK_CAP + 1);
}

#[test]
fn steers_for_the_agent() {
    let last = |remedy| {
        steer_for(Some(GateFinal { state: HoldState::Blocked, remedy, reviewed_by: vec![] }))
    };
    assert_eq!(last(Some(Remedy::Steer("cache it".into()))), "cache it");
    assert_eq!(last(Some(Remedy::HandEdit(HandEditRef("e1".into())))), "hand-edit");
    assert_eq!(last(None), "rework");
    assert_eq!(steer_for(None), "rework");
}

#[test]
fn the_log_keeps_the_last_eight_lines() {
    let mut rig = Rig::new(&["t1"], "fix the thing");
    for i in 0..12 {
        rig.server.agent_log(format!("line {i}"), 61 + i);
    }
    let log = &rig.state().log;
    assert_eq!(log.len(), 8);
    assert_eq!(log[0], "01:05 line 4");
    assert_eq!(log[7], "01:12 line 11");
}

#[test]
fn fleet_cards_are_replaced_by_id() {
    let mut rig = Rig::new(&["t1"], "fix the thing");
    let card = |status: &str| WireFleetCard {
        id: "agent-01".into(),
        status: status.into(),
        needs_signoff: false,
    };
    rig.server.agent_status(card("working"), NOW);
    rig.server.agent_status(card("done"), NOW);
    assert_eq!(rig.state().fleet.len(), 1);
    assert_eq!(rig.state().fleet[0].status, "done");
}

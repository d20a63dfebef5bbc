use kontur::audit::chain::{verify_chain, AuditEntry};
use kontur::error::{CastRejected, GateHostError, WorkspaceError};
use kontur::gatehost::host::GateHost;
use kontur::gatehost::model::{
    ClarifyDecision, ClarifyQuestion, HostEvent, PlanDecision, SplitDecision, SplitStream,
};
use kontur::hold::HoldState;
use kontur::ids::{GateId, OperatorId, TaskId};
use kontur::policy::{GatePolicy, Independence};
use kontur::protocol::{ClientMsg, WirePhase};
use kontur::provenance::build_provenance;
use kontur::sealed::VerdictStatus;
use kontur::server::session::{SessionConfig, SessionServer};
use kontur::session::SessionContext;
use kontur::sign::{Ed25519Signer, FixedClock, Signer};
use kontur::verdict::{CastVerdict, Remedy, ReviewDepth, Verdict};
use kontur::workspace::{diff_hash, CommandOutput, FrozenDiff, InMemoryWorkspace, Workspace};

fn operator(seed: u8) -> OperatorId {
    Ed25519Signer::from_seed([seed; 32]).operator_id()
}

fn ctx() -> SessionContext {
    let ops = vec![operator(1), operator(2)];
    SessionContext::new("do the thing", ops[0], "agent-01", "model", "1.0", ops)
}

fn pragmatic() -> SessionContext {
    ctx().with_policy(GatePolicy {
        independence: Independence::Pragmatic,
        ..GatePolicy::default()
    })
}

fn t1() -> TaskId {
    TaskId("t1".into())
}

/// A workspace in which the task has one file.
fn ws_with(contents: &[u8]) -> InMemoryWorkspace {
    let mut ws = InMemoryWorkspace::new();
    ws.apply_write(&t1(), "a.rs", contents).unwrap();
    ws
}

fn memory_host() -> GateHost<InMemoryWorkspace> {
    GateHost::new(ctx(), InMemoryWorkspace::new())
}

fn verdict(seed: u8, at: i64, gate_id: &GateId, dh: kontur::ids::Hash, v: Verdict) -> CastVerdict {
    CastVerdict::create(
        &Ed25519Signer::from_seed([seed; 32]),
        &FixedClock(at + seed as i64),
        gate_id,
        dh,
        v,
        ReviewDepth::FullDiff,
        None,
    )
}

fn go_verdict(seed: u8, gate_id: &GateId, dh: kontur::ids::Hash) -> CastVerdict {
    verdict(seed, 1000, gate_id, dh, Verdict::Go)
}

fn nogo_verdict(seed: u8, gate_id: &GateId, dh: kontur::ids::Hash, steer: &str) -> CastVerdict {
    verdict(seed, 2000, gate_id, dh, Verdict::NoGo(Remedy::Steer(steer.into())))
}

/// A host with one gate open over `a.rs`, which holds one line.
fn open_a_gate() -> (GateHost<InMemoryWorkspace>, GateId, kontur::ids::Hash) {
    let mut ws = ws_with(b"x\n");
    let frozen = ws.freeze_task_diff(&t1()).unwrap();
    let dh = diff_hash(&frozen);
    let prov = build_provenance(&ctx(), &t1(), dh, &frozen, 100);
    let mut host = GateHost::new(ctx(), ws);
    let (gid, _ticket) = host.open_gate("agent-01", t1(), prov);
    (host, gid, dh)
}

/// An in-memory workspace that claims a durable audit home.
struct AuditableWs {
    inner: InMemoryWorkspace,
    dir: String,
    saved: Vec<(String, Vec<AuditEntry>)>,
}

impl Workspace for AuditableWs {
    fn assign_task(&mut self, t: &TaskId, agent: &str) {
        self.inner.assign_task(t, agent)
    }
    fn apply_write(&mut self, t: &TaskId, p: &str, c: &[u8]) -> Result<(), WorkspaceError> {
        self.inner.apply_write(t, p, c)
    }
    fn run_command(&mut self, t: &TaskId, c: &str, w: &str) -> Result<CommandOutput, WorkspaceError> {
        self.inner.run_command(t, c, w)
    }
    fn freeze_task_diff(&mut self, t: &TaskId) -> Result<FrozenDiff, WorkspaceError> {
        self.inner.freeze_task_diff(t)
    }
    fn accept_task(&mut self, t: &TaskId) -> Result<(), WorkspaceError> {
        self.inner.accept_task(t)
    }
    fn discard_task(&mut self, t: &TaskId) -> Result<(), WorkspaceError> {
        self.inner.discard_task(t)
    }
    fn merge_session(&mut self, m: &str) -> Result<(), WorkspaceError> {
        self.inner.merge_session(m)
    }
    fn read_file(&mut self, t: &TaskId, p: &str) -> Result<Option<Vec<u8>>, WorkspaceError> {
        self.inner.read_file(t, p)
    }
    fn audit_dir(&self) -> Option<String> {
        Some(self.dir.clone())
    }
    fn write_audit(&mut self, dir: &str, name: &str, records: &[AuditEntry]) -> Result<String, String> {
        let path = format!("{dir}/{name}");
        self.saved.push((path.clone(), records.to_vec()));
        Ok(path)
    }
}

// A gate is attributed to the agent that opened it.
#[test]
fn gate_carries_its_agent() {
    let mut host = GateHost::new(ctx(), ws_with(b"x\n"));
    host.begin_task_gate("agent-07", t1(), 0).unwrap();
    let pending = host.pending_gates();
    assert_eq!(pending.len(), 1);
    assert_eq!(pending[0].agent, "agent-07", "gate must carry its opening agent");
}

// A resolved gate is written out under the chain's head, and what is written
// verifies.
#[test]
fn persist_audit_roundtrip_and_verify() {
    let mut inner = ws_with(b"x\n");
    let frozen = inner.freeze_task_diff(&t1()).unwrap();
    let dh = diff_hash(&frozen);
    let prov = build_provenance(&ctx(), &t1(), dh, &frozen, 100);
    let ws = AuditableWs { inner, dir: "/audit".into(), saved: vec![] };
    let mut host = GateHost::new(ctx(), ws);

    // Empty chain: nothing to persist.
    assert!(host.persist_audit().is_none());

    let (gid, _ticket) = host.open_gate("agent-01", t1(), prov);
    host.submit_verdict(&gid, go_verdict(1, &gid, dh)).unwrap();
    host.submit_verdict(&gid, go_verdict(2, &gid, dh)).unwrap();

    let path = host
        .persist_audit()
        .expect("workspace has an audit dir")
        .expect("write succeeds");
    let head = host.audit_head();
    let head_hex: String = head.0[..8].iter().map(|b| format!("{b:02x}")).collect();
    assert_eq!(path, format!("/audit/audit-{head_hex}.json"));

    let records = host.workspace().saved[0].1.clone();
    assert_eq!(records.len(), 1);
    verify_chain(&records).expect("reloaded chain must verify");
    // Tamper-evidence survives the round-trip: change a record, break the chain.
    let mut tampered = records.clone();
    match &mut tampered[0] {
        AuditEntry::Merge(r) => r.core.provenance.loc += 1,
        other => panic!("expected a merge record, got {other:?}"),
    }
    assert!(verify_chain(&tampered).is_err());
}

// An in-memory workspace has no audit home: persist is a clean no-op.
#[test]
fn persist_audit_none_for_memory_workspace() {
    let (mut host, gid, dh) = open_a_gate();
    host.submit_verdict(&gid, go_verdict(1, &gid, dh)).unwrap();
    host.submit_verdict(&gid, go_verdict(2, &gid, dh)).unwrap();
    assert!(host.persist_audit().is_none());
}

// The event comes after execution, carrying the exit code.
#[test]
fn command_event_carries_exit_code() {
    let mut host = memory_host();
    host.run_command("agent-01", &t1(), "cargo test", ".").unwrap();
    let events = host.take_events();
    match &events[0] {
        HostEvent::Command { command, exit_code, .. } => {
            assert_eq!(command, "cargo test");
            assert_eq!(*exit_code, 0);
        }
        other => panic!("expected Command event, got {other:?}"),
    }
    assert!(host.take_events().is_empty(), "events are taken once");
}

// Not even a valid signature over the right gate and diff helps an operator who
// is not in the session.
#[test]
fn unregistered_operator_verdict_is_refused() {
    let (mut host, gid, dh) = open_a_gate();
    let stranger = go_verdict(7, &gid, dh); // seed 7 not in the roster
    let err = host.submit_verdict(&gid, stranger).unwrap_err();
    assert!(
        matches!(err, GateHostError::Cast(CastRejected::Ineligible)),
        "unregistered operator must be refused; got {err:?}"
    );
    // A registered operator is still accepted.
    assert!(host.submit_verdict(&gid, go_verdict(1, &gid, dh)).is_ok());
}

#[test]
fn a_registered_operator_joins_the_roster_once() {
    let (mut host, gid, dh) = open_a_gate();
    host.register_operator(operator(7));
    host.register_operator(operator(7));
    assert_eq!(host.session_operators(), vec![operator(1), operator(2), operator(7)]);
    assert!(host.submit_verdict(&gid, go_verdict(7, &gid, dh)).is_ok());
}

#[test]
fn two_go_verdicts_satisfy_and_accept() {
    let (mut host, gid, dh) = open_a_gate();
    let p1 = host.submit_verdict(&gid, go_verdict(1, &gid, dh)).unwrap();
    assert_eq!(p1.state, HoldState::Partial);
    assert!(host.workspace().accepted_tasks().is_empty());

    let p2 = host.submit_verdict(&gid, go_verdict(2, &gid, dh)).unwrap();
    assert_eq!(p2.state, HoldState::Satisfied);

    assert_eq!(host.workspace().accepted_tasks(), vec![t1()]);
    assert!(host.verify_audit().is_ok());
    assert_eq!(host.reviewed_by(&gid).unwrap().len(), 2);
}

#[test]
fn nogo_blocks_discards_and_returns_remedy() {
    let (mut host, gid, dh) = open_a_gate();
    host.submit_verdict(&gid, go_verdict(1, &gid, dh)).unwrap();
    let p2 = host
        .submit_verdict(&gid, nogo_verdict(2, &gid, dh, "cache it"))
        .unwrap();

    assert_eq!(p2.state, HoldState::Blocked);
    assert_eq!(p2.remedy, Some(Remedy::Steer("cache it".into())));
    assert!(host.workspace().accepted_tasks().is_empty());
    assert_eq!(host.workspace().discarded_tasks(), vec![t1()]);
    assert_eq!(host.audit_len(), 1);
    assert!(host.verify_audit().is_ok());
}

#[test]
fn pending_gates_hides_sealed_first_verdict() {
    let (mut host, gid, dh) = open_a_gate();
    host.submit_verdict(&gid, go_verdict(1, &gid, dh)).unwrap();
    let pending = host.pending_gates();
    assert_eq!(pending.len(), 1);
    assert_eq!(pending[0].state, HoldState::Partial);
    assert_eq!(pending[0].observed.len(), 1);
    assert_eq!(pending[0].observed[0].status, VerdictStatus::Sealed);
    assert_eq!(pending[0].diff_hash, dh);
}

#[test]
fn begin_task_gate_and_outcome_reports_satisfied() {
    let mut host = GateHost::new(ctx(), ws_with(b"x\n"));
    let (gid, ticket) = host.begin_task_gate("agent-01", t1(), 42).unwrap();
    let dh = host.pending_gates()[0].diff_hash;

    host.submit_verdict(&gid, go_verdict(1, &gid, dh)).unwrap();
    host.submit_verdict(&gid, go_verdict(2, &gid, dh)).unwrap();

    assert_eq!(host.gate_state(ticket), HoldState::Satisfied);
    let outcome = host.gate_outcome(&gid).unwrap();
    assert_eq!(outcome.state, HoldState::Satisfied);
    assert_eq!(outcome.reviewed_by.len(), 2);
    assert!(outcome.remedy.is_none());
}

#[test]
fn hand_edit_applies_now_and_opens_fresh_gate() {
    // Pragmatic policy so the editor may co-sign.
    let mut host = GateHost::new(pragmatic(), InMemoryWorkspace::new());
    let (gid, _ticket) = host.hand_edit(t1(), "a.rs", b"guarded\n", operator(1)).unwrap();
    // Applied immediately, observable in the workspace.
    assert_eq!(
        host.workspace().file_contents(&t1(), "a.rs"),
        Some(b"guarded\n".to_vec())
    );

    let dh = host.pending_gates()[0].diff_hash;
    host.submit_verdict(&gid, go_verdict(1, &gid, dh)).unwrap();
    let p = host.submit_verdict(&gid, go_verdict(2, &gid, dh)).unwrap();
    assert_eq!(p.state, HoldState::Satisfied);
    assert_eq!(host.workspace().accepted_tasks(), vec![t1()]);
}

#[test]
fn hand_edit_strict_signals_escalation_and_excludes_editor() {
    // Default policy = strict.
    let mut host = memory_host();
    let (gid, _ticket) = host.hand_edit(t1(), "a.rs", b"guarded\n", operator(1)).unwrap();
    let dh = host.pending_gates()[0].diff_hash;

    // The other operator casts: accepted, but escalation is signalled (pool = 1 < 2).
    let p = host.submit_verdict(&gid, go_verdict(2, &gid, dh)).unwrap();
    assert!(p.escalation_required);

    // The editor is a maker in strict mode: rejected.
    let err = host.submit_verdict(&gid, go_verdict(1, &gid, dh)).unwrap_err();
    assert_eq!(err, GateHostError::Cast(CastRejected::Ineligible));
}

#[test]
fn gate_view_carries_files_and_loc() {
    let (host, _gid, _dh) = open_a_gate();
    let view = &host.pending_gates()[0];
    assert_eq!(view.files, vec!["a.rs".to_string()]);
    assert_eq!(view.loc, 1);
}

#[test]
fn gate_diff_and_audit_len() {
    let (mut host, gid, dh) = open_a_gate();
    let diff = host.gate_diff(&gid).expect("diff bytes");
    assert!(!diff.is_empty());
    assert_eq!(host.audit_len(), 0);

    host.submit_verdict(&gid, go_verdict(1, &gid, dh)).unwrap();
    host.submit_verdict(&gid, go_verdict(2, &gid, dh)).unwrap();
    assert_eq!(host.audit_len(), 1);
}

#[test]
fn merge_session_after_satisfied_gate_records_message() {
    let (mut host, gid, dh) = open_a_gate();
    host.submit_verdict(&gid, go_verdict(1, &gid, dh)).unwrap();
    host.submit_verdict(&gid, go_verdict(2, &gid, dh)).unwrap();

    host.merge_session("m").unwrap();
    assert_eq!(host.workspace().merged_message(), Some("m".to_string()));
}

#[test]
fn blocked_then_reworked_satisfied_chains_two_records() {
    let (mut host, gid, dh) = open_a_gate();
    host.submit_verdict(&gid, go_verdict(1, &gid, dh)).unwrap();
    host.submit_verdict(&gid, nogo_verdict(2, &gid, dh, "cache it")).unwrap();
    assert_eq!(host.audit_len(), 1);

    // Rework: new write, fresh gate, both go.
    host.record_write("agent-01", &t1(), "a.rs", b"reworked\n").unwrap();
    let (gid2, _ticket) = host.begin_task_gate("agent-01", t1(), 0).unwrap();
    let dh2 = host.pending_gates()[0].diff_hash;
    host.submit_verdict(&gid2, go_verdict(1, &gid2, dh2)).unwrap();
    host.submit_verdict(&gid2, go_verdict(2, &gid2, dh2)).unwrap();

    assert_eq!(host.audit_len(), 2);
    assert!(host.verify_audit().is_ok());
}

#[test]
fn abandon_session_discards_pending_and_emits_event() {
    let (mut host, gid, dh) = open_a_gate();
    let p = host.submit_verdict(&gid, go_verdict(1, &gid, dh)).unwrap();
    assert_eq!(p.state, HoldState::Partial);

    host.abandon_session().unwrap();

    assert_eq!(host.workspace().discarded_tasks(), vec![t1()]);
    assert!(host.workspace().accepted_tasks().is_empty());
    assert!(host.verify_audit().is_ok());
    let events = host.take_events();
    assert!(
        events.iter().any(|e| matches!(e, HostEvent::SessionAbandoned)),
        "SessionAbandoned event must be emitted"
    );
}

#[test]
fn abandon_session_skips_satisfied_tasks() {
    let (mut host, gid, dh) = open_a_gate();
    host.submit_verdict(&gid, go_verdict(1, &gid, dh)).unwrap();
    host.submit_verdict(&gid, go_verdict(2, &gid, dh)).unwrap();

    assert_eq!(host.workspace().accepted_tasks(), vec![t1()]);
    assert_eq!(host.audit_len(), 1);

    // Abandon: no pending tasks to discard, chain stays intact.
    host.abandon_session().unwrap();
    assert!(host.workspace().discarded_tasks().is_empty());
    assert!(host.verify_audit().is_ok());
}

#[test]
fn ask_clarification_blocks_then_resolve_flips_watch() {
    let mut host = memory_host();
    let question = || ClarifyQuestion {
        prompt: "target database?".into(),
        options: vec!["postgres".into(), "sqlite".into()],
    };
    let ticket = host.ask_clarification("agent-01", vec![question()]).unwrap();
    assert_eq!(host.asked_questions(), Some(vec![question()]));
    assert_eq!(host.clarify_decision(ticket), ClarifyDecision::Pending);

    let events = host.take_events();
    assert!(
        events.iter().any(|e| matches!(
            e,
            HostEvent::QuestionsAsked { questions, .. } if *questions == vec![question()]
        )),
        "QuestionsAsked event must be emitted"
    );

    // Resolving unblocks the asker with the answers.
    host.resolve_clarification(vec![vec!["postgres".into()]]);
    assert_eq!(
        host.clarify_decision(ticket),
        ClarifyDecision::Answered(vec![vec!["postgres".to_string()]])
    );
}

#[test]
fn propose_plan_emits_event_and_approve_flips_watch() {
    let mut host = memory_host();
    let tasks = vec!["add caching".to_string(), "write tests".to_string()];
    let ticket = host.propose_plan("agent-01", tasks.clone()).unwrap();

    assert_eq!(host.proposed_plan(), Some(tasks.clone()));
    assert_eq!(host.plan_decision(ticket), PlanDecision::Pending);

    let events = host.take_events();
    assert!(
        events
            .iter()
            .any(|e| matches!(e, HostEvent::PlanProposed { tasks: t, .. } if *t == tasks)),
        "PlanProposed event not received"
    );

    host.approve_plan();
    assert_eq!(
        host.plan_decision(ticket),
        PlanDecision::Approved,
        "the ticket must see Approved after approve"
    );
    // It stays decided.
    assert_eq!(host.plan_decision(ticket), PlanDecision::Approved);
}

#[test]
fn propose_plan_idempotent_overwrite() {
    let mut host = memory_host();
    host.propose_plan("agent-01", vec!["task-a".to_string()]).unwrap();
    host.propose_plan("agent-01", vec!["task-b".to_string(), "task-c".to_string()])
        .unwrap();
    // Re-proposal overwrites.
    assert_eq!(
        host.proposed_plan(),
        Some(vec!["task-b".to_string(), "task-c".to_string()])
    );
}

#[test]
fn reproposal_resets_approval() {
    let mut host = memory_host();
    // Propose plan A and approve it.
    let first = host.propose_plan("agent-01", vec!["task-a".to_string()]).unwrap();
    host.approve_plan();
    assert_eq!(host.plan_decision(first), PlanDecision::Approved);

    // Re-propose plan B: a fresh ticket, still pending.
    let second = host.propose_plan("agent-01", vec!["task-b".to_string()]).unwrap();
    assert_eq!(
        host.plan_decision(second),
        PlanDecision::Pending,
        "re-proposal must reset approval to Pending"
    );
    // Nothing more is decided on the old ticket.
    assert!(!host.plan_is_open(first));
    assert!(host.plan_is_open(second));

    host.approve_plan();
    assert_eq!(host.plan_decision(second), PlanDecision::Approved);
}

#[test]
fn steer_plan_resolves_watch_with_steered_and_emits_event() {
    let mut host = memory_host();
    let ticket = host
        .propose_plan("agent-01", vec!["task-a".to_string(), "task-b".to_string()])
        .unwrap();
    assert_eq!(host.plan_decision(ticket), PlanDecision::Pending);

    host.steer_plan("split task 2".to_string());
    assert_eq!(
        host.plan_decision(ticket),
        PlanDecision::Steered("split task 2".to_string())
    );
    let events = host.take_events();
    assert!(
        events
            .iter()
            .any(|e| matches!(e, HostEvent::PlanSteered { steer } if steer == "split task 2")),
        "PlanSteered event not received"
    );
}

#[test]
fn reproposal_after_steer_resets_decision() {
    let mut host = memory_host();
    let first = host.propose_plan("agent-01", vec!["task-a".to_string()]).unwrap();
    host.steer_plan("rethink".to_string());
    assert_eq!(
        host.plan_decision(first),
        PlanDecision::Steered("rethink".to_string())
    );

    let second = host.propose_plan("agent-01", vec!["task-b".to_string()]).unwrap();
    assert_eq!(host.plan_decision(second), PlanDecision::Pending);
    host.approve_plan();
    assert_eq!(host.plan_decision(second), PlanDecision::Approved);
}

#[test]
fn splits_wait_for_the_operators() {
    let mut host = memory_host();
    let stream = || SplitStream { title: "api".into(), detail: "routes".into() };
    let ticket = host.propose_split("agent-01", vec![stream()]).unwrap();
    assert_eq!(host.split_decision(ticket), SplitDecision::Pending);
    assert_eq!(host.proposed_split(), Some(vec![stream()]));
    host.resolve_split(SplitDecision::Approved(vec![stream()]));
    assert_eq!(host.split_decision(ticket), SplitDecision::Approved(vec![stream()]));
    let again = host.propose_split("agent-01", vec![stream()]).unwrap();
    host.resolve_split(SplitDecision::Declined);
    assert_eq!(host.split_decision(again), SplitDecision::Declined);
    assert_eq!(host.split_decision(ticket), SplitDecision::Approved(vec![stream()]));
}

#[test]
fn event_stream_write_gate_opened_gate_resolved() {
    let mut host = memory_host();
    host.record_write("agent-01", &t1(), "a.rs", b"hello\n").unwrap();
    let (gid, _ticket) = host.begin_task_gate("agent-01", t1(), 10).unwrap();
    let dh = host.pending_gates()[0].diff_hash;
    host.submit_verdict(&gid, go_verdict(1, &gid, dh)).unwrap();
    host.submit_verdict(&gid, go_verdict(2, &gid, dh)).unwrap();

    let events = host.take_events();
    let write_pos = events
        .iter()
        .position(|e| matches!(e, HostEvent::Write { path, .. } if path == "a.rs"))
        .expect("expected Write event");
    let opened_pos = events
        .iter()
        .position(|e| matches!(e, HostEvent::GateOpened { .. }))
        .expect("expected GateOpened event");
    let resolved_pos = events
        .iter()
        .position(|e| {
            matches!(
                e,
                HostEvent::GateResolved {
                    state: HoldState::Satisfied,
                    ..
                }
            )
        })
        .expect("expected GateResolved(Satisfied) event");
    assert!(write_pos < opened_pos, "Write must precede GateOpened");
    assert!(opened_pos < resolved_pos, "GateOpened must precede GateResolved");
}

// After an abandon, a cast is refused, the chain is unchanged and the task is
// discarded.
#[test]
fn casts_refused_after_abandon() {
    let (mut host, gid, dh) = open_a_gate();
    let p1 = host.submit_verdict(&gid, go_verdict(1, &gid, dh)).unwrap();
    assert_eq!(p1.state, HoldState::Partial);
    let audit_before = host.audit_len();

    host.abandon_session().unwrap();
    assert_eq!(host.workspace().discarded_tasks(), vec![t1()]);

    let err = host.submit_verdict(&gid, go_verdict(2, &gid, dh)).unwrap_err();
    assert_eq!(err, GateHostError::SessionAbandoned);
    assert_eq!(host.audit_len(), audit_before);
}

#[test]
fn begin_task_gate_refused_after_abandon() {
    // Seed a task write so the workspace can freeze it.
    let task = TaskId("t2".into());
    let mut ws = InMemoryWorkspace::new();
    ws.apply_write(&task, "b.rs", b"y\n").unwrap();
    let mut host = GateHost::new(ctx(), ws);
    host.abandon_session().unwrap();

    let err = host.begin_task_gate("agent-01", task, 10).unwrap_err();
    assert_eq!(err, GateHostError::SessionAbandoned);
}

#[test]
fn hand_edit_refused_after_abandon() {
    let mut host = memory_host();
    host.abandon_session().unwrap();
    let err = host.hand_edit(t1(), "a.rs", b"x\n", operator(1)).unwrap_err();
    assert_eq!(err, GateHostError::SessionAbandoned);
}

// The prompt that is set reaches the audit record of a gate opened later.
#[test]
fn set_prompt_updates_provenance() {
    let mut host = GateHost::new(ctx(), ws_with(b"x\n"));
    host.set_prompt("updated in-console".to_string());

    let (gid, _ticket) = host.begin_task_gate("agent-01", t1(), 0).unwrap();
    let dh = host.pending_gates()[0].diff_hash;
    host.submit_verdict(&gid, go_verdict(1, &gid, dh)).unwrap();
    host.submit_verdict(&gid, go_verdict(2, &gid, dh)).unwrap();

    let prompts: Vec<String> = host
        .audit_records()
        .iter()
        .map(|r| match r {
            AuditEntry::Merge(r) => r.core.provenance.prompt.clone(),
            other => panic!("expected a merge record, got {other:?}"),
        })
        .collect();
    assert_eq!(
        prompts,
        vec!["updated in-console".to_string()],
        "audit record must carry the in-console-edited prompt"
    );
}

#[test]
fn propose_plan_refused_after_abandon() {
    let mut host = memory_host();
    host.abandon_session().unwrap();
    let err = host
        .propose_plan("agent-01", vec!["task-a".to_string()])
        .unwrap_err();
    assert_eq!(err, GateHostError::SessionAbandoned);
}

// A ticket on an open gate sees Blocked after an abandon: it never waits on.
#[test]
fn abandon_sends_blocked_to_parked_watchers() {
    let mut host = GateHost::new(ctx(), ws_with(b"x\n"));
    let (_gid, ticket) = host.begin_task_gate("agent-01", t1(), 10).unwrap();
    assert_eq!(host.gate_state(ticket), HoldState::Open);

    host.abandon_session().unwrap();
    assert_eq!(
        host.gate_state(ticket),
        HoldState::Blocked,
        "a parked ticket must observe Blocked after abandon_session"
    );
}

#[test]
fn abandon_sends_blocked_to_carried_watchers() {
    // Pragmatic so the editor is not excluded.
    let mut host = GateHost::new(pragmatic(), ws_with(b"agent\n"));
    let (_orig, orig_ticket) = host.begin_task_gate("agent-01", t1(), 10).unwrap();
    // The hand-edit carries the ticket over to the fresh gate.
    host.hand_edit(t1(), "a.rs", b"human\n", operator(1)).unwrap();

    host.abandon_session().unwrap();
    assert_eq!(
        host.gate_state(orig_ticket),
        HoldState::Blocked,
        "a carried ticket must observe Blocked after abandon_session"
    );
}

// A hand-edit removes pending gates of the task and leaves only the fresh one.
#[test]
fn hand_edit_supersedes_stale_pending_hold() {
    let mut host = GateHost::new(pragmatic(), ws_with(b"agent\n"));
    let (original, _ticket) = host.begin_task_gate("agent-01", t1(), 10).unwrap();
    assert_eq!(host.pending_gates().len(), 1);
    assert_eq!(host.pending_gates()[0].gate_id, original);

    let (fresh, _ticket) = host.hand_edit(t1(), "a.rs", b"human\n", operator(1)).unwrap();

    let pending = host.pending_gates();
    assert_eq!(pending.len(), 1, "only the fresh one must remain pending");
    assert_eq!(pending[0].gate_id, fresh);
    assert_ne!(fresh, original, "a fresh gate must have a new id");
    assert_eq!(pending[0].task_id, t1(), "task_id must be preserved");
    assert!(host.take_events().iter().any(|e| matches!(
        e,
        HostEvent::GateSuperseded { old_gate_id, new_gate_id }
            if *old_gate_id == original && *new_gate_id == fresh
    )));
}

#[test]
fn cast_on_superseded_gate_returns_unknown_gate() {
    let mut host = GateHost::new(ctx(), ws_with(b"agent\n"));
    let (original, _ticket) = host.begin_task_gate("agent-01", t1(), 10).unwrap();
    let original_dh = host.pending_gates()[0].diff_hash;

    host.hand_edit(t1(), "a.rs", b"human\n", operator(1)).unwrap();

    // Verdicts must bind the combined diff.
    let err = host
        .submit_verdict(&original, go_verdict(2, &original, original_dh))
        .unwrap_err();
    assert!(
        matches!(err, GateHostError::UnknownGate(_)),
        "expected UnknownGate on a superseded gate, got: {err:?}"
    );
}

// A resolved gate is not removed by a later hand-edit: its record stays.
#[test]
fn hand_edit_does_not_remove_resolved_gate() {
    let mut host = GateHost::new(ctx(), ws_with(b"v1\n"));
    let (gid1, _ticket) = host.begin_task_gate("agent-01", t1(), 10).unwrap();
    let dh1 = host.pending_gates()[0].diff_hash;
    host.submit_verdict(&gid1, go_verdict(1, &gid1, dh1)).unwrap();
    host.submit_verdict(&gid1, go_verdict(2, &gid1, dh1)).unwrap();

    let audit_before = host.audit_len();
    assert_eq!(audit_before, 1, "one audit record for the satisfied one");
    assert!(host.verify_audit().is_ok());

    // A second gate over the same task, superseded by a hand-edit.
    host.record_write("agent-01", &t1(), "a.rs", b"v2\n").unwrap();
    host.begin_task_gate("agent-01", t1(), 10).unwrap();
    host.hand_edit(t1(), "a.rs", b"v3\n", operator(1)).unwrap();

    assert_eq!(host.audit_len(), audit_before, "audit chain must not shrink");
    assert!(host.verify_audit().is_ok(), "audit chain must still verify");
    assert!(
        host.reviewed_by(&gid1).is_some(),
        "a resolved gate must still be auditable"
    );
}

// The ticket of a superseded gate shows Satisfied only once the fresh one is.
#[test]
fn superseded_agent_watch_gets_combined_outcome() {
    let mut host = GateHost::new(pragmatic(), ws_with(b"agent\n"));
    let (original, original_ticket) = host.begin_task_gate("agent-01", t1(), 10).unwrap();
    let (fresh, _ticket) = host.hand_edit(t1(), "a.rs", b"human\n", operator(1)).unwrap();
    assert_ne!(fresh, original);

    let state_mid = host.gate_state(original_ticket);
    assert!(
        matches!(state_mid, HoldState::Open | HoldState::Partial),
        "not Satisfied before the fresh one resolves; got: {state_mid:?}"
    );

    let fresh_dh = host.pending_gates()[0].diff_hash;
    host.submit_verdict(&fresh, go_verdict(1, &fresh, fresh_dh)).unwrap();
    host.submit_verdict(&fresh, go_verdict(2, &fresh, fresh_dh)).unwrap();

    assert_eq!(host.gate_state(original_ticket), HoldState::Satisfied);
    assert_eq!(host.workspace().accepted_tasks(), vec![t1()]);
}

// A no-go on the fresh gate reaches the ticket and the outcome of the old one.
#[test]
fn superseded_watch_gets_blocked_outcome() {
    let mut host = GateHost::new(pragmatic(), ws_with(b"agent\n"));
    let (original, original_ticket) = host.begin_task_gate("agent-01", t1(), 10).unwrap();
    let (fresh, _ticket) = host.hand_edit(t1(), "a.rs", b"human\n", operator(1)).unwrap();

    let fresh_dh = host.pending_gates()[0].diff_hash;
    host.submit_verdict(&fresh, go_verdict(2, &fresh, fresh_dh)).unwrap();
    host.submit_verdict(&fresh, nogo_verdict(1, &fresh, fresh_dh, "rework needed"))
        .unwrap();

    assert_eq!(host.gate_state(original_ticket), HoldState::Blocked);
    let outcome = host.gate_outcome(&original).unwrap();
    assert_eq!(outcome.state, HoldState::Blocked);
    assert_eq!(
        outcome.remedy,
        Some(Remedy::Steer("rework needed".into())),
        "gate_outcome must follow redirect and return the fresh gate's remedy"
    );
}

// Two hand-edits in a row: every ticket sees the last gate's outcome, and
// outcomes follow the redirects to their end.
#[test]
fn double_supersede_chains() {
    let mut host = GateHost::new(pragmatic(), ws_with(b"agent\n"));
    let (gid_orig, t_orig) = host.begin_task_gate("agent-01", t1(), 10).unwrap();
    let (gid_mid, t_mid) = host.hand_edit(t1(), "a.rs", b"human-v1\n", operator(1)).unwrap();
    let (gid_final, _t) = host.hand_edit(t1(), "a.rs", b"human-v2\n", operator(2)).unwrap();

    assert_ne!(gid_orig, gid_mid);
    assert_ne!(gid_mid, gid_final);
    for t in [t_orig, t_mid] {
        let s = host.gate_state(t);
        assert!(
            matches!(s, HoldState::Open | HoldState::Partial),
            "must not prematurely show Satisfied; got: {s:?}"
        );
    }

    let final_dh = host.pending_gates()[0].diff_hash;
    host.submit_verdict(&gid_final, go_verdict(1, &gid_final, final_dh)).unwrap();
    host.submit_verdict(&gid_final, go_verdict(2, &gid_final, final_dh)).unwrap();

    assert_eq!(host.gate_state(t_orig), HoldState::Satisfied);
    assert_eq!(host.gate_state(t_mid), HoldState::Satisfied);
    assert_eq!(host.gate_outcome(&gid_orig).unwrap().state, HoldState::Satisfied);
    assert_eq!(host.gate_outcome(&gid_mid).unwrap().state, HoldState::Satisfied);
    // And the task was accepted exactly once.
    assert_eq!(host.workspace().accepted_tasks(), vec![t1()]);
}

// Where makers may not cast, the first editor stays a maker after a second edit.
#[test]
fn strict_second_edit_keeps_the_first_editor_out() {
    let ops = vec![operator(1), operator(2), operator(3), operator(4)];
    let three = SessionContext::new("do the thing", ops[0], "agent-01", "model", "1.0", ops);
    let mut host = GateHost::new(three, ws_with(b"agent\n"));
    host.begin_task_gate("agent-01", t1(), 10).unwrap();
    host.hand_edit(t1(), "a.rs", b"human-v1\n", operator(1)).unwrap();
    let (gid, _t) = host.hand_edit(t1(), "b.rs", b"human-v2\n", operator(2)).unwrap();
    let pending = host.pending_gates();
    assert_eq!(pending.len(), 1);
    assert!(!pending[0].escalation_required);
    let dh = pending[0].diff_hash;
    for editor in [1, 2] {
        assert_eq!(
            host.submit_verdict(&gid, go_verdict(editor, &gid, dh)),
            Err(GateHostError::Cast(CastRejected::Ineligible))
        );
    }
    host.submit_verdict(&gid, go_verdict(3, &gid, dh)).unwrap();
    let done = host.submit_verdict(&gid, go_verdict(4, &gid, dh)).unwrap();
    assert_eq!(done.state, HoldState::Satisfied);
}

// With both operators makers nobody is left: the fresh gate says so.
#[test]
fn strict_edits_by_both_operators_need_escalation() {
    let mut host = GateHost::new(ctx(), ws_with(b"agent\n"));
    host.begin_task_gate("agent-01", t1(), 10).unwrap();
    host.hand_edit(t1(), "a.rs", b"human-v1\n", operator(1)).unwrap();
    let (gid, _t) = host.hand_edit(t1(), "b.rs", b"human-v2\n", operator(2)).unwrap();
    let pending = host.pending_gates();
    assert!(pending[0].escalation_required);
    assert_eq!(
        host.submit_verdict(&gid, go_verdict(1, &gid, pending[0].diff_hash)),
        Err(GateHostError::Cast(CastRejected::Ineligible))
    );
}

// An edit of one task makes nobody a maker of another.
#[test]
fn strict_makers_are_of_their_own_task() {
    let mut ws = ws_with(b"agent\n");
    let t2 = TaskId("t2".into());
    ws.apply_write(&t2, "b.rs", b"agent\n").unwrap();
    let mut host = GateHost::new(ctx(), ws);
    host.begin_task_gate("agent-01", t1(), 10).unwrap();
    host.begin_task_gate("agent-01", t2.clone(), 10).unwrap();
    host.hand_edit(t1(), "a.rs", b"human\n", operator(1)).unwrap();
    let (gid, _t) = host.hand_edit(t2, "b.rs", b"human\n", operator(2)).unwrap();
    let pending = host.pending_gates();
    let at = pending.iter().position(|g| g.gate_id == gid).unwrap();
    let progress = host.submit_verdict(&gid, go_verdict(1, &gid, pending[at].diff_hash)).unwrap();
    assert_eq!(progress.state, HoldState::Partial);
}

// Through one host, what an agent wrote stays in its own task's gate.
#[test]
fn agents_gates_hold_their_own_files() {
    let mut host = memory_host();
    let (ta, tb) = (TaskId("a".into()), TaskId("b".into()));
    host.record_write("agent-01", &ta, "one.rs", b"1\n").unwrap();
    host.record_write("agent-02", &tb, "two.rs", b"2\n").unwrap();
    host.begin_task_gate("agent-01", ta, 0).unwrap();
    host.begin_task_gate("agent-02", tb, 0).unwrap();
    let pending = host.pending_gates();
    assert_eq!(pending[0].files, vec!["one.rs".to_string()]);
    assert_eq!(pending[0].agent, "agent-01");
    assert_eq!(pending[1].files, vec!["two.rs".to_string()]);
    assert_eq!(pending[1].agent, "agent-02");
}

#[test]
fn host_errors_have_words() {
    assert_eq!(GateHostError::UnknownGate("g9".into()).message(), "unknown gate: g9");
    assert_eq!(GateHostError::SessionAbandoned.message(), "session abandoned");
    assert_eq!(
        GateHostError::Cast(CastRejected::DuplicateIdentity).message(),
        "verdict rejected: this operator has already cast on this hold"
    );
    assert_eq!(
        GateHostError::Workspace(WorkspaceError::UnknownTask("t".into())).message(),
        "unknown task: t"
    );
    let mut host = memory_host();
    let err = host.begin_task_gate("agent-01", TaskId("nope".into()), 0).unwrap_err();
    assert_eq!(
        err,
        GateHostError::Workspace(WorkspaceError::UnknownTask("nope".into()))
    );
}

// A session that closes leaves its trail behind: the records, under the name
// that the merge message gives.
#[test]
fn a_closing_session_writes_its_trail() {
    let ws = AuditableWs { inner: InMemoryWorkspace::new(), dir: "/audit".into(), saved: vec![] };
    let cfg = SessionConfig {
        prompt: "do the thing".into(),
        plan: vec!["t1".into()],
        seats: [("A".into(), operator(1)), ("B".into(), operator(2))],
    };
    let mut server = SessionServer::new(GateHost::new(ctx(), ws), cfg);
    server.link(0, 0);
    server.link(1, 0);
    for _ in 0..2 {
        server.handle_client_msg(0, operator(1), ClientMsg::Ready, 0);
        server.handle_client_msg(1, operator(2), ClientMsg::Ready, 0);
    }
    let host = server.host_mut();
    host.record_write("agent-01", &t1(), "a.rs", b"x\n").unwrap();
    let (gid, _ticket) = host.begin_task_gate("agent-01", t1(), 0).unwrap();
    let dh = host.pending_gates()[0].diff_hash;
    server.agent_done(0);
    assert!(
        !matches!(server.state().phase, WirePhase::Closed { .. }),
        "a pending gate keeps the session open"
    );
    for seed in [1u8, 2u8] {
        let verdict = go_verdict(seed, &gid, dh);
        let msg = ClientMsg::Cast { gate_id: gid.clone(), verdict };
        server.handle_client_msg(seed as usize - 1, operator(seed), msg, 0);
    }
    assert!(matches!(
        server.state().phase,
        WirePhase::Closed { merged: true, chain_verified: true, .. }
    ));
    let ws = server.host().workspace();
    let head: String = server.host().audit_head().0.iter().map(|b| format!("{b:02x}")).collect();
    assert_eq!(ws.saved.len(), 1);
    assert_eq!(ws.saved[0].0, format!("/audit/audit-{}.json", &head[..16]));
    assert_eq!(ws.saved[0].1.len(), 1);
    let message = ws.inner.merged_message().expect("merged");
    assert!(message.contains(&format!("Audit-chain: sha256:{head}")), "{message}");
}

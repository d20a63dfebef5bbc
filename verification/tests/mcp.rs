use kontur::error::GateHostError;
use kontur::gatehost::host::GateHost;
use kontur::gatehost::model::{GateFinal, SplitDecision};
use kontur::hold::HoldState;
use kontur::ids::{GateId, HandEditRef, OperatorId, TaskId};
use kontur::mcp::{
    finished, AskClarificationInput, ClarifyQuestionInput, KonturServer, ProposeInput,
    ProposePlanInput, ProposeSplitInput, RunCommandInput, SplitStreamInput, ToolError,
    WriteFileInput,
};
use kontur::session::SessionContext;
use kontur::sign::{Ed25519Signer, FixedClock, Signer};
use kontur::verdict::{CastVerdict, Remedy, ReviewDepth, Verdict};
use kontur::workspace::InMemoryWorkspace;

fn operator(seed: u8) -> OperatorId {
    Ed25519Signer::from_seed([seed; 32]).operator_id()
}

fn host(prompt: &str, agent: &str) -> GateHost<InMemoryWorkspace> {
    let ops = vec![operator(1), operator(2)];
    let ctx = SessionContext::new(prompt, ops[0], agent, "model", "1.0", ops);
    GateHost::new(ctx, InMemoryWorkspace::new())
}

fn cast(seed: u8, gate_id: &GateId, dh: kontur::ids::Hash, verdict: Verdict) -> CastVerdict {
    CastVerdict::create(
        &Ed25519Signer::from_seed([seed; 32]),
        &FixedClock(1000 + seed as i64),
        gate_id,
        dh,
        verdict,
        ReviewDepth::FullDiff,
        None,
    )
}

fn write(task_id: &str, path: &str, contents: &str) -> WriteFileInput {
    WriteFileInput {
        task_id: task_id.into(),
        path: path.into(),
        contents: contents.into(),
    }
}

fn words(e: ToolError) -> String {
    match e {
        ToolError::InvalidRequest(m) => m,
        ToolError::Internal(m) => m,
    }
}

#[test]
fn agent_write_then_propose_gated_by_two_operators() {
    let mut host = host("refactor guard", "agent-01");
    let server = KonturServer::new();

    // 1) write_file: ungated, executes in the workspace.
    let out = server.write_file(&mut host, write("t1", "a.rs", "guarded\n")).unwrap();
    assert!(out.ok);
    // The connection's agent id (default "agent-01") namespaces the task.
    assert_eq!(
        host.workspace()
            .file_contents(&TaskId("agent-01::t1".into()), "a.rs"),
        Some(b"guarded\n".to_vec())
    );

    // 2) propose_task_complete: there is no answer yet.
    let (gate_id, ticket) = server
        .propose_task_complete(&mut host, ProposeInput { task_id: "t1".into(), tokens: 42 })
        .unwrap();
    assert!(server.task_reply(&host, &gate_id, ticket).is_none());

    // 3) Two operators sign off via the operator face.
    let dh = host.pending_gates()[0].diff_hash;
    host.submit_verdict(&gate_id, cast(1, &gate_id, dh, Verdict::Go)).unwrap();
    host.submit_verdict(&gate_id, cast(2, &gate_id, dh, Verdict::Go)).unwrap();

    // 4) The tool call now returns success, and the audit chain holds.
    let result = server.task_reply(&host, &gate_id, ticket).expect("decided").expect("accepted");
    assert!(result.accepted);
    let hex: String = operator(1).0.iter().map(|b| format!("{b:02x}")).collect();
    assert_eq!(result.reviewed_by.len(), 2);
    assert!(hex.starts_with(&result.reviewed_by[0]));
    assert!(host.verify_audit().is_ok());
    assert_eq!(
        host.workspace().accepted_tasks(),
        vec![TaskId("agent-01::t1".into())]
    );
    assert_eq!(host.reviewed_by(&gate_id).unwrap().len(), 2);
}

#[test]
fn a_rejected_task_carries_the_steer() {
    let mut host = host("refactor guard", "agent-01");
    let server = KonturServer::new();
    server.write_file(&mut host, write("t1", "a.rs", "x\n")).unwrap();
    let (gid, ticket) = server
        .propose_task_complete(&mut host, ProposeInput { task_id: "t1".into(), tokens: 0 })
        .unwrap();
    let dh = host.pending_gates()[0].diff_hash;
    host.submit_verdict(&gid, cast(1, &gid, dh, Verdict::Go)).unwrap();
    let no = Verdict::NoGo(Remedy::Steer("cache it".into()));
    host.submit_verdict(&gid, cast(2, &gid, dh, no)).unwrap();
    match server.task_reply(&host, &gid, ticket) {
        Some(Err(ToolError::InvalidRequest(m))) => assert_eq!(m, "task rejected: cache it"),
        other => panic!("expected a rejection, got {other:?}"),
    }
}

#[test]
fn finished_reviews_have_words() {
    let last = |state, remedy| {
        finished(Some(GateFinal { state, remedy, reviewed_by: vec![] }))
    };
    match finished(None) {
        Err(ToolError::Internal(m)) => assert_eq!(m, "gate disappeared"),
        other => panic!("{other:?}"),
    }
    let edit = Remedy::HandEdit(HandEditRef("e1".into()));
    assert_eq!(
        words(last(HoldState::Blocked, Some(edit)).unwrap_err()),
        "task rejected: hand-edit:e1"
    );
    assert!(words(last(HoldState::Open, None).unwrap_err()).starts_with("non-terminal gate state"));
    assert!(last(HoldState::Satisfied, None).unwrap().accepted);
}

// Two agents (distinct connections) that independently pick the SAME logical
// task id ("1") do not collide.
#[test]
fn two_agents_same_task_id_are_isolated() {
    let mut host = host("fleet", "agent-01");
    let a = KonturServer::with_agent("agent-a");
    let b = KonturServer::with_agent("agent-b");
    a.write_file(&mut host, write("1", "a.rs", "A\n")).expect("agent-a write");
    b.write_file(&mut host, write("1", "b.rs", "B\n")).expect("agent-b write");

    let ws = host.workspace();
    // Each agent's write is isolated under its namespaced task.
    assert_eq!(
        ws.file_contents(&TaskId("agent-a::1".into()), "a.rs"),
        Some(b"A\n".to_vec())
    );
    assert_eq!(
        ws.file_contents(&TaskId("agent-b::1".into()), "b.rs"),
        Some(b"B\n".to_vec())
    );
    // Cross-contamination is impossible: agent-a's task never sees agent-b's file.
    assert_eq!(ws.file_contents(&TaskId("agent-a::1".into()), "b.rs"), None);
    assert_eq!(ws.file_contents(&TaskId("agent-b::1".into()), "a.rs"), None);
    // The un-namespaced bare id is never used as a task key.
    assert_eq!(ws.file_contents(&TaskId("1".into()), "a.rs"), None);
}

#[test]
fn a_write_in_memory_is_held_by_the_agents_task() {
    let mut host = host("refactor guard", "agent-01");
    let server = KonturServer::new();
    assert!(server.write_file(&mut host, write("t1", "a.rs", "first\n")).unwrap().ok);
    assert!(server.write_file(&mut host, write("t1", "a.rs", "guarded\n")).unwrap().ok);
    let held = |task: &str, path: &str| {
        host.workspace().file_contents(&TaskId(task.into()), path)
    };
    assert_eq!(held("agent-01::t1", "a.rs"), Some(b"guarded\n".to_vec()));
    assert_eq!(held("agent-01::t1", "b.rs"), None);
    assert_eq!(held("t1", "a.rs"), None);
}

#[test]
fn commands_run_in_the_agents_task() {
    let mut host = host("fleet", "agent-01");
    let out = KonturServer::new()
        .run_command(
            &mut host,
            RunCommandInput {
                task_id: "t1".into(),
                command: "cargo test".into(),
                cwd: ".".into(),
            },
        )
        .unwrap();
    assert_eq!(out.exit_code, 0);
}

#[test]
fn propose_plan_blocks_until_approved() {
    let mut host = host("plan gate test", "agent-02");
    let server = KonturServer::new();
    let ticket = server
        .propose_plan(
            &mut host,
            ProposePlanInput {
                tasks: vec!["add caching".into(), "write tests".into()],
            },
        )
        .unwrap();
    assert_eq!(
        host.proposed_plan(),
        Some(vec!["add caching".to_string(), "write tests".to_string()]),
        "plan must be stored before approve"
    );
    assert!(
        server.plan_reply(&host, ticket).is_none(),
        "propose_plan must still be blocking"
    );

    host.approve_plan();
    let result = server.plan_reply(&host, ticket).expect("decided").expect("approved");
    assert!(result.approved);
    assert_eq!(
        result.tasks,
        vec!["add caching".to_string(), "write tests".to_string()]
    );
}

#[test]
fn an_approved_plan_is_the_edited_one() {
    let mut host = host("plan gate test", "agent-02");
    let server = KonturServer::new();
    let ticket = server
        .propose_plan(&mut host, ProposePlanInput { tasks: vec!["a".into(), "b".into()] })
        .unwrap();
    host.set_plan(vec!["b".to_string()]);
    host.approve_plan();
    assert_eq!(
        server.plan_reply(&host, ticket).unwrap().unwrap().tasks,
        vec!["b".to_string()]
    );
}

#[test]
fn propose_plan_steered_returns_error_then_approve_succeeds() {
    let mut host = host("plan steer test", "agent-03");
    let server = KonturServer::new();
    let first = server
        .propose_plan(
            &mut host,
            ProposePlanInput { tasks: vec!["do everything at once".into()] },
        )
        .unwrap();
    host.steer_plan("split task 2".to_string());
    let err = server
        .plan_reply(&host, first)
        .expect("steered")
        .expect_err("a steered plan must surface as an error");
    let msg = words(err);
    assert!(msg.contains("split task 2"), "error must carry the steer: {msg}");

    // Agent re-proposes; approve; success.
    let second = server
        .propose_plan(
            &mut host,
            ProposePlanInput { tasks: vec!["task a".into(), "task b".into()] },
        )
        .unwrap();
    host.approve_plan();
    let result = server.plan_reply(&host, second).unwrap().unwrap();
    assert!(result.approved);
}

#[test]
fn ask_clarification_blocks_until_resolved() {
    let mut host = host("clarify test", "agent-02");
    let server = KonturServer::new();
    let ticket = server
        .ask_clarification(
            &mut host,
            AskClarificationInput {
                questions: vec![ClarifyQuestionInput {
                    prompt: "target db?".into(),
                    options: vec!["postgres".into(), "sqlite".into()],
                }],
            },
        )
        .unwrap();
    assert!(host.asked_questions().is_some(), "questions must be stored");
    assert!(
        server.clarification_reply(&host, ticket).is_none(),
        "ask_clarification must still be blocking"
    );

    host.resolve_clarification(vec![vec!["postgres".to_string()]]);
    let result = server.clarification_reply(&host, ticket).unwrap().unwrap();
    assert_eq!(result.answers[0][0], "postgres");
}

#[test]
fn nothing_to_ask_is_an_error() {
    let mut host = host("clarify test", "agent-02");
    let server = KonturServer::new();
    assert!(server
        .ask_clarification(&mut host, AskClarificationInput { questions: vec![] })
        .is_err());
    assert!(host.asked_questions().is_none());
}

#[test]
fn propose_split_blocks_until_resolved() {
    let mut host = host("split test", "agent-02");
    let server = KonturServer::new();
    let ticket = server
        .propose_split(
            &mut host,
            ProposeSplitInput {
                streams: vec![
                    SplitStreamInput { title: "backend".into(), detail: "API".into() },
                    SplitStreamInput { title: "frontend".into(), detail: "UI".into() },
                ],
            },
        )
        .unwrap();
    assert!(host.proposed_split().is_some(), "streams stored");
    assert!(
        server.split_reply(&host, ticket).is_none(),
        "propose_split must still be blocking"
    );

    let streams = host.proposed_split().unwrap();
    host.resolve_split(SplitDecision::Approved(streams));
    let result = server.split_reply(&host, ticket).unwrap().unwrap();
    assert!(result.approved);
    assert_eq!(result.streams.len(), 2);
    assert_eq!(result.streams[1].detail, "UI");
}

#[test]
fn a_declined_split_works_alone() {
    let mut host = host("split test", "agent-02");
    let server = KonturServer::new();
    let stream = || SplitStreamInput { title: "backend".into(), detail: "API".into() };
    let first = server
        .propose_split(&mut host, ProposeSplitInput { streams: vec![stream(), stream()] })
        .unwrap();
    host.resolve_split(SplitDecision::Declined);
    let out = server.split_reply(&host, first).unwrap().unwrap();
    assert!(!out.approved);
    assert!(out.streams.is_empty());
}

#[test]
fn an_abandoned_session_refuses_the_tools() {
    let mut host = host("x", "agent-01");
    host.abandon_session().unwrap();
    let server = KonturServer::new();
    let plan = server.propose_plan(&mut host, ProposePlanInput { tasks: vec!["a".into()] });
    match plan {
        Err(ToolError::Internal(m)) => {
            assert_eq!(m, GateHostError::SessionAbandoned.message())
        }
        other => panic!("{other:?}"),
    }
}

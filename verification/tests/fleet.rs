use kontur::audit::chain::AuditEntry;
use kontur::error::WorkspaceError;
use kontur::fleet::FleetWorkspace;
use kontur::gatehost::host::GateHost;
use kontur::ids::TaskId;
use kontur::session::SessionContext;
use kontur::sign::{Ed25519Signer, Signer};
use kontur::workspace::{CommandOutput, FrozenDiff, InMemoryWorkspace, Workspace};

/// One directory for whatever is written: a freeze shows all of it, whichever
/// task wrote it.
struct Directory(InMemoryWorkspace);

fn everything() -> TaskId {
    TaskId("everything".into())
}

impl Workspace for Directory {
    fn assign_task(&mut self, _t: &TaskId, agent: &str) {
        self.0.assign_task(&everything(), agent)
    }
    fn apply_write(&mut self, _t: &TaskId, p: &str, c: &[u8]) -> Result<(), WorkspaceError> {
        self.0.apply_write(&everything(), p, c)
    }
    fn run_command(&mut self, _t: &TaskId, c: &str, w: &str) -> Result<CommandOutput, WorkspaceError> {
        self.0.run_command(&everything(), c, w)
    }
    fn freeze_task_diff(&mut self, _t: &TaskId) -> Result<FrozenDiff, WorkspaceError> {
        self.0.freeze_task_diff(&everything())
    }
    fn accept_task(&mut self, t: &TaskId) -> Result<(), WorkspaceError> {
        self.0.accept_task(t)
    }
    fn discard_task(&mut self, t: &TaskId) -> Result<(), WorkspaceError> {
        self.0.discard_task(t)
    }
    fn merge_session(&mut self, m: &str) -> Result<(), WorkspaceError> {
        self.0.merge_session(m)
    }
    fn read_file(&mut self, _t: &TaskId, p: &str) -> Result<Option<Vec<u8>>, WorkspaceError> {
        self.0.read_file(&everything(), p)
    }
    fn audit_dir(&self) -> Option<String> {
        None
    }
    fn write_audit(&mut self, d: &str, n: &str, r: &[AuditEntry]) -> Result<String, String> {
        self.0.write_audit(d, n, r)
    }
}

/// A fleet that makes a directory for an agent when its first task needs one.
struct Fleet(FleetWorkspace<Directory>);

impl Fleet {
    fn create(session: &str, default_agent: &str) -> Self {
        let first = Directory(InMemoryWorkspace::new());
        Fleet(FleetWorkspace::create(session, default_agent, first))
    }

    fn housing(&mut self, t: &TaskId) -> &mut FleetWorkspace<Directory> {
        if self.0.missing(t).is_some() {
            self.0.add(t, Directory(InMemoryWorkspace::new()));
        }
        &mut self.0
    }
}

impl Workspace for Fleet {
    fn assign_task(&mut self, t: &TaskId, agent: &str) {
        self.0.assign_task(t, agent)
    }
    fn apply_write(&mut self, t: &TaskId, p: &str, c: &[u8]) -> Result<(), WorkspaceError> {
        self.housing(t).apply_write(t, p, c)
    }
    fn run_command(&mut self, t: &TaskId, c: &str, w: &str) -> Result<CommandOutput, WorkspaceError> {
        self.housing(t).run_command(t, c, w)
    }
    fn freeze_task_diff(&mut self, t: &TaskId) -> Result<FrozenDiff, WorkspaceError> {
        self.housing(t).freeze_task_diff(t)
    }
    fn accept_task(&mut self, t: &TaskId) -> Result<(), WorkspaceError> {
        self.housing(t).accept_task(t)
    }
    fn discard_task(&mut self, t: &TaskId) -> Result<(), WorkspaceError> {
        self.housing(t).discard_task(t)
    }
    fn merge_session(&mut self, m: &str) -> Result<(), WorkspaceError> {
        for i in 0..self.0.len() {
            self.0.land(i, "1", m)?;
        }
        Ok(())
    }
    fn read_file(&mut self, t: &TaskId, p: &str) -> Result<Option<Vec<u8>>, WorkspaceError> {
        self.housing(t).read_file(t, p)
    }
    fn audit_dir(&self) -> Option<String> {
        None
    }
    fn write_audit(&mut self, _d: &str, _n: &str, _r: &[AuditEntry]) -> Result<String, String> {
        Err("no audit directory".to_string())
    }
}

fn fleet_host() -> GateHost<Fleet> {
    let op1 = Ed25519Signer::from_seed([1; 32]).operator_id();
    let op2 = Ed25519Signer::from_seed([2; 32]).operator_id();
    let ctx = SessionContext::new("fleet", op1, "agent-a", "model", "1.0", vec![op1, op2]);
    GateHost::new(ctx, Fleet::create("s1", "agent-a"))
}

#[test]
fn two_agents_gates_are_isolated_through_gatehost() {
    let mut host = fleet_host();

    // Two agents write to the same file path under their own namespaced tasks.
    let ta = TaskId("agent-a::1".into());
    let tb = TaskId("agent-b::1".into());
    host.record_write("agent-a", &ta, "shared.rs", b"from A\n").unwrap();
    host.record_write("agent-b", &tb, "shared.rs", b"from B\n").unwrap();

    // Each agent opens its own gate.
    host.begin_task_gate("agent-a", ta.clone(), 0).unwrap();
    host.begin_task_gate("agent-b", tb.clone(), 0).unwrap();

    let pending = host.pending_gates();
    assert_eq!(pending.len(), 2, "one gate per agent");

    for gate in &pending {
        let diff = host.gate_diff(&gate.gate_id).expect("diff bytes");
        let txt = String::from_utf8(diff).unwrap();
        match gate.agent.as_str() {
            "agent-a" => {
                assert!(txt.contains("from A"), "agent-a gate shows A's write");
                assert!(!txt.contains("from B"), "agent-a gate must NOT show agent-b's write");
            }
            "agent-b" => {
                assert!(txt.contains("from B"), "agent-b gate shows B's write");
                assert!(!txt.contains("from A"), "agent-b gate must NOT show agent-a's write");
            }
            other => panic!("unexpected agent attribution: {other}"),
        }
    }
}

// Whoever claims a task later, its work goes on in the first agent's worktree.
#[test]
fn a_task_stays_with_the_agent_it_was_first_handed_to() {
    let mut host = fleet_host();
    let t = TaskId("agent-b::1".into());
    host.record_write("agent-b", &t, "one.rs", b"1\n").unwrap();
    host.record_write("agent-a", &t, "two.rs", b"2\n").unwrap();
    host.begin_task_gate("agent-c", t, 0).unwrap();
    assert_eq!(
        host.pending_gates()[0].files,
        vec!["one.rs".to_string(), "two.rs".to_string()]
    );
    let fleet = &host.workspace().0;
    assert_eq!(fleet.agents(), vec!["agent-a".to_string(), "agent-b".to_string()]);
    assert_eq!(fleet.tree(0).0.file_contents(&everything(), "two.rs"), None);
    assert_eq!(
        fleet.tree(1).0.file_contents(&everything(), "two.rs"),
        Some(b"2\n".to_vec())
    );
}

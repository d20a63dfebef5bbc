//! A scripted agent: works its tasks one at a time, each behind a gate, and
//! reworks what the operators send back.
use vstd::prelude::*;

use crate::error::GateHostError;
use crate::gatehost::effects::{finished_tasks_open_a_gate, writes_are_made_and_reported};
use crate::gatehost::model::{gate_index, gate_index_bounds, live_id, GateFinal, HostModel};
use crate::hold::{first_remedy, HoldState};
use crate::ids::{GateId, TaskId};
use crate::protocol::WireFleetCard;
use crate::server::effects::{card_put, cards_are_kept_by_id, one_line_more, unfinished};
use crate::server::laws::refresh_only_shows;
use crate::server::model::{with_card, CardModel, NetModel, ServerModel};
use crate::server::session::SessionServer;
use crate::verdict::Remedy;
use crate::workspace::{Workspace, WorkspaceCall};

verus! {

#[derive(Debug)]
pub struct ScriptedTask {
    pub id: String,
    pub path: String,
    pub contents: String,
}

#[derive(Debug)]
pub struct ScriptedAgent {
    pub tasks: Vec<ScriptedTask>,
}

/// What a task says.
#[verifier::ext_equal]
pub struct TaskModel {
    pub id: Seq<char>,
    pub path: Seq<char>,
    pub contents: Seq<char>,
}

impl View for ScriptedTask {
    type V = TaskModel;

    open spec fn view(&self) -> TaskModel {
        TaskModel { id: self.id@, path: self.path@, contents: self.contents@ }
    }
}

/// What each task says.
pub open spec fn task_models(v: Seq<ScriptedTask>) -> Seq<TaskModel> {
    v.map_values(|t: ScriptedTask| t@)
}

/// The two tasks of the demonstration.
pub open spec fn demo_tasks() -> Seq<TaskModel> {
    seq![
        TaskModel {
            id: "t1"@,
            path: "src/guard.rs"@,
            contents: "// guard\npub fn guard() {}\n"@,
        },
        TaskModel {
            id: "t2"@,
            path: "src/tokens.rs"@,
            contents: "// tokens\npub fn tokens() -> u64 { 0 }\n"@,
        },
    ]
}

impl ScriptedAgent {
    pub fn demo() -> (r: Self)
        ensures
            task_models(r.tasks@) == demo_tasks(),
    {
        let mut tasks: Vec<ScriptedTask> = Vec::new();
        tasks.push(
            ScriptedTask {
                id: "t1".to_owned(),
                path: "src/guard.rs".to_owned(),
                contents: "// guard\npub fn guard() {}\n".to_owned(),
            },
        );
        tasks.push(
            ScriptedTask {
                id: "t2".to_owned(),
                path: "src/tokens.rs".to_owned(),
                contents: "// tokens\npub fn tokens() -> u64 { 0 }\n".to_owned(),
            },
        );
        ScriptedAgent { tasks }
    }
}

/// What the agent is doing.
#[derive(Debug)]
pub enum AgentStage {
    /// Waiting until both seats have approved a plan.
    Planning,
    /// About to take up the next task.
    Starting,
    /// Waiting for a gate.
    Reviewing { gate_id: GateId, ticket: usize },
    Finished,
    /// The worktree or the session refused: nothing more is done.
    Stopped,
}

/// What a step came to.
#[derive(Debug)]
pub enum AgentStep {
    /// There is something to wait for.
    Waiting,
    /// The next step can be taken at once.
    Working,
    Finished,
    Failed(GateHostError),
}

/// A scripted agent at work.
#[derive(Debug)]
pub struct AgentRun {
    tasks: Vec<ScriptedTask>,
    at: usize,
    attempts: u32,
    stage: AgentStage,
}

/// A scripted agent at work.
#[verifier::ext_equal]
pub struct RunModel {
    pub tasks: Seq<TaskModel>,
    /// The task that it is at.
    pub at: nat,
    /// How often that task was reworked.
    pub attempts: nat,
    pub stage: AgentStage,
}

impl View for AgentRun {
    type V = RunModel;

    closed spec fn view(&self) -> RunModel {
        RunModel {
            tasks: task_models(self.tasks@),
            at: self.at as nat,
            attempts: self.attempts as nat,
            stage: self.stage,
        }
    }
}

/// How often a task is reworked before the agent gives it up.
pub const REWORK_CAP: u32 = 3;

/// What the agent is told to do about a blocked gate.
pub open spec fn steer_words(remedy: Option<Remedy>) -> Seq<char> {
    match remedy {
        Some(Remedy::Steer(s)) => s@,
        Some(Remedy::HandEdit(_)) => "hand-edit"@,
        None => "rework"@,
    }
}

/// What a gate's outcome tells the agent to do.
pub open spec fn outcome_words(outcome: Option<GateFinal>) -> Seq<char> {
    match outcome {
        Some(summary) => steer_words(summary.remedy),
        None => "rework"@,
    }
}

/// What the agent is told to do about the review gate with this id.
pub open spec fn gate_words(h: HostModel, gate_id: Seq<char>) -> Seq<char> {
    let i = gate_index(h.gates, live_id(h.superseded, gate_id)) as int;
    if i >= h.gates.len() {
        "rework"@
    } else if h.gates[i].hold.state is Blocked {
        steer_words(first_remedy(h.gates[i].hold.verdicts))
    } else {
        steer_words(None)
    }
}

/// The contents of a task after a rework.
pub open spec fn reworked(contents: Seq<char>, steer: Seq<char>) -> Seq<char> {
    contents + "\n// fix: "@ + steer + "\n"@
}

/// A card of the agent's task was put on the console.
#[verifier::opaque]
pub open spec fn card_shown(
    m: ServerModel,
    card: CardModel,
    now: nat,
    after: ServerModel,
) -> bool {
    m.with_net(NetModel { fleet: with_card(m.net.fleet, card), ..m.net }).refreshed(after, now)
}

/// The task's contents were written and put before the operators: the console
/// shows that the task awaits sign-off only where both succeeded.
#[verifier::opaque]
pub open spec fn task_proposed(
    m: ServerModel,
    task: TaskModel,
    tokens: nat,
    now: nat,
    after: ServerModel,
    r: Result<(GateId, usize), GateHostError>,
) -> bool {
    exists|written: HostModel, w: Result<(), GateHostError>| #[trigger]
        m.host.write_made(
            "agent-01"@,
            task.id,
            task.path,
            vstd::utf8::encode_utf8(task.contents),
            written,
            w,
        ) && match w {
            Err(e) => after == (ServerModel { host: written, ..m }) && r == Err::<
                (GateId, usize),
                GateHostError,
            >(e),
            Ok(_) => task_gated(m, task, tokens, now, written, after, r),
        }
}

/// The written task was put before the operators.
pub open spec fn task_gated(
    m: ServerModel,
    task: TaskModel,
    tokens: nat,
    now: nat,
    written: HostModel,
    after: ServerModel,
    r: Result<(GateId, usize), GateHostError>,
) -> bool {
    exists|gated: HostModel| #[trigger]
        written.gate_begun("agent-01"@, task.id, tokens, gated, r) && match r {
            Err(_) => after == (ServerModel { host: gated, ..m }),
            Ok(_) => card_shown(
                ServerModel { host: gated, ..m },
                CardModel { id: task.id, status: "awaiting-signoff"@, needs_signoff: true },
                now,
                after,
            ),
        }
}

impl RunModel {
    pub open spec fn valid(self) -> bool {
        &&& self.at <= self.tasks.len()
        &&& self.attempts <= REWORK_CAP
        &&& self.tasks.len() <= u64::MAX / 100
        &&& self.stage is Reviewing ==> self.at < self.tasks.len()
    }

    /// The tickets that it waits on exist.
    pub open spec fn waits_on(self, m: ServerModel) -> bool {
        self.stage matches AgentStage::Reviewing { ticket, .. } ==> ticket < m.host.watches.len()
    }

    /// What the task that it is at costs.
    pub open spec fn tokens(self) -> nat {
        100 * (self.at + 1)
    }

    /// With the next task to take up.
    pub open spec fn moved_on(self) -> RunModel {
        RunModel { at: self.at + 1, stage: AgentStage::Starting, ..self }
    }

    /// With the review gate that its proposal opened, or stopped where it failed.
    pub open spec fn gated(self, r: Result<(GateId, usize), GateHostError>) -> RunModel {
        RunModel {
            stage: match r {
                Ok(opened) => AgentStage::Reviewing { gate_id: opened.0, ticket: opened.1 },
                Err(_) => AgentStage::Stopped,
            },
            ..self
        }
    }

    /// The task with the operators' steer worked in.
    pub open spec fn reworking(self, steer: Seq<char>) -> RunModel {
        let task = self.tasks[self.at as int];
        RunModel {
            tasks: self.tasks.update(
                self.at as int,
                TaskModel { contents: reworked(task.contents, steer), ..task },
            ),
            attempts: self.attempts + 1,
            ..self
        }
    }

    /// Nothing is left: the console says so and the session is told.
    pub open spec fn ends(self, m: ServerModel, now: nat, after: ServerModel) -> bool {
        exists|idle: ServerModel| #[trigger]
            card_shown(
                m,
                CardModel { id: "agent"@, status: "idle"@, needs_signoff: false },
                now,
                idle,
            ) && idle.with_net(NetModel { agent_done: true, ..idle.net }).refreshed(after, now)
    }

    /// The next task was taken up.
    pub open spec fn starts(
        self,
        m: ServerModel,
        now: nat,
        after: ServerModel,
        r: Result<(GateId, usize), GateHostError>,
    ) -> bool {
        let task = self.tasks[self.at as int];
        exists|working: ServerModel| #[trigger]
            card_shown(
                m,
                CardModel { id: task.id, status: "working"@, needs_signoff: false },
                now,
                working,
            ) && task_proposed(working, task, self.tokens(), now, after, r)
    }

    /// One step, from `self` and `m` to `next` and `after`.
    pub open spec fn stepped(
        self,
        m: ServerModel,
        now: nat,
        step: AgentStep,
        next: RunModel,
        after: ServerModel,
    ) -> bool {
        match self.stage {
            AgentStage::Planning => {
                &&& after == m
                &&& if m.plan_approved {
                    step is Working && next == (RunModel {
                        stage: AgentStage::Starting,
                        ..self
                    })
                } else {
                    step is Waiting && next == self
                }
            },
            AgentStage::Starting => if self.at >= self.tasks.len() {
                &&& self.ends(m, now, after)
                &&& step is Finished
                &&& next == (RunModel { stage: AgentStage::Finished, ..self })
            } else {
                exists|r: Result<(GateId, usize), GateHostError>| #[trigger]
                    self.starts(m, now, after, r) && next == (RunModel {
                        attempts: 0,
                        ..self
                    }).gated(r) && match r {
                        Ok(_) => step is Waiting,
                        Err(e) => step == AgentStep::Failed(e),
                    }
            },
            AgentStage::Reviewing { gate_id, ticket } => match m.host.watches[ticket as int] {
                HoldState::Satisfied => {
                    let task = self.tasks[self.at as int];
                    &&& card_shown(
                        m,
                        CardModel { id: task.id, status: "done"@, needs_signoff: false },
                        now,
                        after,
                    )
                    &&& step is Working
                    &&& next == self.moved_on()
                },
                HoldState::Blocked => if self.attempts >= REWORK_CAP {
                    &&& m.with_net(
                        m.net.logged(
                            now,
                            "rework cap reached for "@ + self.tasks[self.at as int].id,
                        ),
                    ).refreshed(after, now)
                    &&& step is Working
                    &&& next == self.moved_on()
                } else {
                    let again = self.reworking(gate_words(m.host, gate_id@));
                    exists|r: Result<(GateId, usize), GateHostError>| #[trigger]
                        task_proposed(
                            m,
                            again.tasks[self.at as int],
                            self.tokens(),
                            now,
                            after,
                            r,
                        ) && next == again.gated(r) && match r {
                            Ok(_) => step is Waiting,
                            Err(e) => step == AgentStep::Failed(e),
                        }
                },
                _ => after == m && step is Waiting && next == self,
            },
            AgentStage::Finished => after == m && step is Finished && next == self,
            AgentStage::Stopped => after == m && step is Finished && next == self,
        }
    }
}

/// What a gate's outcome tells the agent to do.
pub fn steer_for(outcome: Option<GateFinal>) -> (r: String)
    ensures
        r@ == outcome_words(outcome),
{
    match outcome {
        Some(summary) => match summary.remedy {
            Some(Remedy::Steer(s)) => s,
            Some(Remedy::HandEdit(_)) => "hand-edit".to_owned(),
            None => "rework".to_owned(),
        },
        None => "rework".to_owned(),
    }
}

/// Put a card on the console.
fn show<W: Workspace>(server: &mut SessionServer<W>, card: WireFleetCard, now: u64)
    requires
        old(server).wf(),
    ensures
        final(server).wf(),
        card_shown(
            old(server)@,
            CardModel { id: card.id@, status: card.status@, needs_signoff: card.needs_signoff },
            now as nat,
            final(server)@,
        ),
        final(server)@.host.watches == old(server)@.host.watches,
        final(server)@.host.next_gate == old(server)@.host.next_gate,
{
    reveal(card_shown);
    server.agent_status(card, now);
}

impl AgentRun {
    pub fn new(agent: ScriptedAgent) -> (r: Self)
        requires
            agent.tasks@.len() <= u64::MAX / 100,
        ensures
            r@ == (RunModel {
                tasks: task_models(agent.tasks@),
                at: 0,
                attempts: 0,
                stage: AgentStage::Planning,
            }),
            r@.valid(),
    {
        AgentRun { tasks: agent.tasks, at: 0, attempts: 0, stage: AgentStage::Planning }
    }

    /// Write the task that the agent is at and put it before the operators.
    fn propose<W: Workspace>(&self, server: &mut SessionServer<W>, now: u64) -> (r: Result<
        (GateId, usize),
        GateHostError,
    >)
        requires
            self@.valid(),
            self@.at < self@.tasks.len(),
            old(server).wf(),
            old(server)@.host.has_room(),
        ensures
            final(server).wf(),
            task_proposed(
                old(server)@,
                self@.tasks[self@.at as int],
                self@.tokens(),
                now as nat,
                final(server)@,
                r,
            ),
            r matches Ok(opened) ==> opened.1 < final(server)@.host.watches.len(),
    {
        reveal(task_proposed);
        let ghost m = server@;
        let task = &self.tasks[self.at];
        let bytes = task.contents.as_str().as_bytes();
        let task_id = TaskId(task.id.clone());
        let w = server.host_mut().record_write("agent-01", &task_id, task.path.as_str(), bytes);
        let ghost written = server@.host;
        assert(m.host.write_made(
            "agent-01"@,
            task@.id,
            task@.path,
            vstd::utf8::encode_utf8(task@.contents),
            written,
            w,
        ));
        match w {
            Err(e) => {
                return Err(e);
            },
            Ok(_) => {},
        }
        let tokens: u64 = 100 * (self.at as u64 + 1);
        let r = server.host_mut().begin_task_gate("agent-01", task_id, tokens);
        match r {
            Err(e) => Err(e),
            Ok(opened) => {
                let card = WireFleetCard {
                    id: task.id.clone(),
                    status: "awaiting-signoff".to_owned(),
                    needs_signoff: true,
                };
                show(server, card, now);
                Ok(opened)
            },
        }
    }

    fn card(&self, status: &str) -> (r: WireFleetCard)
        requires
            self@.at < self@.tasks.len(),
        ensures
            r.id@ == self@.tasks[self@.at as int].id,
            r.status@ == status@,
            !r.needs_signoff,
    {
        WireFleetCard {
            id: self.tasks[self.at].id.clone(),
            status: status.to_owned(),
            needs_signoff: false,
        }
    }

    /// Take up the next task, or end.
    fn start<W: Workspace>(&mut self, server: &mut SessionServer<W>, now: u64) -> (r: AgentStep)
        requires
            old(self)@.valid(),
            old(self)@.stage is Starting,
            old(server).wf(),
            old(server)@.host.has_room(),
        ensures
            final(self)@.valid(),
            final(self)@.waits_on(final(server)@),
            final(server).wf(),
            old(self)@.stepped(old(server)@, now as nat, r, final(self)@, final(server)@),
    {
        let ghost run = self@;
        let ghost m = server@;
        if self.at >= self.tasks.len() {
            let idle = WireFleetCard {
                id: "agent".to_owned(),
                status: "idle".to_owned(),
                needs_signoff: false,
            };
            show(server, idle, now);
            server.agent_done(now);
            self.stage = AgentStage::Finished;
            return AgentStep::Finished;
        }
        let card = self.card("working");
        show(server, card, now);
        self.attempts = 0;
        let r = self.propose(server, now);
        assert(run.starts(m, now as nat, server@, r));
        self.follow(r)
    }

    /// Wait for the review gate that a proposal opened, or stop.
    fn follow(&mut self, r: Result<(GateId, usize), GateHostError>) -> (step: AgentStep)
        ensures
            final(self)@ == old(self)@.gated(r),
            match r {
                Ok(_) => step is Waiting,
                Err(e) => step == AgentStep::Failed(e),
            },
    {
        match r {
            Ok(opened) => {
                self.stage = AgentStage::Reviewing { gate_id: opened.0, ticket: opened.1 };
                AgentStep::Waiting
            },
            Err(e) => {
                self.stage = AgentStage::Stopped;
                AgentStep::Failed(e)
            },
        }
    }

    /// Rework the task by the operators' steer and propose it again.
    fn rework<W: Workspace>(
        &mut self,
        server: &mut SessionServer<W>,
        gate_id: &GateId,
        now: u64,
    ) -> (r: Result<(GateId, usize), GateHostError>)
        requires
            old(self)@.valid(),
            old(self)@.at < old(self)@.tasks.len(),
            old(self)@.attempts < REWORK_CAP,
            old(server).wf(),
            old(server)@.host.has_room(),
        ensures
            final(server).wf(),
            final(self)@ == old(self)@.reworking(gate_words(old(server)@.host, gate_id@)),
            final(self)@.valid(),
            task_proposed(
                old(server)@,
                final(self)@.tasks[old(self)@.at as int],
                old(self)@.tokens(),
                now as nat,
                final(server)@,
                r,
            ),
            r matches Ok(opened) ==> opened.1 < final(server)@.host.watches.len(),
    {
        self.attempts = self.attempts + 1;
        let outcome = server.host().gate_outcome(gate_id);
        let steer = steer_for(outcome);
        let at: usize = self.at;
        let fixed = self.tasks[at].contents.clone().concat("\n// fix: ").concat(
            steer.as_str(),
        ).concat("\n");
        self.tasks[at].contents = fixed;
        self.propose(server, now)
    }

    /// Look at the review gate that the agent waits for.
    #[verifier::spinoff_prover]
    #[verifier::rlimit(40)]
    fn review<W: Workspace>(
        &mut self,
        server: &mut SessionServer<W>,
        gate_id: GateId,
        ticket: usize,
        now: u64,
    ) -> (r: AgentStep)
        requires
            old(self)@.valid(),
            old(self)@.at < old(self)@.tasks.len(),
            ticket < old(server)@.host.watches.len(),
            old(server).wf(),
            old(server)@.host.has_room(),
        ensures
            final(self)@.valid(),
            final(self)@.waits_on(final(server)@),
            final(server).wf(),
            (RunModel {
                stage: AgentStage::Reviewing { gate_id, ticket },
                ..old(self)@
            }).stepped(old(server)@, now as nat, r, final(self)@, final(server)@),
    {
        let ghost run = RunModel {
            stage: AgentStage::Reviewing { gate_id, ticket },
            ..self@
        };
        let ghost m = server@;
        assert(self.at < self.tasks.len());
        match server.host().gate_state(ticket) {
            HoldState::Satisfied => {
                let card = self.card("done");
                show(server, card, now);
                self.at = self.at + 1;
                self.stage = AgentStage::Starting;
                AgentStep::Working
            },
            HoldState::Blocked => {
                if self.attempts >= REWORK_CAP {
                    let line = "rework cap reached for ".to_owned().concat(
                        self.tasks[self.at].id.as_str(),
                    );
                    server.agent_log(line, now);
                    self.at = self.at + 1;
                    self.stage = AgentStage::Starting;
                    AgentStep::Working
                } else {
                    let r = self.rework(server, &gate_id, now);
                    let ghost again = run.reworking(gate_words(m.host, gate_id@));
                    assert(task_proposed(
                        m,
                        again.tasks[run.at as int],
                        run.tokens(),
                        now as nat,
                        server@,
                        r,
                    ));
                    self.follow(r)
                }
            },
            _ => {
                self.stage = AgentStage::Reviewing { gate_id, ticket };
                AgentStep::Waiting
            },
        }
    }

    /// Take one step. Call it again at once after `Working`, and after `Waiting`
    /// when something has happened in the session.
    pub fn step<W: Workspace>(&mut self, server: &mut SessionServer<W>, now: u64) -> (r: AgentStep)
        requires
            old(self)@.valid(),
            old(self)@.waits_on(old(server)@),
            old(server).wf(),
            old(server)@.host.has_room(),
        ensures
            final(self)@.valid(),
            final(self)@.waits_on(final(server)@),
            final(server).wf(),
            old(self)@.stepped(old(server)@, now as nat, r, final(self)@, final(server)@),
    {
        let mut stage = AgentStage::Stopped;
        std::mem::swap(&mut stage, &mut self.stage);
        match stage {
            AgentStage::Planning => {
                if server.plan_approved() {
                    self.stage = AgentStage::Starting;
                    AgentStep::Working
                } else {
                    self.stage = AgentStage::Planning;
                    AgentStep::Waiting
                }
            },
            AgentStage::Starting => {
                self.stage = AgentStage::Starting;
                self.start(server, now)
            },
            AgentStage::Reviewing { gate_id, ticket } => {
                self.review(server, gate_id, ticket, now)
            },
            AgentStage::Finished => {
                self.stage = AgentStage::Finished;
                AgentStep::Finished
            },
            AgentStage::Stopped => AgentStep::Finished,
        }
    }
}

// ---------------------------------------------------------------------------
// Laws
// ---------------------------------------------------------------------------
/// One task at a time: the agent leaves a task only when its gate was accepted,
/// or was sent back after the last rework; and it ends only when no task is
/// left.
pub proof fn one_task_at_a_time(
    run: RunModel,
    m: ServerModel,
    now: nat,
    step: AgentStep,
    next: RunModel,
    after: ServerModel,
)
    requires
        run.valid(),
        run.stepped(m, now, step, next, after),
    ensures
        next.at == run.at || next.at == run.at + 1,
        next.at == run.at + 1 ==> {
            &&& run.stage matches AgentStage::Reviewing { ticket, .. }
            &&& {
                ||| m.host.watches[ticket as int] is Satisfied
                ||| m.host.watches[ticket as int] is Blocked && run.attempts >= REWORK_CAP
            }
        },
        run.stage is Starting && step is Finished ==> run.at == run.tasks.len(),
{
}

/// A rework keeps the work and adds the operators' steer to it; the other tasks
/// stay as they are.
pub proof fn rework_keeps_the_work(run: RunModel, steer: Seq<char>)
    requires
        run.valid(),
        run.at < run.tasks.len(),
    ensures
        ({
            let before = run.tasks[run.at as int].contents;
            let after = run.reworking(steer).tasks[run.at as int].contents;
            &&& before.is_prefix_of(after)
            &&& after == before + "\n// fix: "@ + steer + "\n"@
        }),
        forall|i: int|
            0 <= i < run.tasks.len() && i != run.at ==> #[trigger] run.reworking(steer).tasks[i]
                == run.tasks[i],
{
}

/// The agent is told what the operators say: a steer in its own words, that a
/// change was edited by hand, or else to rework.
pub proof fn agents_are_told_the_steer(outcome: Option<GateFinal>)
    ensures
        outcome matches Some(summary) ==> match summary.remedy {
            Some(Remedy::Steer(s)) => outcome_words(outcome) == s@,
            Some(Remedy::HandEdit(_)) => outcome_words(outcome) == "hand-edit"@,
            None => outcome_words(outcome) == "rework"@,
        },
        outcome is None ==> outcome_words(outcome) == "rework"@,
{
}

/// Of a blocked gate the agent is told the first dissenter's remedy, and of the
/// one that took its place where it was superseded; of a gate that is not blocked,
/// or not there, to rework.
pub proof fn agents_are_told_of_the_live_gate(h: HostModel, gate_id: Seq<char>, i: int)
    requires
        0 <= i <= h.gates.len(),
        i < h.gates.len() ==> h.gates[i].hold.gate_id == live_id(h.superseded, gate_id),
        forall|j: int|
            0 <= j < i ==> (#[trigger] h.gates[j]).hold.gate_id != live_id(h.superseded, gate_id),
    ensures
        i < h.gates.len() && h.gates[i].hold.state is Blocked ==> match first_remedy(
            h.gates[i].hold.verdicts,
        ) {
            Some(Remedy::Steer(s)) => gate_words(h, gate_id) == s@,
            Some(Remedy::HandEdit(_)) => gate_words(h, gate_id) == "hand-edit"@,
            None => gate_words(h, gate_id) == "rework"@,
        },
        i == h.gates.len() || !(h.gates[i].hold.state is Blocked) ==> gate_words(h, gate_id)
            == "rework"@,
{
    let live = live_id(h.superseded, gate_id);
    gate_index_bounds(h.gates, live);
    let k = gate_index(h.gates, live) as int;
    assert(k == i) by {
        if k < i {
            assert(h.gates[k].hold.gate_id == live);
        }
        if i < k {
            assert(h.gates[i].hold.gate_id != live);
        }
    }
}

/// A proposed task was written first, with its own contents at its own path, and
/// its gate is over what was frozen then, with what it cost; its card awaits
/// sign-off. Where it could not be written or frozen no card changes and the agent
/// is told why.
pub proof fn proposed_tasks_are_written_first(
    m: ServerModel,
    task: TaskModel,
    tokens: nat,
    now: nat,
    after: ServerModel,
    r: Result<(GateId, usize), GateHostError>,
)
    requires
        unfinished(m),
        task_proposed(m, task, tokens, now, after, r),
    ensures
        ({
            let n = m.host.calls.len() as int;
            &&& after.host.calls.len() >= n + 2
            &&& after.host.calls[n] == (WorkspaceCall::Assign { task: task.id, agent: "agent-01"@ })
            &&& after.host.calls[n + 1] matches WorkspaceCall::Write { task: t, path, contents, .. }
                && t == task.id && path == task.path && contents == vstd::utf8::encode_utf8(
                task.contents,
            )
        }),
        r is Err ==> after.net == m.net && after.wire == m.wire && after.host.gates == m.host.gates,
        r matches Ok(opened) ==> {
            &&& card_put(
                m.net.fleet,
                after.net.fleet,
                CardModel { id: task.id, status: "awaiting-signoff"@, needs_signoff: true },
            )
            &&& after.host.gates.len() == m.host.gates.len() + 1
            &&& after.host.gates.drop_last() == m.host.gates
            &&& after.host.gates.last().hold.task_id == task.id
            &&& after.host.gates.last().hold.gate_id == opened.0@
            &&& after.host.gates.last().watch == opened.1
            &&& after.host.gates.last().provenance.tokens == tokens
            &&& after.host.gates.last().provenance.agent_id == "agent-01"@
        },
        after.cfg == m.cfg,
        after.plan_approved == m.plan_approved,
        after.join == m.join,
{
    reveal(task_proposed);
    reveal(card_shown);
    let (written, w) = choose|written: HostModel, w: Result<(), GateHostError>| #[trigger]
        m.host.write_made(
            "agent-01"@,
            task.id,
            task.path,
            vstd::utf8::encode_utf8(task.contents),
            written,
            w,
        ) && match w {
            Err(e) => after == (ServerModel { host: written, ..m }) && r == Err::<
                (GateId, usize),
                GateHostError,
            >(e),
            Ok(_) => task_gated(m, task, tokens, now, written, after, r),
        };
    let n = m.host.calls.len() as int;
    writes_are_made_and_reported(
        m.host,
        "agent-01"@,
        task.id,
        task.path,
        vstd::utf8::encode_utf8(task.contents),
        written,
        w,
    );
    if w is Ok {
        let gated = choose|gated: HostModel| #[trigger]
            written.gate_begun("agent-01"@, task.id, tokens, gated, r) && match r {
                Err(_) => after == (ServerModel { host: gated, ..m }),
                Ok(_) => card_shown(
                    ServerModel { host: gated, ..m },
                    CardModel { id: task.id, status: "awaiting-signoff"@, needs_signoff: true },
                    now,
                    after,
                ),
            };
        assert(gated.calls[n] == written.calls[n] && gated.calls[n + 1] == written.calls[n + 1]);
        if let Ok(opened) = r {
            finished_tasks_open_a_gate(written, "agent-01"@, task.id, tokens, gated, opened);
            let shown = ServerModel { host: gated, ..m };
            let card = CardModel {
                id: task.id,
                status: "awaiting-signoff"@,
                needs_signoff: true,
            };
            let mid = shown.with_net(NetModel { fleet: with_card(m.net.fleet, card), ..m.net });
            refresh_only_shows(mid, after, now);
            cards_are_kept_by_id(m.net.fleet, card);
            assert(after.host.calls.len() >= gated.calls.len());
            assert(after.host.calls[n] == gated.calls[n]);
            assert(after.host.calls[n + 1] == gated.calls[n + 1]);
        }
    }
}

/// A card that the agent puts on the console takes the place of the one with its
/// id, and nothing else changes.
pub proof fn agents_cards_are_shown(m: ServerModel, card: CardModel, now: nat, after: ServerModel)
    requires
        unfinished(m),
        card_shown(m, card, now, after),
    ensures
        card_put(m.net.fleet, after.net.fleet, card),
        after.net == (NetModel { fleet: after.net.fleet, ..m.net }),
        after.host == (HostModel { calls: after.host.calls, ..m.host }),
{
    reveal(card_shown);
    cards_are_kept_by_id(m.net.fleet, card);
}

/// The agent starts once a plan is approved, takes up the task that it is at with
/// no rework behind it, and ends when none is left.
pub proof fn agents_start_and_end(
    run: RunModel,
    m: ServerModel,
    now: nat,
    step: AgentStep,
    next: RunModel,
    after: ServerModel,
)
    requires
        run.valid(),
        unfinished(m),
        run.stepped(m, now, step, next, after),
    ensures
        run.stage is Planning ==> {
            &&& after == m
            &&& m.plan_approved ==> next.stage is Starting && step is Working
            &&& !m.plan_approved ==> next.stage is Planning && step is Waiting
            &&& next == (RunModel { stage: next.stage, ..run })
        },
        run.stage is Starting && run.at == run.tasks.len() ==> {
            &&& step is Finished
            &&& next.stage is Finished
            &&& next == (RunModel { stage: next.stage, ..run })
            &&& card_put(
                m.net.fleet,
                after.net.fleet,
                CardModel { id: "agent"@, status: "idle"@, needs_signoff: false },
            )
            &&& after.net.agent_done
        },
        run.stage is Starting && run.at < run.tasks.len() ==> {
            &&& next.stage is Reviewing || next.stage is Stopped
            &&& next.stage is Reviewing <==> step is Waiting
            &&& next.stage is Stopped <==> step is Failed
            &&& next.attempts == 0
            &&& next.at == run.at
            &&& next.tasks == run.tasks
            &&& exists|fleet: Seq<CardModel>|
                {
                    &&& #[trigger] card_put(
                        m.net.fleet,
                        fleet,
                        CardModel {
                            id: run.tasks[run.at as int].id,
                            status: "working"@,
                            needs_signoff: false,
                        },
                    )
                    &&& next.stage is Stopped ==> after.net.fleet == fleet
                    &&& next.stage is Reviewing ==> card_put(
                        fleet,
                        after.net.fleet,
                        CardModel {
                            id: run.tasks[run.at as int].id,
                            status: "awaiting-signoff"@,
                            needs_signoff: true,
                        },
                    )
                }
            &&& next.stage matches AgentStage::Reviewing { gate_id, ticket } ==> {
                let gate = after.host.gates.last();
                &&& gate.hold.gate_id == gate_id@
                &&& gate.watch == ticket
                &&& gate.hold.task_id == run.tasks[run.at as int].id
                &&& gate.provenance.tokens == 100 * (run.at + 1)
            }
        },
        run.stage is Finished || run.stage is Stopped ==> after == m && step is Finished && next
            == run,
{
    reveal(card_shown);
    if run.stage is Starting && run.at == run.tasks.len() {
        let idle_card = CardModel { id: "agent"@, status: "idle"@, needs_signoff: false };
        let idle = choose|idle: ServerModel| #[trigger]
            card_shown(m, idle_card, now, idle) && idle.with_net(
                NetModel { agent_done: true, ..idle.net },
            ).refreshed(after, now);
        refresh_only_shows(idle.with_net(NetModel { agent_done: true, ..idle.net }), after, now);
        agents_cards_are_shown(m, idle_card, now, idle);
    }
    if run.stage is Starting && run.at < run.tasks.len() {
        let r = choose|r: Result<(GateId, usize), GateHostError>| #[trigger]
            run.starts(m, now, after, r) && next == (RunModel { attempts: 0, ..run }).gated(r)
                && match r {
                Ok(_) => step is Waiting,
                Err(e) => step == AgentStep::Failed(e),
            };
        let task = run.tasks[run.at as int];
        let working = choose|working: ServerModel| #[trigger]
            card_shown(
                m,
                CardModel { id: task.id, status: "working"@, needs_signoff: false },
                now,
                working,
            ) && task_proposed(working, task, run.tokens(), now, after, r);
        proposed_tasks_are_written_first(working, task, run.tokens(), now, after, r);
        agents_cards_are_shown(
            m,
            CardModel { id: task.id, status: "working"@, needs_signoff: false },
            now,
            working,
        );
    }
}

/// While a gate waits the agent waits. An accepted task is done and the next one
/// comes up; a rejected one is reworked by what the operators say, three times at
/// most, and given up then, which the log says.
pub proof fn agents_rework_what_is_rejected(
    run: RunModel,
    m: ServerModel,
    now: nat,
    step: AgentStep,
    next: RunModel,
    after: ServerModel,
    gate_id: GateId,
    ticket: usize,
)
    requires
        run.valid(),
        unfinished(m),
        run.stage == (AgentStage::Reviewing { gate_id, ticket }),
        run.stepped(m, now, step, next, after),
    ensures
        ({
            let state = m.host.watches[ticket as int];
            let task = run.tasks[run.at as int];
            &&& state is Open || state is Partial ==> after == m && next == run && step is Waiting
            &&& state is Satisfied ==> {
                &&& card_put(
                    m.net.fleet,
                    after.net.fleet,
                    CardModel { id: task.id, status: "done"@, needs_signoff: false },
                )
                &&& next.at == run.at + 1
                &&& next.stage is Starting
                &&& next.tasks == run.tasks
                &&& step is Working
            }
            &&& state is Blocked && run.attempts >= 3 ==> {
                &&& one_line_more(
                    m.net.log,
                    after.net.log,
                    now,
                    "rework cap reached for "@ + task.id,
                )
                &&& next.at == run.at + 1
                &&& next.stage is Starting
                &&& next.tasks == run.tasks
                &&& step is Working
            }
            &&& state is Blocked && run.attempts < 3 ==> {
                &&& next.at == run.at
                &&& next.attempts == run.attempts + 1
                &&& next.tasks.len() == run.tasks.len()
                &&& next.tasks[run.at as int].id == task.id
                &&& next.tasks[run.at as int].path == task.path
                &&& next.tasks[run.at as int].contents == task.contents + "\n// fix: "@
                    + gate_words(m.host, gate_id@) + "\n"@
                &&& forall|i: int|
                    0 <= i < run.tasks.len() && i != run.at ==> #[trigger] next.tasks[i]
                        == run.tasks[i]
                &&& next.stage is Reviewing || next.stage is Stopped
                &&& next.stage is Reviewing <==> step is Waiting
                &&& next.stage is Stopped <==> step is Failed
                &&& next.stage matches AgentStage::Reviewing { gate_id: fresh, ticket: waits } ==> {
                    let gate = after.host.gates.last();
                    &&& gate.hold.gate_id == fresh@
                    &&& gate.watch == waits
                    &&& gate.hold.task_id == task.id
                    &&& gate.provenance.tokens == 100 * (run.at + 1)
                }
            }
        }),
{
    reveal(card_shown);
    let task = run.tasks[run.at as int];
    let state = m.host.watches[ticket as int];
    if state is Satisfied {
        cards_are_kept_by_id(
            m.net.fleet,
            CardModel { id: task.id, status: "done"@, needs_signoff: false },
        );
    }
    if state is Blocked && run.attempts < 3 {
        let again = run.reworking(gate_words(m.host, gate_id@));
        let r = choose|r: Result<(GateId, usize), GateHostError>| #[trigger]
            task_proposed(m, again.tasks[run.at as int], run.tokens(), now, after, r) && next
                == again.gated(r) && match r {
                Ok(_) => step is Waiting,
                Err(e) => step == AgentStep::Failed(e),
            };
        proposed_tasks_are_written_first(
            m,
            again.tasks[run.at as int],
            run.tokens(),
            now,
            after,
            r,
        );
    }
}

/// The demonstration has two tasks, each with a file of its own.
pub proof fn the_demonstration_has_two_tasks()
    ensures
        demo_tasks().len() == 2,
        demo_tasks()[0].id == "t1"@,
        demo_tasks()[0].path == "src/guard.rs"@,
        demo_tasks()[0].contents == "// guard\npub fn guard() {}\n"@,
        demo_tasks()[1].id == "t2"@,
        demo_tasks()[1].path == "src/tokens.rs"@,
        demo_tasks()[1].contents == "// tokens\npub fn tokens() -> u64 { 0 }\n"@,
{
}

/// A scripted task says its id, its path and its contents, and the agent works on
/// every task that it was given, in order.
pub proof fn scripts_are_taken_whole(tasks: Seq<ScriptedTask>)
    ensures
        task_models(tasks).len() == tasks.len(),
        forall|i: int|
            0 <= i < tasks.len() ==> {
                &&& (#[trigger] task_models(tasks)[i]).id == tasks[i].id@
                &&& task_models(tasks)[i].path == tasks[i].path@
                &&& task_models(tasks)[i].contents == tasks[i].contents@
            },
{
}

} // verus!

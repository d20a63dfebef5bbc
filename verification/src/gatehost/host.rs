//! The host of a session: owns its state and drives the holds.
use vstd::prelude::*;

use crate::audit::chain::{
    append_keeps_order, built_record_signatures_hold, first_break, head_of,
    reviewed_by as signers_of, verified, verify_chain, AuditChain, AuditEntry, ChainBreak,
};
use crate::audit::record::{GateRecord, Provenance};
use crate::canonical::encodes_only;
use crate::eligibility::{copy_operators, holds_operator, MakerSet};
use crate::error::{CastRejected, GateHostError, WorkspaceError};
use crate::gatehost::model::{
    accounted_for, asked_views, block_all, copy_questions, discards, entry_of_gate, event_views,
    filter_finds, filter_keeps_order, follow, gate_index, gate_name, gate_update_keeps_validity,
    kept_gates, live_id, makers_of, new_gate_keeps_validity, pending_of, pending_tasks, publish,
    records_gate, redirects, signers, stale_gates, successor, tickets_of,
    untouched_gates_keep_validity,
    ClarifyDecision, ClarifyQuestion, EventView, GateFinal, GateModel, GateProgress, GateView,
    HostEvent, HostModel, PlanDecision, SplitDecision, SplitStream, SplitView,
};
use crate::hold::{first_remedy, DualHold, HoldState};
use crate::ids::{GateId, OperatorId, TaskId};
use crate::policy::{Authorship, Independence};
use crate::provenance::build_provenance;
use crate::session::{ContextView, SessionContext};
use crate::text::{copy_texts, decimal_padded, hex_prefix, hex_spec, texts};
use crate::verdict::{CastVerdict, Remedy};
use crate::workspace::{diff_hash, CommandOutput, FrozenDiff, Workspace, WorkspaceCall};

verus! {

struct HoldEntry {
    hold: DualHold,
    provenance: Provenance,
    watch: usize,
    escalation_required: bool,
    /// Tickets from superseded gates that this entry now speaks for.
    ///
    /// When a hand-edit supersedes a pending gate, the old gate's ticket is
    /// transferred here rather than marked with a fake `Satisfied`. When
    /// `submit_verdict` resolves this hold, it publishes the real outcome on
    /// `watch` and on every ticket here, so agents parked on old gates wake
    /// with the true combined-gate result. On a hand-edit of a hand-edit the
    /// intermediate entry's tickets move on too.
    carried_watchers: Vec<usize>,
}

/// Tickets as numbers.
spec fn as_tickets(v: Seq<usize>) -> Seq<nat> {
    v.map_values(|w: usize| w as nat)
}

impl View for HoldEntry {
    type V = GateModel;

    closed spec fn view(&self) -> GateModel {
        GateModel {
            hold: self.hold@,
            provenance: self.provenance@,
            watch: self.watch as nat,
            escalation_required: self.escalation_required,
            carried: as_tickets(self.carried_watchers@),
        }
    }
}

spec fn gate_models(holds: Seq<HoldEntry>) -> Seq<GateModel> {
    holds.map_values(|e: HoldEntry| e@)
}

spec fn redirect_views(v: Seq<(GateId, GateId)>) -> Seq<(Seq<char>, Seq<char>)> {
    v.map_values(|p: (GateId, GateId)| (p.0@, p.1@))
}

spec fn clarify_views(v: Seq<ClarifyDecision>) -> Seq<Option<Seq<Seq<Seq<char>>>>> {
    v.map_values(|d: ClarifyDecision| d@)
}

spec fn split_views(v: Seq<SplitDecision>) -> Seq<SplitView> {
    v.map_values(|d: SplitDecision| d@)
}

/// Owns session state and drives the holds.
pub struct GateHost<W: Workspace> {
    ctx: SessionContext,
    chain: AuditChain,
    holds: Vec<HoldEntry>,
    next_gate: u64,
    plan: Option<Vec<String>>,
    /// One decision to each proposal; only the last can still be decided.
    plan_decisions: Vec<PlanDecision>,
    questions: Option<Vec<ClarifyQuestion>>,
    clarify_decisions: Vec<ClarifyDecision>,
    streams: Option<Vec<SplitStream>>,
    split_decisions: Vec<SplitDecision>,
    /// Set by `abandon_session`. Once `true`, `submit_verdict`,
    /// `begin_task_gate`, `hand_edit`, and every proposal are refused.
    abandoned: bool,
    /// Supersession redirect table: `(old_gate_id, new_gate_id)`, append-only.
    superseded: Vec<(GateId, GateId)>,
    watches: Vec<HoldState>,
    events: Vec<HostEvent>,
    workspace: W,
}

impl<W: Workspace> View for GateHost<W> {
    type V = HostModel;

    closed spec fn view(&self) -> HostModel {
        HostModel {
            ctx: self.ctx@,
            chain: self.chain@,
            gates: gate_models(self.holds@),
            next_gate: self.next_gate as nat,
            plan: match self.plan {
                Some(tasks) => Some(texts(tasks@)),
                None => None,
            },
            plan_decisions: self.plan_decisions@,
            questions: match self.questions {
                Some(questions) => Some(asked_views(questions@)),
                None => None,
            },
            clarify_decisions: clarify_views(self.clarify_decisions@),
            streams: match self.streams {
                Some(streams) => Some(streams@),
                None => None,
            },
            split_decisions: split_views(self.split_decisions@),
            abandoned: self.abandoned,
            superseded: redirect_views(self.superseded@),
            watches: self.watches@,
            events: event_views(self.events@),
            calls: self.workspace.calls(),
            audit_home: self.workspace.audit_home(),
        }
    }
}

/// A session at its start.
pub open spec fn fresh_session(
    ctx: ContextView,
    calls: Seq<WorkspaceCall>,
    audit_home: Option<Seq<char>>,
) -> HostModel {
    HostModel {
        ctx,
        chain: seq![],
        gates: seq![],
        next_gate: 0,
        plan: None,
        plan_decisions: seq![PlanDecision::Pending],
        questions: None,
        clarify_decisions: seq![None],
        streams: None,
        split_decisions: seq![SplitView::Pending],
        abandoned: false,
        superseded: seq![],
        watches: seq![],
        events: seq![],
        calls,
        audit_home,
    }
}

impl<W: Workspace> GateHost<W> {
    /// Every hold keeps its own invariant.
    pub closed spec fn holds_wf(&self) -> bool {
        forall|i: int| 0 <= i < self.holds@.len() ==> (#[trigger] self.holds@[i]).hold.wf()
    }

    /// The invariant of every host.
    pub open spec fn wf(&self) -> bool {
        self@.valid() && self.holds_wf()
    }

    pub fn new(ctx: SessionContext, workspace: W) -> (r: Self)
        ensures
            r.wf(),
            r@ == fresh_session(ctx@, workspace.calls(), workspace.audit_home()),
    {
        let mut plan_decisions: Vec<PlanDecision> = Vec::new();
        plan_decisions.push(PlanDecision::Pending);
        let mut clarify_decisions: Vec<ClarifyDecision> = Vec::new();
        clarify_decisions.push(ClarifyDecision::Pending);
        let mut split_decisions: Vec<SplitDecision> = Vec::new();
        split_decisions.push(SplitDecision::Pending);
        GateHost {
            ctx,
            chain: AuditChain::new(),
            holds: Vec::new(),
            next_gate: 0,
            plan: None,
            plan_decisions,
            questions: None,
            clarify_decisions,
            streams: None,
            split_decisions,
            abandoned: false,
            superseded: Vec::new(),
            watches: Vec::new(),
            events: Vec::new(),
            workspace,
        }
    }

    /// Does an event that nobody has taken yet ask an empty list of questions?
    pub fn asks_nothing(&self) -> (r: bool)
        ensures
            r == exists|i: int|
                0 <= i < self@.events.len() && ((
                #[trigger] self@.events[i]) matches EventView::QuestionsAsked { questions, .. }
                    && questions.len() == 0),
    {
        let mut i: usize = 0;
        while i < self.events.len()
            invariant
                0 <= i <= self.events.len(),
                forall|j: int|
                    0 <= j < i ==> ((
                    #[trigger] self@.events[j]) matches EventView::QuestionsAsked { questions, .. }
                        ==> questions.len() > 0),
            decreases self.events.len() - i,
        {
            assert(self@.events[i as int] == self.events@[i as int]@);
            match &self.events[i] {
                HostEvent::QuestionsAsked { questions, .. } => {
                    if questions.len() == 0 {
                        return true;
                    }
                },
                _ => {},
            }
            i = i + 1;
        }
        false
    }

    /// Hand over the events that happened since the last call, oldest first.
    pub fn take_events(&mut self) -> (r: Vec<HostEvent>)
        requires
            old(self).wf(),
        ensures
            final(self).wf(),
            event_views(r@) == old(self)@.events,
            final(self)@ == (HostModel { events: seq![], ..old(self)@ }),
    {
        let mut r: Vec<HostEvent> = Vec::new();
        std::mem::swap(&mut r, &mut self.events);
        r
    }

    fn emit(&mut self, event: HostEvent)
        requires
            old(self).wf(),
        ensures
            final(self).wf(),
            final(self)@ == (HostModel {
                events: old(self)@.events.push(event@),
                ..old(self)@
            }),
    {
        self.events.push(event);
    }

    // -----------------------------------------------------------------------
    // Calls to the workspace
    // -----------------------------------------------------------------------
    fn assign(&mut self, task_id: &TaskId, agent: &str)
        requires
            old(self).wf(),
        ensures
            final(self).wf(),
            final(self)@ == old(self)@.assigned(agent@, task_id@),
            final(self).holds@ == old(self).holds@,
    {
        self.workspace.assign_task(task_id, agent);
    }

    fn write(&mut self, task_id: &TaskId, path: &str, contents: &[u8]) -> (r: Result<
        (),
        WorkspaceError,
    >)
        requires
            old(self).wf(),
        ensures
            final(self).wf(),
            final(self)@ == old(self)@.called(
                WorkspaceCall::Write {
                    task: task_id@,
                    path: path@,
                    contents: contents@,
                    result: r,
                },
            ),
            final(self).holds@ == old(self).holds@,
    {
        self.workspace.apply_write(task_id, path, contents)
    }

    fn run(&mut self, task_id: &TaskId, command: &str, cwd: &str) -> (r: Result<
        CommandOutput,
        WorkspaceError,
    >)
        requires
            old(self).wf(),
        ensures
            final(self).wf(),
            final(self)@ == old(self)@.called(
                WorkspaceCall::Command { task: task_id@, command: command@, cwd: cwd@, result: r },
            ),
            final(self).holds@ == old(self).holds@,
    {
        self.workspace.run_command(task_id, command, cwd)
    }

    fn freeze(&mut self, task_id: &TaskId) -> (r: Result<FrozenDiff, WorkspaceError>)
        requires
            old(self).wf(),
        ensures
            final(self).wf(),
            final(self)@ == old(self)@.called(
                WorkspaceCall::Freeze { task: task_id@, result: r },
            ),
            final(self).holds@ == old(self).holds@,
    {
        self.workspace.freeze_task_diff(task_id)
    }

    fn accept(&mut self, task_id: &TaskId) -> (r: Result<(), WorkspaceError>)
        requires
            old(self).wf(),
        ensures
            final(self).wf(),
            final(self)@ == old(self)@.called(
                WorkspaceCall::Accept { task: task_id@, result: r },
            ),
            final(self).holds@ == old(self).holds@,
    {
        self.workspace.accept_task(task_id)
    }

    fn discard(&mut self, task_id: &TaskId) -> (r: Result<(), WorkspaceError>)
        requires
            old(self).wf(),
        ensures
            final(self).wf(),
            final(self)@ == old(self)@.called(
                WorkspaceCall::Discard { task: task_id@, result: r },
            ),
            final(self).holds@ == old(self).holds@,
    {
        self.workspace.discard_task(task_id)
    }

    // -----------------------------------------------------------------------
    // Plans, questions, splits
    // -----------------------------------------------------------------------
    /// Agent face: propose a plan (list of task descriptions). Stores the plan,
    /// emits `HostEvent::PlanProposed`, and returns the ticket of a decision
    /// that becomes `Approved` when both operators approve (or `Steered` when
    /// they route a replan). Re-proposal overwrites; every proposal gets a
    /// decision of its own, so an earlier approval never carries over.
    pub fn propose_plan(&mut self, agent: &str, tasks: Vec<String>) -> (r: Result<
        usize,
        GateHostError,
    >)
        requires
            old(self).wf(),
        ensures
            final(self).wf(),
            old(self)@.plan_proposed(agent@, texts(tasks@), final(self)@, r),
    {
        if self.abandoned {
            return Err(GateHostError::SessionAbandoned);
        }
        let ticket: usize = self.plan_decisions.len();
        self.plan_decisions.push(PlanDecision::Pending);
        self.plan = Some(copy_texts(&tasks));
        proof {
            untouched_gates_keep_validity(old(self)@, self@);
        }
        self.emit(HostEvent::PlanProposed { agent: agent.to_owned(), tasks });
        Ok(ticket)
    }

    /// Operator face: mark the proposed plan as approved, releasing whoever
    /// waits on the last proposal.
    pub fn approve_plan(&mut self)
        requires
            old(self).wf(),
        ensures
            final(self).wf(),
            final(self)@ == (HostModel {
                plan_decisions: old(self)@.plan_decisions.update(
                    old(self)@.plan_decisions.len() - 1,
                    PlanDecision::Approved,
                ),
                ..old(self)@
            }),
    {
        let last: usize = self.plan_decisions.len() - 1;
        self.plan_decisions[last] = PlanDecision::Approved;
    }

    /// Operator face: route a steer prompt to the agent to revise its plan.
    /// Decides the last proposal as `Steered`, so the waiting agent learns the
    /// steer. No-op when the session has been abandoned.
    pub fn steer_plan(&mut self, steer: String)
        requires
            old(self).wf(),
        ensures
            final(self).wf(),
            final(self)@ == (if old(self)@.abandoned {
                old(self)@
            } else {
                HostModel {
                    plan_decisions: old(self)@.plan_decisions.update(
                        old(self)@.plan_decisions.len() - 1,
                        PlanDecision::Steered(steer),
                    ),
                    events: old(self)@.events.push(EventView::PlanSteered { steer: steer@ }),
                    ..old(self)@
                }
            }),
    {
        if self.abandoned {
            return;
        }
        let last: usize = self.plan_decisions.len() - 1;
        self.plan_decisions[last] = PlanDecision::Steered(steer.clone());
        self.emit(HostEvent::PlanSteered { steer });
    }

    /// What was decided on a proposal so far.
    pub fn plan_decision(&self, ticket: usize) -> (r: PlanDecision)
        requires
            ticket < self@.plan_decisions.len(),
        ensures
            r == self@.plan_decisions[ticket as int],
    {
        self.plan_decisions[ticket].clone()
    }

    /// Can this proposal still be decided? A later one closes it.
    pub fn plan_is_open(&self, ticket: usize) -> (r: bool)
        ensures
            r == (ticket + 1 == self@.plan_decisions.len()),
    {
        ticket < self.plan_decisions.len() && ticket == self.plan_decisions.len() - 1
    }

    /// Operator face: read the currently proposed plan (None until one arrives).
    pub fn proposed_plan(&self) -> (r: Option<Vec<String>>)
        ensures
            r is Some <==> self@.plan is Some,
            r matches Some(tasks) ==> self@.plan == Some(texts(tasks@)),
    {
        match &self.plan {
            Some(tasks) => Some(copy_texts(tasks)),
            None => None,
        }
    }

    /// Agent face: ask the operators to clarify ambiguity. Stores the questions,
    /// emits `HostEvent::QuestionsAsked`, and returns the ticket of a decision
    /// that becomes `Answered` once the operators resolve the exchange. Same
    /// discipline as `propose_plan`: a stale resolution can't bypass consent.
    pub fn ask_clarification(&mut self, agent: &str, questions: Vec<ClarifyQuestion>) -> (r: Result<
        usize,
        GateHostError,
    >)
        requires
            old(self).wf(),
        ensures
            final(self).wf(),
            old(self)@.questions_asked(agent@, asked_views(questions@), final(self)@, r),
    {
        if self.abandoned {
            return Err(GateHostError::SessionAbandoned);
        }
        let ticket: usize = self.clarify_decisions.len();
        self.clarify_decisions.push(ClarifyDecision::Pending);
        assert(self@.clarify_decisions =~= old(self)@.clarify_decisions.push(None));
        self.questions = Some(copy_questions(&questions));
        proof {
            untouched_gates_keep_validity(old(self)@, self@);
        }
        self.emit(HostEvent::QuestionsAsked { agent: agent.to_owned(), questions });
        Ok(ticket)
    }

    /// Operator face: resolve the clarification exchange with the accepted
    /// answers, releasing whoever waits on the last question list.
    pub fn resolve_clarification(&mut self, answers: Vec<Vec<String>>)
        requires
            old(self).wf(),
        ensures
            final(self).wf(),
            final(self)@ == (HostModel {
                clarify_decisions: old(self)@.clarify_decisions.update(
                    old(self)@.clarify_decisions.len() - 1,
                    Some(crate::clarify::answer_texts(answers@)),
                ),
                ..old(self)@
            }),
    {
        let last: usize = self.clarify_decisions.len() - 1;
        self.clarify_decisions[last] = ClarifyDecision::Answered(answers);
    }

    /// What was answered to a question list so far.
    pub fn clarify_decision(&self, ticket: usize) -> (r: ClarifyDecision)
        requires
            ticket < self@.clarify_decisions.len(),
        ensures
            r@ == self@.clarify_decisions[ticket as int],
    {
        self.clarify_decisions[ticket].clone()
    }

    /// Can this question list still be answered? A later one closes it.
    pub fn clarify_is_open(&self, ticket: usize) -> (r: bool)
        ensures
            r == (ticket + 1 == self@.clarify_decisions.len()),
    {
        ticket < self.clarify_decisions.len() && ticket == self.clarify_decisions.len() - 1
    }

    /// Operator face: the questions currently awaiting answers (None until asked).
    pub fn asked_questions(&self) -> (r: Option<Vec<ClarifyQuestion>>)
        ensures
            r is Some <==> self@.questions is Some,
            r matches Some(questions) ==> self@.questions == Some(asked_views(questions@)),
    {
        match &self.questions {
            Some(questions) => Some(copy_questions(questions)),
            None => None,
        }
    }

    /// Agent face: propose to split the work into independent streams. Stores
    /// them and returns the ticket of a decision. Same discipline as
    /// `propose_plan`.
    pub fn propose_split(&mut self, _agent: &str, streams: Vec<SplitStream>) -> (r: Result<
        usize,
        GateHostError,
    >)
        requires
            old(self).wf(),
        ensures
            final(self).wf(),
            old(self)@.split_proposed(streams@, final(self)@, r),
    {
        if self.abandoned {
            return Err(GateHostError::SessionAbandoned);
        }
        let ticket: usize = self.split_decisions.len();
        self.split_decisions.push(SplitDecision::Pending);
        assert(self@.split_decisions =~= old(self)@.split_decisions.push(SplitView::Pending));
        self.streams = Some(streams);
        proof {
            untouched_gates_keep_validity(old(self)@, self@);
        }
        Ok(ticket)
    }

    /// Operator face: decide the last proposed split.
    pub fn resolve_split(&mut self, decision: SplitDecision)
        requires
            old(self).wf(),
        ensures
            final(self).wf(),
            final(self)@ == (HostModel {
                split_decisions: old(self)@.split_decisions.update(
                    old(self)@.split_decisions.len() - 1,
                    decision@,
                ),
                ..old(self)@
            }),
    {
        let last: usize = self.split_decisions.len() - 1;
        self.split_decisions[last] = decision;
    }

    /// What was decided on a split so far.
    pub fn split_decision(&self, ticket: usize) -> (r: SplitDecision)
        requires
            ticket < self@.split_decisions.len(),
        ensures
            r@ == self@.split_decisions[ticket as int],
    {
        self.split_decisions[ticket].clone()
    }

    /// Can this split still be decided? A later one closes it.
    pub fn split_is_open(&self, ticket: usize) -> (r: bool)
        ensures
            r == (ticket + 1 == self@.split_decisions.len()),
    {
        ticket < self.split_decisions.len() && ticket == self.split_decisions.len() - 1
    }

    /// Operator face: the streams last proposed (None until proposed).
    pub fn proposed_split(&self) -> (r: Option<Vec<SplitStream>>)
        ensures
            r is Some <==> self@.streams is Some,
            r matches Some(streams) ==> self@.streams == Some(streams@),
    {
        match &self.streams {
            Some(streams) => Some(crate::gatehost::model::copy_streams(streams)),
            None => None,
        }
    }

    /// Operator face: replace the stored plan with an edited version.
    /// No-op when the session has been abandoned.
    pub fn set_plan(&mut self, tasks: Vec<String>)
        requires
            old(self).wf(),
        ensures
            final(self).wf(),
            final(self)@ == (if old(self)@.abandoned {
                old(self)@
            } else {
                HostModel { plan: Some(texts(tasks@)), ..old(self)@ }
            }),
    {
        if self.abandoned {
            return;
        }
        self.plan = Some(tasks);
    }

    /// The agent id for this session.
    pub fn agent_id(&self) -> (r: String)
        ensures
            r@ == self@.ctx.agent_id,
    {
        self.ctx.agent_id.clone()
    }

    /// Operator face: update the session prompt. Subsequent gate provenance
    /// (built from the prompt at gate-open time) carries the updated text.
    pub fn set_prompt(&mut self, prompt: String)
        requires
            old(self).wf(),
        ensures
            final(self).wf(),
            final(self)@ == (HostModel {
                ctx: ContextView { prompt: prompt@, ..old(self)@.ctx },
                ..old(self)@
            }),
    {
        self.ctx.prompt = prompt;
    }

    /// The session's operator roster (for composing Reviewed-by trailers).
    pub fn session_operators(&self) -> (r: Vec<OperatorId>)
        ensures
            r@ == self@.ctx.operators,
    {
        copy_operators(&self.ctx.operators)
    }

    /// Register an operator into the session roster (idempotent). Called after
    /// the host approves an operator's own key, so hand-edit eligibility and
    /// the audit roster hold the approved operator.
    pub fn register_operator(&mut self, op: OperatorId)
        requires
            old(self).wf(),
        ensures
            final(self).wf(),
            final(self)@ == (HostModel {
                ctx: ContextView {
                    operators: if old(self)@.ctx.operators.contains(op) {
                        old(self)@.ctx.operators
                    } else {
                        old(self)@.ctx.operators.push(op)
                    },
                    ..old(self)@.ctx
                },
                ..old(self)@
            }),
    {
        if !holds_operator(&self.ctx.operators, op) {
            self.ctx.operators.push(op);
            proof {
                let before = old(self)@.ctx.operators;
                assert forall|known: OperatorId| before.contains(known) implies #[trigger]
                    self@.ctx.operators.contains(known) by {
                    let k = choose|k: int| 0 <= k < before.len() && before[k] == known;
                    assert(self@.ctx.operators[k] == known);
                }
            }
        }
    }

    // -----------------------------------------------------------------------
    // Work in the worktree
    // -----------------------------------------------------------------------
    /// Agent face: record a worktree write on a task (not gated).
    pub fn record_write(
        &mut self,
        agent: &str,
        task_id: &TaskId,
        path: &str,
        contents: &[u8],
    ) -> (r: Result<(), GateHostError>)
        requires
            old(self).wf(),
        ensures
            final(self).wf(),
            old(self)@.write_made(agent@, task_id@, path@, contents@, final(self)@, r),
    {
        self.assign(task_id, agent);
        match self.write(task_id, path, contents) {
            Err(e) => Err(GateHostError::Workspace(e)),
            Ok(done) => {
                self.emit(
                    HostEvent::Write {
                        agent: agent.to_owned(),
                        task: task_id.clone(),
                        path: path.to_owned(),
                        bytes: contents.len(),
                    },
                );
                Ok(())
            },
        }
    }

    /// Agent face: run a command in the worktree (not gated).
    pub fn run_command(
        &mut self,
        agent: &str,
        task_id: &TaskId,
        command: &str,
        cwd: &str,
    ) -> (r: Result<CommandOutput, GateHostError>)
        requires
            old(self).wf(),
        ensures
            final(self).wf(),
            old(self)@.command_made(agent@, task_id@, command@, cwd@, final(self)@, r),
    {
        self.assign(task_id, agent);
        match self.run(task_id, command, cwd) {
            Err(e) => Err(GateHostError::Workspace(e)),
            Ok(out) => {
                self.emit(
                    HostEvent::Command {
                        agent: agent.to_owned(),
                        task: task_id.clone(),
                        command: command.to_owned(),
                        exit_code: out.exit_code,
                    },
                );
                Ok(out)
            },
        }
    }

    /// Read the current on-disk contents of a file in the task's worktree.
    /// Returns `Ok(None)` when the path does not exist (new file).
    /// Refused when the session has been abandoned.
    pub fn read_file(&mut self, task_id: &TaskId, path: &str) -> (r: Result<
        Option<Vec<u8>>,
        GateHostError,
    >)
        requires
            old(self).wf(),
        ensures
            final(self).wf(),
            match r {
                Err(GateHostError::Workspace(e)) => !old(self)@.abandoned && final(self)@ == old(
                    self,
                )@.called(WorkspaceCall::Read { task: task_id@, path: path@, result: Err(e) }),
                Err(e) => old(self)@.abandoned && e is SessionAbandoned && final(self)@ == old(
                    self,
                )@,
                Ok(found) => !old(self)@.abandoned && final(self)@ == old(self)@.called(
                    WorkspaceCall::Read { task: task_id@, path: path@, result: Ok(found) },
                ),
            },
    {
        if self.abandoned {
            return Err(GateHostError::SessionAbandoned);
        }
        match self.workspace.read_file(task_id, path) {
            Ok(found) => Ok(found),
            Err(e) => Err(GateHostError::Workspace(e)),
        }
    }

    /// Session-end: land the approved work as one reviewed commit.
    pub fn merge_session(&mut self, message: &str) -> (r: Result<(), GateHostError>)
        requires
            old(self).wf(),
        ensures
            final(self).wf(),
            match r {
                Ok(_) => final(self)@ == old(self)@.called(
                    WorkspaceCall::Merge { message: message@, result: Ok(()) },
                ),
                Err(e) => e matches GateHostError::Workspace(failed) && final(self)@ == old(
                    self,
                )@.called(WorkspaceCall::Merge { message: message@, result: Err(failed) }),
            },
    {
        match self.workspace.merge_session(message) {
            Ok(done) => {
                Ok(())
            },
            Err(e) => Err(GateHostError::Workspace(e)),
        }
    }
}

/// The id of the `n`-th gate.
fn gate_id_for(n: u64) -> (r: GateId)
    ensures
        r@ == gate_name(n as nat),
{
    let number = decimal_padded(n, 3);
    GateId("gate-".to_owned().concat(number.as_str()))
}

impl<W: Workspace> GateHost<W> {
    // -----------------------------------------------------------------------
    // Gates
    // -----------------------------------------------------------------------
    /// Where the review gate with this id stands, or the number of gates.
    fn find_gate(&self, gate_id: &GateId) -> (r: usize)
        ensures
            r == gate_index(self@.gates, gate_id@),
            r <= self.holds@.len(),
            self@.gates.len() == self.holds@.len(),
    {
        let ghost gates = self@.gates;
        let mut i: usize = 0;
        assert(gates.skip(0) =~= gates);
        while i < self.holds.len() && self.holds[i].hold.gate_id() != gate_id
            invariant
                0 <= i <= self.holds.len(),
                gates == self@.gates,
                gate_index(gates, gate_id@) == i + gate_index(gates.skip(i as int), gate_id@),
            decreases self.holds.len() - i,
        {
            assert(gates.skip(i as int).skip(1) =~= gates.skip(i as int + 1));
            i = i + 1;
        }
        i
    }

    /// Can another gate be numbered?
    pub fn has_room(&self) -> (r: bool)
        ensures
            r == self@.has_room(),
    {
        self.next_gate < u64::MAX
    }

    /// Open a gate over a task's frozen diff. Returns its id and the ticket
    /// that the awaiting agent-side handler watches for resolution.
    pub fn open_gate(&mut self, agent: &str, task_id: TaskId, provenance: Provenance) -> (r: (
        GateId,
        usize,
    ))
        requires
            old(self).wf(),
            old(self)@.has_room(),
        ensures
            final(self).wf(),
            final(self)@ == old(self)@.opened(agent@, task_id@, provenance@),
            r.0@ == gate_name(old(self)@.next_gate + 1),
            r.1 == old(self)@.watches.len(),
    {
        let ghost h = self@;
        let ghost task = task_id@;
        self.next_gate = self.next_gate + 1;
        let id = gate_id_for(self.next_gate);
        let task_for_event = task_id.clone();
        let hold = DualHold::new(
            id.clone(),
            task_id,
            provenance.diff_hash,
            self.ctx.policy,
            MakerSet::new(),
            Authorship::Agent,
        );
        let ticket: usize = self.watches.len();
        self.watches.push(HoldState::Open);
        let entry = HoldEntry {
            hold,
            provenance,
            watch: ticket,
            escalation_required: false,
            carried_watchers: Vec::new(),
        };
        let ghost gate = entry@;
        assert(gate.carried =~= seq![]);
        self.holds.push(entry);
        proof {
            assert forall|i: int| 0 <= i < self@.gates.len() - 1 implies h.gates.contains(
                #[trigger] self@.gates[i],
            ) by {
                assert(self@.gates[i] == h.gates[i]);
            }
            assert forall|i: int, j: int| 0 <= i < j < self@.gates.len() - 1 implies (
            #[trigger] self@.gates[i]).hold.gate_id != (
            #[trigger] self@.gates[j]).hold.gate_id by {
                assert(h.gates[i].hold.gate_id != h.gates[j].hold.gate_id);
            }
            assert forall|i: int| 0 <= i < h.gates.len() implies accounted_for(
                self@.gates,
                self@.superseded,
                (#[trigger] h.gates[i]).hold.gate_id,
            ) by {
                assert(self@.gates[i] == h.gates[i]);
            }
            new_gate_keeps_validity(h, self@, gate);
        }
        self.emit(
            HostEvent::GateOpened {
                agent: agent.to_owned(),
                gate_id: id.clone(),
                task: task_for_event,
            },
        );
        (id, ticket)
    }

    /// Agent face: freeze the task diff, build provenance, and open its gate,
    /// attributed to the agent that proposed it.
    pub fn begin_task_gate(&mut self, agent: &str, task_id: TaskId, tokens: u64) -> (r: Result<
        (GateId, usize),
        GateHostError,
    >)
        requires
            old(self).wf(),
            old(self)@.has_room(),
        ensures
            final(self).wf(),
            old(self)@.gate_begun(agent@, task_id@, tokens as nat, final(self)@, r),
    {
        self.assign(&task_id, agent);
        match self.freeze(&task_id) {
            Err(e) => Err(GateHostError::Workspace(e)),
            Ok(frozen) => {
                if self.abandoned {
                    return Err(GateHostError::SessionAbandoned);
                }
                let dh = diff_hash(&frozen);
                let mut p = build_provenance(&self.ctx, &task_id, dh, &frozen, tokens);
                // Attribute the review gate to the agent that proposed it (per-agent in
                // a fleet; the session default otherwise).
                p.agent_id = agent.to_owned();
                Ok(self.open_gate(agent, task_id, p))
            },
        }
    }

    /// The state last published on a gate ticket.
    pub fn gate_state(&self, ticket: usize) -> (r: HoldState)
        requires
            ticket < self@.watches.len(),
        ensures
            r == self@.watches[ticket as int],
    {
        self.watches[ticket]
    }

    /// Publish a state on a gate's ticket and on every ticket it carries.
    fn publish_state(&mut self, idx: usize, state: HoldState)
        requires
            old(self).wf(),
            idx < old(self).holds@.len(),
        ensures
            final(self).wf(),
            final(self)@ == (HostModel {
                watches: publish(old(self)@.watches, old(self)@.gates[idx as int], state),
                ..old(self)@
            }),
            final(self).holds@ == old(self).holds@,
    {
        let ghost h = self@;
        let ghost gate = self@.gates[idx as int];
        let primary: usize = self.holds[idx].watch;
        self.watches[primary] = state;
        let mut k: usize = 0;
        while k < self.holds[idx].carried_watchers.len()
            invariant
                h.valid(),
                idx < self.holds@.len(),
                self.holds@ == old(self).holds@,
                self.holds_wf(),
                gate == self.holds@[idx as int]@,
                gate == h.gates[idx as int],
                h == old(self)@,
                self@ == (HostModel { watches: self.watches@, ..h }),
                0 <= k <= self.holds@[idx as int].carried_watchers@.len(),
                gate.carried.len() == self.holds@[idx as int].carried_watchers@.len(),
                self.watches@.len() == h.watches.len(),
                forall|w: int|
                    0 <= w < h.watches.len() ==> (#[trigger] self.watches@[w]) == (if gate.watch
                        == w || exists|m: int| 0 <= m < k && gate.carried[m] == w {
                        state
                    } else {
                        h.watches[w]
                    }),
            decreases self.holds@[idx as int].carried_watchers@.len() - k,
        {
            let w: usize = self.holds[idx].carried_watchers[k];
            assert(h.gates[idx as int].carried[k as int] < h.watches.len());
            self.watches[w] = state;
            k = k + 1;
        }
        proof {
            assert(self.watches@ =~= publish(h.watches, gate, state));
        }
    }

    /// The record of a resolved gate, chained to the head.
    fn build_record(&self, idx: usize) -> (r: AuditEntry)
        requires
            self.wf(),
            idx < self.holds@.len(),
            self@.gates[idx as int].hold.state.is_final(),
        ensures
            records_gate(
                r,
                head_of(self@.chain),
                self@.gates[idx as int].provenance,
                self@.gates[idx as int].hold,
            ),
    {
        let e = &self.holds[idx];
        let prev = self.chain.head();
        AuditEntry::Merge(GateRecord::build(prev, e.provenance.clone(), &e.hold).unwrap())
    }

    /// Chain the record of a resolved gate.
    fn chain_record(&mut self, idx: usize, entry: AuditEntry)
        requires
            old(self).wf(),
            idx < old(self).holds@.len(),
            records_gate(
                entry,
                head_of(old(self)@.chain),
                old(self)@.gates[idx as int].provenance,
                old(self)@.gates[idx as int].hold,
            ),
        ensures
            final(self).wf(),
            final(self)@ == (HostModel { chain: old(self)@.chain.push(entry), ..old(self)@ }),
            final(self).holds@ == old(self).holds@,
    {
        let ghost gate = self@.gates[idx as int];
        proof {
            built_record_signatures_hold(entry->Merge_0, gate.hold);
            append_keeps_order(self@.chain, entry);
        }
        let appended = self.chain.append(entry);
    }

    /// Operator face: cast a signed verdict on a gate. On resolution, accepts or
    /// discards the task and publishes the new state on the review gate's ticket.
    ///
    /// Only registered operators may satisfy a gate: the session roster is
    /// enforced here, before the hold sees the verdict.
    pub fn submit_verdict(&mut self, gate_id: &GateId, cv: CastVerdict) -> (r: Result<
        GateProgress,
        GateHostError,
    >)
        requires
            old(self).wf(),
        ensures
            final(self).wf(),
            old(self)@.verdict_given(*gate_id, cv, final(self)@, r),
    {
        if self.abandoned {
            return Err(GateHostError::SessionAbandoned);
        }
        let idx: usize = self.find_gate(gate_id);
        if idx >= self.holds.len() {
            return Err(GateHostError::UnknownGate(gate_id.0.clone()));
        }
        if !holds_operator(&self.ctx.operators, cv.operator) {
            return Err(GateHostError::Cast(CastRejected::Ineligible));
        }
        let ghost h = self@;
        let ghost given = cv;
        assert(h.gates[idx as int] == self.holds@[idx as int]@);
        let ev: u64 = self.holds[idx].hold.version();
        let outcome = match self.holds[idx].hold.cast(ev, cv) {
            Err(e) => {
                assert(self@ =~= h);
                return Err(GateHostError::Cast(e));
            },
            Ok(outcome) => outcome,
        };
        self.holds[idx].escalation_required = outcome.escalation_required;
        let state = outcome.state;
        let ghost cast = h.cast_on(idx as int, given);
        proof {
            assert(self.holds@[idx as int]@ == cast.gates[idx as int]);
            assert(self@.gates =~= cast.gates);
            gate_update_keeps_validity(h, idx as int, cast.gates[idx as int]);
        }
        let mut remedy: Option<Remedy> = None;
        match state {
            HoldState::Satisfied => {
                let record = self.build_record(idx);
                let task_id = self.holds[idx].hold.task_id().clone();
                match self.accept(&task_id) {
                    Err(e) => {
                        return Err(GateHostError::Workspace(e));
                    },
                    Ok(_) => {},
                }
                self.chain_record(idx, record);
            },
            HoldState::Blocked => {
                let record = self.build_record(idx);
                let task_id = self.holds[idx].hold.task_id().clone();
                remedy = self.holds[idx].hold.blocking_remedy();
                self.chain_record(idx, record);
                match self.discard(&task_id) {
                    Err(e) => {
                        return Err(GateHostError::Workspace(e));
                    },
                    Ok(_) => {},
                }
            },
            _ => {},
        }
        let escalation_required = self.holds[idx].escalation_required;
        self.publish_state(idx, state);
        if state.is_resolved() {
            self.emit(HostEvent::GateResolved { gate_id: gate_id.clone(), state });
        }
        proof {
            crate::gatehost::model::gate_index_bounds(h.gates, gate_id@);
        }
        Ok(GateProgress { state, escalation_required, remedy })
    }

    /// Set aside the pending gates of a task: they leave the list, and their
    /// tickets, ids and makers are handed over.
    fn set_aside(&mut self, task_id: &TaskId) -> (r: (Vec<usize>, Vec<GateId>, MakerSet))
        requires
            old(self).wf(),
        ensures
            final(self).holds_wf(),
            final(self)@ == (HostModel {
                gates: kept_gates(old(self)@.gates, task_id@),
                ..old(self)@
            }),
            as_tickets(r.0@) == tickets_of(stale_gates(old(self)@.gates, task_id@)),
            r.1@.len() == stale_gates(old(self)@.gates, task_id@).len(),
            forall|i: int|
                0 <= i < r.1@.len() ==> (#[trigger] r.1@[i])@ == stale_gates(
                    old(self)@.gates,
                    task_id@,
                )[i].hold.gate_id,
            r.2@ == makers_of(stale_gates(old(self)@.gates, task_id@)),
    {
        let ghost all = self.holds@;
        let ghost gates = gate_models(all);
        let ghost stale = |g: GateModel| g.stale_for(task_id@);
        let ghost fresh = |g: GateModel| !g.stale_for(task_id@);
        let mut rest: Vec<HoldEntry> = Vec::new();
        std::mem::swap(&mut rest, &mut self.holds);
        let mut kept: Vec<HoldEntry> = Vec::new();
        let mut carried: Vec<usize> = Vec::new();
        let mut ids: Vec<GateId> = Vec::new();
        let mut makers = MakerSet::new();
        let ghost mut i: int = 0;
        proof {
            reveal(Seq::filter);
        }
        while rest.len() > 0
            invariant
                0 <= i <= all.len(),
                gates == gate_models(all),
                rest@ == all.skip(i),
                stale == (|g: GateModel| g.stale_for(task_id@)),
                fresh == (|g: GateModel| !g.stale_for(task_id@)),
                gate_models(kept@) == gates.take(i).filter(fresh),
                as_tickets(carried@) == tickets_of(gates.take(i).filter(stale)),
                ids@.len() == gates.take(i).filter(stale).len(),
                forall|j: int|
                    0 <= j < ids@.len() ==> (#[trigger] ids@[j])@ == gates.take(i).filter(
                        stale,
                    )[j].hold.gate_id,
                makers@ == makers_of(gates.take(i).filter(stale)),
                forall|j: int| 0 <= j < all.len() ==> (#[trigger] all[j]).hold.wf(),
                forall|j: int| 0 <= j < kept@.len() ==> (#[trigger] kept@[j]).hold.wf(),
            decreases rest.len(),
        {
            let entry = rest.remove(0);
            let ghost gate = entry@;
            proof {
                reveal(Seq::filter);
                assert(gates.take(i + 1).drop_last() =~= gates.take(i));
            }
            let ghost kept_before = gate_models(kept@);
            let ghost carried_before = as_tickets(carried@);
            let ghost stale_before = gates.take(i).filter(stale);
            if entry.hold.task_id() == task_id && !entry.hold.state().is_resolved() {
                ids.push(entry.hold.gate_id().clone());
                carried.push(entry.watch);
                makers = makers.with_all(entry.hold.makers());
                let mut moved = entry.carried_watchers;
                let ghost moving = moved@;
                carried.append(&mut moved);
                proof {
                    assert(stale_before.push(gate).drop_last() =~= stale_before);
                    assert(as_tickets(carried@) =~= carried_before.push(gate.watch)
                        + as_tickets(moving));
                    assert(gates.take(i + 1).filter(fresh) =~= gates.take(i).filter(fresh));
                }
            } else {
                kept.push(entry);
                proof {
                    assert(gate_models(kept@) =~= kept_before.push(gate));
                    assert(gates.take(i + 1).filter(fresh) =~= gates.take(i).filter(fresh).push(
                        gate,
                    ));
                    assert(gates.take(i + 1).filter(stale) =~= stale_before);
                }
            }
            proof {
                i = i + 1;
            }
        }
        assert(i == all.len());
        assert(gates.take(i) =~= gates);
        self.holds = kept;
        (carried, ids, makers)
    }

    /// Operator face: a hand-edit. Applies to the worktree immediately, then
    /// opens a fresh gate over the combined diff (deferred acceptance). The
    /// editor joins the maker set (strict mode excludes them), and in strict
    /// mode so do the makers of the change that was pending; escalation is
    /// signalled, at once and on every cast, when the eligible pool is smaller
    /// than the required keys.
    ///
    /// The pending gates of the task give way: verdicts on them are refused as
    /// unknown, because verdicts must bind the combined diff. Nothing is
    /// published on their tickets here; the fresh gate takes them over and
    /// publishes the true outcome when it resolves.
    pub fn hand_edit(
        &mut self,
        task_id: TaskId,
        path: &str,
        contents: &[u8],
        editor: OperatorId,
    ) -> (r: Result<(GateId, usize), GateHostError>)
        requires
            old(self).wf(),
            old(self)@.has_room(),
        ensures
            final(self).wf(),
            old(self)@.edit_made(task_id@, path@, contents@, editor, final(self)@, r),
    {
        if self.abandoned {
            return Err(GateHostError::SessionAbandoned);
        }
        match self.write(&task_id, path, contents) {
            Err(e) => {
                return Err(GateHostError::Workspace(e));
            },
            Ok(_) => {},
        }
        let frozen = match self.freeze(&task_id) {
            Err(e) => {
                return Err(GateHostError::Workspace(e));
            },
            Ok(frozen) => frozen,
        };
        let ghost h = self@;
        let dh = diff_hash(&frozen);
        let (carried, old_ids, earlier_makers) = self.set_aside(&task_id);
        let prior_makers = match self.ctx.policy.independence {
            Independence::Strict => earlier_makers,
            Independence::Pragmatic => MakerSet::new(),
        };
        let ghost stale = stale_gates(h.gates, task_id@);
        self.next_gate = self.next_gate + 1;
        let id = gate_id_for(self.next_gate);
        let provenance = build_provenance(&self.ctx, &task_id, dh, &frozen, 0);
        let agent = provenance.agent_id.clone();
        let hold = DualHold::reopen_handedit(
            id.clone(),
            task_id.clone(),
            dh,
            self.ctx.policy,
            prior_makers,
            editor,
            true,
            self.ctx.operators.as_slice(),
        );
        let escalation_required = hold.escalation_required();
        let ticket: usize = self.watches.len();
        self.watches.push(HoldState::Open);
        let entry = HoldEntry {
            hold,
            provenance,
            watch: ticket,
            escalation_required,
            carried_watchers: carried,
        };
        let ghost gate = entry@;
        self.holds.push(entry);
        assert(self@.gates =~= kept_gates(h.gates, task_id@).push(gate));
        // Record supersession redirects so `gate_outcome` can follow chains.
        self.redirect(&old_ids, &id);
        proof {
            assert(self@.superseded =~= h.superseded + redirects(stale, id@));
            edited_session_is_valid(h, self@, task_id@, gate);
        }
        self.report_superseded(&old_ids, &id);
        self.emit(HostEvent::GateOpened { agent, gate_id: id.clone(), task: task_id });
        assert(self@ =~= h.hand_edited(task_id@, frozen, editor));
        Ok((id, ticket))
    }

    fn redirect(&mut self, old_ids: &Vec<GateId>, id: &GateId)
        ensures
            final(self)@ == (HostModel {
                superseded: old(self)@.superseded + Seq::new(
                    old_ids@.len(),
                    |i: int| (old_ids@[i]@, id@),
                ),
                ..old(self)@
            }),
            final(self).holds@ == old(self).holds@,
    {
        let ghost h = self@;
        let mut i: usize = 0;
        while i < old_ids.len()
            invariant
                0 <= i <= old_ids.len(),
                h == old(self)@,
                self.holds@ == old(self).holds@,
                self@ == (HostModel {
                    superseded: h.superseded + Seq::new(
                        i as nat,
                        |i: int| (old_ids@[i]@, id@),
                    ),
                    ..h
                }),
            decreases old_ids.len() - i,
        {
            let ghost before = self@.superseded;
            self.superseded.push((old_ids[i].clone(), id.clone()));
            assert(self@.superseded =~= before.push((old_ids@[i as int]@, id@)));
            i = i + 1;
        }
    }

    fn report_superseded(&mut self, old_ids: &Vec<GateId>, id: &GateId)
        requires
            old(self).wf(),
        ensures
            final(self).wf(),
            final(self)@ == (HostModel {
                events: old(self)@.events + Seq::new(
                    old_ids@.len(),
                    |i: int|
                        EventView::GateSuperseded { old_gate_id: old_ids@[i]@, new_gate_id: id@ },
                ),
                ..old(self)@
            }),
    {
        let ghost h = self@;
        let ghost told = |i: int|
            EventView::GateSuperseded { old_gate_id: old_ids@[i]@, new_gate_id: id@ };
        let mut i: usize = 0;
        while i < old_ids.len()
            invariant
                self.wf(),
                0 <= i <= old_ids.len(),
                h == old(self)@,
                told == (|i: int|
                    EventView::GateSuperseded { old_gate_id: old_ids@[i]@, new_gate_id: id@ }),
                self@ == (HostModel { events: h.events + Seq::new(i as nat, told), ..h }),
            decreases old_ids.len() - i,
        {
            self.emit(
                HostEvent::GateSuperseded {
                    old_gate_id: old_ids[i].clone(),
                    new_gate_id: id.clone(),
                },
            );
            i = i + 1;
        }
    }
}

/// The tickets that gates of a valid session speak for exist.
proof fn tickets_exist(gates: Seq<GateModel>, n: nat)
    requires
        forall|i: int| 0 <= i < gates.len() ==> (#[trigger] gates[i]).watch < n,
        forall|i: int, k: int|
            0 <= i < gates.len() && 0 <= k < gates[i].carried.len() ==> (
            #[trigger] gates[i].carried[k]) < n,
    ensures
        forall|k: int| 0 <= k < tickets_of(gates).len() ==> (#[trigger] tickets_of(gates)[k]) < n,
    decreases gates.len(),
{
    if gates.len() > 0 {
        let shorter = gates.drop_last();
        tickets_exist(shorter, n);
        let m = tickets_of(shorter).len();
    }
}

/// A hand-edit keeps the session valid.
proof fn edited_session_is_valid(
    h: HostModel,
    after: HostModel,
    task: Seq<char>,
    gate: GateModel,
)
    requires
        h.valid(),
        gate.hold.valid(),
        gate.hold.verdicts.len() == 0,
        gate.provenance.diff_hash == gate.hold.diff_hash,
        gate.hold.gate_id == gate_name(h.next_gate + 1),
        gate.watch == h.watches.len(),
        gate.carried == tickets_of(stale_gates(h.gates, task)),
        after == (HostModel {
            next_gate: h.next_gate + 1,
            gates: kept_gates(h.gates, task).push(gate),
            superseded: h.superseded + redirects(
                stale_gates(h.gates, task),
                gate_name(h.next_gate + 1),
            ),
            watches: h.watches.push(HoldState::Open),
            ..h
        }),
    ensures
        after.valid(),
{
    let stale = |g: GateModel| g.stale_for(task);
    let fresh = |g: GateModel| !g.stale_for(task);
    let gone = stale_gates(h.gates, task);
    let kept = kept_gates(h.gates, task);
    filter_keeps_order(h.gates, stale);
    filter_keeps_order(h.gates, fresh);
    assert forall|i: int| 0 <= i < gone.len() implies (#[trigger] gone[i]).watch
        < h.watches.len() && named_up_to_now(h, gone[i]) by {
        let k = choose|k: int| 0 <= k < h.gates.len() && h.gates[k] == gone[i];
    }
    assert forall|i: int, k: int| 0 <= i < gone.len() && 0 <= k < gone[i].carried.len() implies (
    #[trigger] gone[i].carried[k]) < h.watches.len() by {
        let m = choose|m: int| 0 <= m < h.gates.len() && h.gates[m] == gone[i];
    }
    tickets_exist(gone, h.watches.len());
    assert forall|k: int| h.superseded.len() <= k < after.superseded.len() implies {
        &&& crate::gatehost::model::named_up_to((#[trigger] after.superseded[k]).0, h.next_gate)
        &&& after.superseded[k].1 == gate_name(h.next_gate + 1)
        &&& forall|i: int|
            0 <= i < after.gates.len() - 1 ==> (#[trigger] after.gates[i]).hold.gate_id
                != after.superseded[k].0
    } by {
        let m = k - h.superseded.len();
        let g = choose|g: int| 0 <= g < h.gates.len() && h.gates[g] == gone[m];
        assert forall|i: int| 0 <= i < after.gates.len() - 1 implies (
        #[trigger] after.gates[i]).hold.gate_id != after.superseded[k].0 by {
            let q = choose|q: int| 0 <= q < h.gates.len() && h.gates[q] == kept[i];
            assert(h.gates[q] == kept[i]);
            if q < g {
                assert(h.gates[q].hold.gate_id != h.gates[g].hold.gate_id);
            } else if g < q {
                assert(h.gates[g].hold.gate_id != h.gates[q].hold.gate_id);
            }
        }
    }
    assert forall|i: int| 0 <= i < h.gates.len() implies accounted_for(
        after.gates,
        after.superseded,
        (#[trigger] h.gates[i]).hold.gate_id,
    ) by {
        let g = h.gates[i];
        if stale(g) {
            filter_finds(h.gates, stale, i);
            let m = choose|m: int| 0 <= m < gone.len() && gone[m] == g;
            assert(after.superseded[h.superseded.len() + m].0 == g.hold.gate_id);
        } else {
            assert(fresh(g));
            filter_finds(h.gates, fresh, i);
            let m = choose|m: int| 0 <= m < kept.len() && kept[m] == g;
            assert(after.gates[m].hold.gate_id == g.hold.gate_id);
        }
    }
    new_gate_keeps_validity(h, after, gate);
}

spec fn named_up_to_now(h: HostModel, gate: GateModel) -> bool {
    crate::gatehost::model::named_up_to(gate.hold.gate_id, h.next_gate)
}

/// The file that an audit chain with this head is kept in.
pub open spec fn audit_name(head: Seq<u8>) -> Seq<char> {
    "audit-"@ + hex_spec(head.take(8)) + ".json"@
}

impl<W: Workspace> GateHost<W> {
    // -----------------------------------------------------------------------
    // Reading the session
    // -----------------------------------------------------------------------
    /// Operator face: gates awaiting review, sealing-safe, oldest first.
    pub fn pending_gates(&self) -> (r: Vec<GateView>)
        requires
            self.wf(),
        ensures
            r@.len() == pending_of(self@.gates).len(),
            forall|i: int|
                0 <= i < r@.len() ==> pending_of(self@.gates)[i].shown_as(#[trigger] r@[i]),
    {
        let ghost gates = self@.gates;
        let ghost keep = |g: GateModel| g.pending();
        let mut r: Vec<GateView> = Vec::new();
        let mut i: usize = 0;
        reveal(Seq::filter);
        while i < self.holds.len()
            invariant
                self.wf(),
                gates == self@.gates,
                keep == (|g: GateModel| g.pending()),
                0 <= i <= self.holds.len(),
                r@.len() == gates.take(i as int).filter(keep).len(),
                forall|j: int|
                    0 <= j < r@.len() ==> gates.take(i as int).filter(keep)[j].shown_as(
                        #[trigger] r@[j],
                    ),
            decreases self.holds.len() - i,
        {
            reveal(Seq::filter);
            let e = &self.holds[i];
            assert(gates.take(i as int + 1).drop_last() =~= gates.take(i as int));
            if !e.hold.state().is_resolved() {
                let view = GateView {
                    gate_id: e.hold.gate_id().clone(),
                    task_id: e.hold.task_id().clone(),
                    diff_hash: e.hold.diff_hash(),
                    state: e.hold.state(),
                    observed: e.hold.observed_verdicts(),
                    escalation_required: e.escalation_required,
                    files: copy_texts(&e.provenance.files),
                    loc: e.provenance.loc,
                    agent: e.provenance.agent_id.clone(),
                };
                r.push(view);
            }
            i = i + 1;
        }
        assert(gates.take(gates.len() as int) =~= gates);
        r
    }

    /// Verify the whole audit chain (tamper-evidence check): the first break is
    /// reported, and a chain without one is fixed by its hashes, as no record's
    /// contents share an encoding with others. The host only ever chains records
    /// that verify.
    pub fn verify_audit(&self) -> (r: Result<(), ChainBreak>)
        ensures
            r is Ok <==> verified(self@.chain),
            match r {
                Ok(_) => first_break(self@.chain, 0) is None && forall|i: int|
                    0 <= i < self@.chain.len() ==> encodes_only(
                        (#[trigger] self@.chain[i]).contents(),
                    ),
                Err(e) => first_break(self@.chain, 0) == Some(e),
            },
            self.wf() ==> r is Ok,
    {
        verify_chain(self.chain.records())
    }

    /// The operators whose verified go-signatures back a gate's record.
    pub fn reviewed_by(&self, gate_id: &GateId) -> (r: Option<Vec<OperatorId>>)
        ensures
            r is Some <==> entry_of_gate(self@.chain, gate_id@) is Some,
            r matches Some(ops) ==> ops@ == signers(self@.chain, gate_id@),
    {
        let records = self.chain.records();
        let ghost chain = self@.chain;
        let mut i: usize = 0;
        assert(chain.skip(0) =~= chain);
        while i < records.len()
            invariant
                0 <= i <= records.len(),
                records@ == chain,
                chain == self@.chain,
                entry_of_gate(chain, gate_id@) == entry_of_gate(chain.skip(i as int), gate_id@),
            decreases records.len() - i,
        {
            assert(chain.skip(i as int).skip(1) =~= chain.skip(i as int + 1));
            if records[i].gate_id() == gate_id {
                return Some(signers_of(&records[i]));
            }
            i = i + 1;
        }
        None
    }

    /// The review gate that took this one's place, if any.
    fn find_successor(&self, gate_id: &GateId) -> (r: Option<GateId>)
        ensures
            match r {
                Some(next) => successor(self@.superseded, gate_id@) == Some(next@),
                None => successor(self@.superseded, gate_id@) is None,
            },
    {
        let ghost table = self@.superseded;
        let mut i: usize = 0;
        assert(table.skip(0) =~= table);
        while i < self.superseded.len()
            invariant
                0 <= i <= self.superseded.len(),
                table == self@.superseded,
                successor(table, gate_id@) == successor(table.skip(i as int), gate_id@),
            decreases self.superseded.len() - i,
        {
            assert(table.skip(i as int).skip(1) =~= table.skip(i as int + 1));
            if self.superseded[i].0 == *gate_id {
                return Some(self.superseded[i].1.clone());
            }
            i = i + 1;
        }
        None
    }

    /// The id of the review gate that now speaks for this one.
    fn find_live(&self, gate_id: &GateId) -> (r: GateId)
        ensures
            r@ == live_id(self@.superseded, gate_id@),
    {
        let mut effective = gate_id.clone();
        let mut steps: usize = 0;
        let ghost table = self@.superseded;
        loop
            invariant_except_break
                table == self@.superseded,
                table.len() == self.superseded@.len(),
                0 <= steps <= table.len(),
                live_id(table, gate_id@) == follow(
                    table,
                    effective@,
                    (table.len() + 1 - steps) as nat,
                ),
            ensures
                effective@ == live_id(table, gate_id@),
            decreases table.len() - steps,
        {
            proof {
                reveal_with_fuel(follow, 2);
            }
            match self.find_successor(&effective) {
                None => {
                    break;
                },
                Some(next) => {
                    effective = next;
                    // More redirects than entries is impossible in a table
                    // without cycles; the walk is bounded all the same.
                    if steps >= self.superseded.len() {
                        break;
                    }
                    steps = steps + 1;
                },
            }
        }
        effective
    }

    /// Read a gate's outcome (for the awaiting agent handler). Returns `Some`
    /// for a gate in any state; callers must inspect `state` before acting.
    ///
    /// When a `hand_edit` supersedes a pending gate it records a redirect from
    /// the old id to the new. Redirects are followed before lookup, so an agent
    /// asking about an old gate gets the outcome of the live gate that now owns
    /// the combined diff.
    pub fn gate_outcome(&self, gate_id: &GateId) -> (r: Option<GateFinal>)
        ensures
            ({
                let live = live_id(self@.superseded, gate_id@);
                let i = gate_index(self@.gates, live) as int;
                match r {
                    None => i >= self@.gates.len(),
                    Some(summary) => {
                        let hold = self@.gates[i].hold;
                        &&& i < self@.gates.len()
                        &&& summary.state == hold.state
                        &&& summary.remedy == (if hold.state is Blocked {
                            first_remedy(hold.verdicts)
                        } else {
                            None
                        })
                        &&& summary.reviewed_by@ == signers(self@.chain, live)
                    },
                }
            }),
    {
        let live = self.find_live(gate_id);
        let i: usize = self.find_gate(&live);
        if i >= self.holds.len() {
            return None;
        }
        let state = self.holds[i].hold.state();
        let remedy = self.holds[i].hold.blocking_remedy();
        let reviewed_by = match self.reviewed_by(&live) {
            Some(ops) => ops,
            None => Vec::new(),
        };
        Some(GateFinal { state, remedy, reviewed_by })
    }

    /// The current frozen diff bytes for a gate's task (a review preview). The
    /// authoritative content hash is the review gate's `diff_hash`; this is the bytes
    /// an operator opens to review.
    pub fn gate_diff(&mut self, gate_id: &GateId) -> (r: Option<Vec<u8>>)
        requires
            old(self).wf(),
        ensures
            final(self).wf(),
            ({
                let i = gate_index(old(self)@.gates, gate_id@) as int;
                if i >= old(self)@.gates.len() {
                    r is None && final(self)@ == old(self)@
                } else {
                    let call = final(self)@.calls.last();
                    &&& final(self)@ == old(self)@.called(call)
                    &&& call matches WorkspaceCall::Freeze { task, result }
                    &&& task == old(self)@.gates[i].hold.task_id
                    &&& match result {
                        Ok(frozen) => r == Some(frozen.bytes),
                        Err(_) => r is None,
                    }
                }
            }),
    {
        let i: usize = self.find_gate(gate_id);
        if i >= self.holds.len() {
            return None;
        }
        let task_id = self.holds[i].hold.task_id().clone();
        match self.freeze(&task_id) {
            Ok(frozen) => Some(frozen.bytes),
            Err(_) => None,
        }
    }

    /// Number of records currently in the audit chain.
    pub fn audit_len(&self) -> (r: usize)
        ensures
            r == self@.chain.len(),
    {
        self.chain.records().len()
    }

    /// The chain head hash (the genesis anchor when no gate has resolved).
    pub fn audit_head(&self) -> (r: crate::ids::Hash)
        ensures
            r.0@ == head_of(self@.chain),
    {
        self.chain.head()
    }

    /// The records of the audit chain.
    pub fn audit_records(&self) -> (r: &[AuditEntry])
        ensures
            r@ == self@.chain,
    {
        self.chain.records()
    }

    /// The workspace that the session works in.
    pub fn workspace(&self) -> (r: &W)
        ensures
            r.calls() == self@.calls,
            r.audit_home() == self@.audit_home,
    {
        &self.workspace
    }

    /// Persist the audit chain to the workspace's audit directory.
    ///
    /// Returns `None` when the workspace has no durable home (in-memory
    /// sessions) or the chain is empty; otherwise the write result. The file
    /// is named after the chain head, so it is content-addressed and a
    /// re-write of the same chain is idempotent.
    pub fn persist_audit(&mut self) -> (r: Option<Result<String, String>>)
        requires
            old(self).wf(),
        ensures
            final(self).wf(),
            match r {
                None => {
                    &&& old(self)@.audit_home is None || old(self)@.chain.len() == 0
                    &&& final(self)@ == old(self)@
                },
                Some(written) => {
                    &&& old(self)@.chain.len() > 0
                    &&& old(self)@.audit_home matches Some(dir)
                    &&& final(self)@ == old(self)@.called(
                        WorkspaceCall::Audit {
                            dir,
                            name: audit_name(head_of(old(self)@.chain)),
                            records: old(self)@.chain,
                            result: written,
                        },
                    )
                },
            },
    {
        match self.workspace.audit_dir() {
            None => None,
            Some(dir) => {
                if self.chain.records().len() == 0 {
                    return None;
                }
                let head = self.chain.head();
                let hex = hex_prefix(head.0.as_slice(), 8);
                let name = "audit-".to_owned().concat(hex.as_str()).concat(".json");
                Some(
                    self.workspace.write_audit(dir.as_str(), name.as_str(), self.chain.records()),
                )
            },
        }
    }

    // -----------------------------------------------------------------------
    // The kill-switch
    // -----------------------------------------------------------------------
    /// Mark every pending gate's tickets as blocked and list their tasks.
    /// Parked proposals must not hang forever: `Blocked` is the honest terminal
    /// for "will never be approved".
    fn block_pending(&mut self) -> (r: Vec<TaskId>)
        requires
            old(self).wf(),
        ensures
            final(self).wf(),
            final(self)@ == (HostModel {
                watches: block_all(old(self)@.watches, old(self)@.gates),
                ..old(self)@
            }),
            r@.len() == pending_tasks(old(self)@.gates).len(),
            forall|i: int|
                0 <= i < r@.len() ==> (#[trigger] r@[i])@ == pending_tasks(old(self)@.gates)[i],
    {
        let ghost h = self@;
        let ghost gates = self@.gates;
        let ghost keep = |g: GateModel| g.pending();
        let mut tasks: Vec<TaskId> = Vec::new();
        let mut i: usize = 0;
        reveal(Seq::filter);
        while i < self.holds.len()
            invariant
                self.wf(),
                h == old(self)@,
                gates == h.gates,
                gates.len() == self.holds@.len(),
                keep == (|g: GateModel| g.pending()),
                0 <= i <= self.holds.len(),
                self@ == (HostModel {
                    watches: block_all(h.watches, gates.take(i as int)),
                    ..h
                }),
                tasks@.len() == gates.take(i as int).filter(keep).len(),
                forall|j: int|
                    0 <= j < tasks@.len() ==> (#[trigger] tasks@[j])@ == gates.take(
                        i as int,
                    ).filter(keep)[j].hold.task_id,
            decreases self.holds.len() - i,
        {
            reveal(Seq::filter);
            assert(gates.take(i as int + 1).drop_last() =~= gates.take(i as int));
            if !self.holds[i].hold.state().is_resolved() {
                tasks.push(self.holds[i].hold.task_id().clone());
                self.publish_state(i, HoldState::Blocked);
            }
            i = i + 1;
        }
        assert(gates.take(gates.len() as int) =~= gates);
        tasks
    }

    /// Operator kill-switch: discard all pending tasks and emit
    /// `SessionAbandoned`. Already-resolved gates keep their audit records.
    /// Nothing is merged. The session is closed first: no verdict is accepted
    /// from here on, whether or not the discards succeed.
    pub fn abandon_session(&mut self) -> (r: Result<(), GateHostError>)
        requires
            old(self).wf(),
        ensures
            final(self).wf(),
            old(self)@.abandon_made(final(self)@, r),
    {
        let ghost h = self@;
        self.abandoned = true;
        let tasks = self.block_pending();
        let ghost closed = h.abandoning();
        let ghost wanted = pending_tasks(h.gates);
        let mut i: usize = 0;
        assert(self@.calls.take(h.calls.len() as int) =~= h.calls);
        while i < tasks.len()
            invariant
                self.wf(),
                closed == h.abandoning(),
                wanted == pending_tasks(h.gates),
                h == old(self)@,
                0 <= i <= tasks.len(),
                tasks@.len() == wanted.len(),
                forall|j: int| 0 <= j < tasks@.len() ==> (#[trigger] tasks@[j])@ == wanted[j],
                self@ == (HostModel { calls: self@.calls, ..closed }),
                discards(h.calls, self@.calls, wanted, i as int),
                i > 0 ==> self@.calls.last()->Discard_result is Ok,
            decreases tasks.len() - i,
        {
            let ghost before = self@.calls;
            let discarded = self.discard(&tasks[i]);
            let ghost now = self@.calls;
            proof {
                assert(now.take(h.calls.len() as int) =~= before.take(h.calls.len() as int));
            }
            match discarded {
                Err(e) => {
                    return Err(GateHostError::Workspace(e));
                },
                Ok(_) => {},
            }
            i = i + 1;
        }
        self.emit(HostEvent::SessionAbandoned);
        Ok(())
    }
}

} // verus!

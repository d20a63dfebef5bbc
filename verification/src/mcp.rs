//! The agent-facing tools over a gate host: what each tool does with its input,
//! and what it answers once the operators have decided.
//!
//! A tool that blocks comes in two parts: one that proposes and hands out a
//! ticket, and one that looks whether the ticket's matter is decided.
use vstd::prelude::*;

use crate::clarify::answer_texts;
use crate::error::GateHostError;
use crate::gatehost::host::GateHost;
use crate::gatehost::model::{
    asked_views, gate_index, live_id, signers, AskedView, ClarifyDecision, ClarifyQuestion,
    GateFinal, HostEvent, HostModel, PlanDecision, SplitDecision, SplitStream, SplitView,
};
use crate::hold::{first_remedy, HoldState};
use crate::ids::{GateId, OperatorId, TaskId};
use crate::protocol::{ClientMsg, ServerMsg};
use crate::server::effects::untouched_proposals_are_approved_whole;
use crate::server::model::ServerModel;
use crate::text::{copy_texts, hex_prefix, hex_spec, texts};
use crate::verdict::Remedy;
use crate::workspace::{CommandOutput, Workspace};

verus! {

/// The server exposing the agent-facing gated tools.
#[derive(Clone, Debug)]
pub struct KonturServer {
    /// The id of the agent this connection serves (attributes its writes,
    /// commands, plan, and gates in a fleet).
    agent: String,
}

#[derive(Debug)]
pub struct WriteFileInput {
    pub task_id: String,
    pub path: String,
    pub contents: String,
}

#[derive(Debug)]
pub struct OkOutput {
    pub ok: bool,
}

#[derive(Debug)]
pub struct RunCommandInput {
    pub task_id: String,
    pub command: String,
    pub cwd: String,
}

#[derive(Debug)]
pub struct CommandOut {
    pub stdout: String,
    pub exit_code: i32,
}

#[derive(Debug)]
pub struct ProposeInput {
    pub task_id: String,
    pub tokens: u64,
}

#[derive(Debug)]
pub struct ProposeOutput {
    pub accepted: bool,
    pub reviewed_by: Vec<String>,
}

#[derive(Debug)]
pub struct ProposePlanInput {
    pub tasks: Vec<String>,
}

#[derive(Debug)]
pub struct ProposePlanOutput {
    pub approved: bool,
    /// The APPROVED task list, which operators may have edited, deleted from,
    /// or reordered from the original proposal. Execute exactly this list.
    pub tasks: Vec<String>,
}

#[derive(Debug)]
pub struct ClarifyQuestionInput {
    /// The question to put to the operators.
    pub prompt: String,
    /// The multiple-choice options. The console always adds a final
    /// "provide your own answer" free-text option; it is not one of these.
    pub options: Vec<String>,
}

#[derive(Debug)]
pub struct AskClarificationInput {
    pub questions: Vec<ClarifyQuestionInput>,
}

#[derive(Debug)]
pub struct AskClarificationOutput {
    /// The operators' accepted answers, one entry per question in order. An
    /// entry has two strings only when the operators chose "accept both".
    pub answers: Vec<Vec<String>>,
}

#[derive(Debug)]
pub struct SplitStreamInput {
    pub title: String,
    pub detail: String,
}

#[derive(Debug)]
pub struct ProposeSplitInput {
    pub streams: Vec<SplitStreamInput>,
}

#[derive(Debug)]
pub struct ProposeSplitOutput {
    pub approved: bool,
    pub streams: Vec<SplitStreamInput>,
}

/// Why a tool call fails.
#[derive(Debug)]
pub enum ToolError {
    /// The agent can do something about it.
    InvalidRequest(String),
    Internal(String),
}

impl ToolError {
    /// An error on the host's side, in these words.
    pub open spec fn is_internal(self, words: Seq<char>) -> bool {
        self matches ToolError::Internal(m) && m@ == words
    }

    /// An error that the agent can do something about, in these words.
    pub open spec fn is_invalid(self, words: Seq<char>) -> bool {
        self matches ToolError::InvalidRequest(m) && m@ == words
    }
}

/// The host's refusal as a tool error.
fn internal(e: &GateHostError) -> (r: ToolError)
    ensures
        r.is_internal(e.words()),
{
    ToolError::Internal(e.message())
}

/// The task that an agent's own task id stands for: the connection's agent id
/// comes before it, so that agents who pick the same id do not meet.
pub open spec fn task_name(agent: Seq<char>, task: Seq<char>) -> Seq<char> {
    agent + "::"@ + task
}

/// What the questions of an input say.
pub open spec fn input_views(v: Seq<ClarifyQuestionInput>) -> Seq<AskedView> {
    v.map_values(
        |q: ClarifyQuestionInput| AskedView { prompt: q.prompt@, options: texts(q.options@) },
    )
}

/// The streams of an input.
pub open spec fn stream_inputs(v: Seq<SplitStream>) -> Seq<SplitStreamInput> {
    v.map_values(|s: SplitStream| SplitStreamInput { title: s.title, detail: s.detail })
}

pub open spec fn input_streams(v: Seq<SplitStreamInput>) -> Seq<SplitStream> {
    v.map_values(|s: SplitStreamInput| SplitStream { title: s.title, detail: s.detail })
}

/// The keys of signers, in hexadecimal.
pub open spec fn reviewer_names(ops: Seq<OperatorId>) -> Seq<Seq<char>> {
    ops.map_values(|op: OperatorId| hex_spec(op.0@))
}

/// What a rejected agent is told to do.
pub open spec fn remedy_words(remedy: Option<Remedy>) -> Seq<char> {
    match remedy {
        Some(Remedy::Steer(s)) => s@,
        Some(Remedy::HandEdit(h)) => "hand-edit:"@ + h@,
        None => "blocked"@,
    }
}

/// The name of a state.
pub open spec fn state_name(state: HoldState) -> Seq<char> {
    match state {
        HoldState::Open => "Open"@,
        HoldState::Partial => "Partial"@,
        HoldState::Satisfied => "Satisfied"@,
        HoldState::Blocked => "Blocked"@,
    }
}

/// The answer to a finished task whose ticket has resolved.
pub open spec fn task_answer(
    h: HostModel,
    gate_id: Seq<char>,
    r: Result<ProposeOutput, ToolError>,
) -> bool {
    let live = live_id(h.superseded, gate_id);
    let i = gate_index(h.gates, live) as int;
    if i >= h.gates.len() {
        r matches Err(e) && e.is_internal("gate disappeared"@)
    } else {
        let hold = h.gates[i].hold;
        match hold.state {
            HoldState::Satisfied => {
                &&& r matches Ok(out)
                &&& out.accepted
                &&& texts(out.reviewed_by@) == reviewer_names(signers(h.chain, live))
            },
            HoldState::Blocked => r matches Err(e) && e.is_invalid(
                "task rejected: "@ + remedy_words(first_remedy(hold.verdicts)),
            ),
            other => r matches Err(e) && e.is_internal(
                "non-terminal gate state: "@ + state_name(other),
            ),
        }
    }
}

/// The answer to a proposed plan, or none while it can still be decided. A
/// later proposal closes an undecided one.
pub open spec fn plan_answer(
    h: HostModel,
    ticket: int,
    r: Option<Result<ProposePlanOutput, ToolError>>,
) -> bool {
    match h.plan_decisions[ticket] {
        PlanDecision::Approved => {
            &&& r matches Some(Ok(out))
            &&& out.approved
            &&& texts(out.tasks@) == (match h.plan {
                Some(tasks) => tasks,
                None => seq![],
            })
        },
        PlanDecision::Steered(s) => r matches Some(Err(e)) && e.is_invalid(
            "plan rejected: "@ + s@ + " — revise the task list and call propose_plan again"@,
        ),
        PlanDecision::Pending => if ticket + 1 == h.plan_decisions.len() {
            r is None
        } else {
            r matches Some(Err(e)) && e.is_internal("session closed"@)
        },
    }
}

/// The answer to asked questions, or none while they can still be answered.
pub open spec fn clarification_answer(
    h: HostModel,
    ticket: int,
    r: Option<Result<AskClarificationOutput, ToolError>>,
) -> bool {
    match h.clarify_decisions[ticket] {
        Some(answers) => r matches Some(Ok(out)) && answer_texts(out.answers@) == answers,
        None => if ticket + 1 == h.clarify_decisions.len() {
            r is None
        } else {
            r matches Some(Err(e)) && e.is_internal("session closed"@)
        },
    }
}

/// The answer to a proposed split, or none while it can still be decided.
pub open spec fn split_answer(
    h: HostModel,
    ticket: int,
    r: Option<Result<ProposeSplitOutput, ToolError>>,
) -> bool {
    match h.split_decisions[ticket] {
        SplitView::Approved(streams) => {
            &&& r matches Some(Ok(out))
            &&& out.approved
            &&& out.streams@ == stream_inputs(streams)
        },
        SplitView::Declined => {
            &&& r matches Some(Ok(out))
            &&& !out.approved
            &&& out.streams@.len() == 0
        },
        SplitView::Pending => if ticket + 1 == h.split_decisions.len() {
            r is None
        } else {
            r matches Some(Err(e)) && e.is_internal("session closed"@)
        },
    }
}

impl KonturServer {
    /// The agent that the tools speak for.
    pub closed spec fn agent_id(&self) -> Seq<char> {
        self.agent@
    }

    pub fn new() -> (r: Self)
        ensures
            r.agent_id() == "agent-01"@,
    {
        KonturServer { agent: "agent-01".to_owned() }
    }

    /// Construct a server bound to a specific agent id (fleet dispatch).
    pub fn with_agent(agent: &str) -> (r: Self)
        ensures
            r.agent_id() == agent@,
    {
        KonturServer { agent: agent.to_owned() }
    }

    fn task(&self, task_id: &str) -> (r: TaskId)
        ensures
            r@ == task_name(self.agent_id(), task_id@),
    {
        TaskId(self.agent.clone().concat("::").concat(task_id))
    }

    /// Write a file in the agent's worktree (recorded, not gated).
    pub fn write_file<W: Workspace>(&self, host: &mut GateHost<W>, input: WriteFileInput) -> (r:
        Result<OkOutput, ToolError>)
        requires
            old(host).wf(),
        ensures
            final(host).wf(),
            exists|made: Result<(), GateHostError>| #[trigger]
                old(host)@.write_made(
                    self.agent_id(),
                    task_name(self.agent_id(), input.task_id@),
                    input.path@,
                    vstd::utf8::encode_utf8(input.contents@),
                    final(host)@,
                    made,
                ) && match made {
                    Ok(_) => r matches Ok(out) && out.ok,
                    Err(e) => r matches Err(f) && f.is_internal(e.words()),
                },
    {
        let task_id = self.task(input.task_id.as_str());
        let bytes = input.contents.as_str().as_bytes();
        let made = host.record_write(self.agent.as_str(), &task_id, input.path.as_str(), bytes);
        match made {
            Ok(_) => Ok(OkOutput { ok: true }),
            Err(e) => Err(internal(&e)),
        }
    }

    /// Run a command in the agent's worktree (recorded, not gated).
    pub fn run_command<W: Workspace>(&self, host: &mut GateHost<W>, input: RunCommandInput) -> (r:
        Result<CommandOut, ToolError>)
        requires
            old(host).wf(),
        ensures
            final(host).wf(),
            exists|made: Result<CommandOutput, GateHostError>| #[trigger]
                old(host)@.command_made(
                    self.agent_id(),
                    task_name(self.agent_id(), input.task_id@),
                    input.command@,
                    input.cwd@,
                    final(host)@,
                    made,
                ) && match made {
                    Ok(out) => r matches Ok(answer) && answer.stdout == out.stdout
                        && answer.exit_code == out.exit_code,
                    Err(e) => r matches Err(f) && f.is_internal(e.words()),
                },
    {
        let task_id = self.task(input.task_id.as_str());
        let made = host.run_command(
            self.agent.as_str(),
            &task_id,
            input.command.as_str(),
            input.cwd.as_str(),
        );
        match made {
            Ok(out) => Ok(CommandOut { stdout: out.stdout, exit_code: out.exit_code }),
            Err(e) => Err(internal(&e)),
        }
    }

    /// Submit the agent's task plan for operator approval. The ticket is
    /// answered by `plan_reply`.
    pub fn propose_plan<W: Workspace>(&self, host: &mut GateHost<W>, input: ProposePlanInput) -> (r:
        Result<usize, ToolError>)
        requires
            old(host).wf(),
        ensures
            final(host).wf(),
            exists|made: Result<usize, GateHostError>| #[trigger]
                old(host)@.plan_proposed(
                    self.agent_id(),
                    texts(input.tasks@),
                    final(host)@,
                    made,
                ) && match made {
                    Ok(ticket) => r == Ok::<usize, ToolError>(ticket),
                    Err(e) => r matches Err(f) && f.is_internal(e.words()),
                },
    {
        let ghost tasks = texts(input.tasks@);
        let made = host.propose_plan(self.agent.as_str(), input.tasks);
        assert(old(host)@.plan_proposed(self.agent_id(), tasks, host@, made));
        match made {
            Ok(ticket) => Ok(ticket),
            Err(e) => Err(internal(&e)),
        }
    }

    /// The answer to a proposed plan, once it is decided: the APPROVED task
    /// list, which operators may have edited, or the steer to revise it by.
    pub fn plan_reply<W: Workspace>(&self, host: &GateHost<W>, ticket: usize) -> (r: Option<
        Result<ProposePlanOutput, ToolError>,
    >)
        requires
            ticket < host@.plan_decisions.len(),
        ensures
            plan_answer(host@, ticket as int, r),
    {
        match host.plan_decision(ticket) {
            PlanDecision::Approved => {
                let tasks = match host.proposed_plan() {
                    Some(tasks) => tasks,
                    None => Vec::new(),
                };
                assert(host@.plan is None ==> texts(tasks@) =~= seq![]);
                Some(Ok(ProposePlanOutput { approved: true, tasks }))
            },
            PlanDecision::Steered(s) => Some(
                Err(
                    ToolError::InvalidRequest(
                        "plan rejected: ".to_owned().concat(s.as_str()).concat(
                            " — revise the task list and call propose_plan again",
                        ),
                    ),
                ),
            ),
            PlanDecision::Pending => if host.plan_is_open(ticket) {
                None
            } else {
                Some(Err(ToolError::Internal("session closed".to_owned())))
            },
        }
    }

    /// Ask the operators to resolve genuine ambiguity in the prompt before
    /// planning. The ticket is answered by `clarification_reply`.
    pub fn ask_clarification<W: Workspace>(
        &self,
        host: &mut GateHost<W>,
        input: AskClarificationInput,
    ) -> (r: Result<usize, ToolError>)
        requires
            old(host).wf(),
        ensures
            final(host).wf(),
            if input.questions@.len() == 0 {
                &&& r matches Err(e)
                &&& e.is_invalid(
                    "ask_clarification needs at least one question; if the prompt is clear, call propose_plan instead"@,
                )
                &&& final(host)@ == old(host)@
            } else {
                exists|made: Result<usize, GateHostError>| #[trigger]
                    old(host)@.questions_asked(
                        self.agent_id(),
                        input_views(input.questions@),
                        final(host)@,
                        made,
                    ) && match made {
                        Ok(ticket) => r == Ok::<usize, ToolError>(ticket),
                        Err(e) => r matches Err(f) && f.is_internal(e.words()),
                    }
            },
    {
        if input.questions.len() == 0 {
            return Err(
                ToolError::InvalidRequest(
                    "ask_clarification needs at least one question; if the prompt is clear, call propose_plan instead".to_owned(),
                ),
            );
        }
        let mut questions: Vec<ClarifyQuestion> = Vec::new();
        let mut i: usize = 0;
        while i < input.questions.len()
            invariant
                0 <= i <= input.questions.len(),
                questions@.len() == i,
                forall|j: int|
                    0 <= j < i ==> (#[trigger] questions@[j])@ == (AskedView {
                        prompt: input.questions@[j].prompt@,
                        options: texts(input.questions@[j].options@),
                    }),
            decreases input.questions.len() - i,
        {
            questions.push(
                ClarifyQuestion {
                    prompt: input.questions[i].prompt.clone(),
                    options: copy_texts(&input.questions[i].options),
                },
            );
            i = i + 1;
        }
        assert(asked_views(questions@) =~= input_views(input.questions@));
        let made = host.ask_clarification(self.agent.as_str(), questions);
        assert(old(host)@.questions_asked(
            self.agent_id(),
            input_views(input.questions@),
            host@,
            made,
        ));
        match made {
            Ok(ticket) => Ok(ticket),
            Err(e) => Err(internal(&e)),
        }
    }

    /// The operators' accepted answers, once they agree.
    pub fn clarification_reply<W: Workspace>(&self, host: &GateHost<W>, ticket: usize) -> (r:
        Option<Result<AskClarificationOutput, ToolError>>)
        requires
            ticket < host@.clarify_decisions.len(),
        ensures
            clarification_answer(host@, ticket as int, r),
    {
        match host.clarify_decision(ticket) {
            ClarifyDecision::Answered(answers) => Some(Ok(AskClarificationOutput { answers })),
            ClarifyDecision::Pending => if host.clarify_is_open(ticket) {
                None
            } else {
                Some(Err(ToolError::Internal("session closed".to_owned())))
            },
        }
    }

    /// Propose to split the work into independent streams. The ticket is
    /// answered by `split_reply`.
    pub fn propose_split<W: Workspace>(
        &self,
        host: &mut GateHost<W>,
        input: ProposeSplitInput,
    ) -> (r: Result<usize, ToolError>)
        requires
            old(host).wf(),
        ensures
            final(host).wf(),
            if input.streams@.len() < 2 {
                &&& r matches Err(e)
                &&& e.is_invalid(
                    "propose_split needs at least two independent streams; otherwise just work solo"@,
                )
                &&& final(host)@ == old(host)@
            } else {
                exists|made: Result<usize, GateHostError>| #[trigger]
                    old(host)@.split_proposed(
                        input_streams(input.streams@),
                        final(host)@,
                        made,
                    ) && match made {
                        Ok(ticket) => r == Ok::<usize, ToolError>(ticket),
                        Err(e) => r matches Err(f) && f.is_internal(e.words()),
                    }
            },
    {
        if input.streams.len() < 2 {
            return Err(
                ToolError::InvalidRequest(
                    "propose_split needs at least two independent streams; otherwise just work solo".to_owned(),
                ),
            );
        }
        let mut streams: Vec<SplitStream> = Vec::new();
        let mut i: usize = 0;
        while i < input.streams.len()
            invariant
                0 <= i <= input.streams.len(),
                streams@.len() == i,
                forall|j: int|
                    0 <= j < i ==> (#[trigger] streams@[j]) == (SplitStream {
                        title: input.streams@[j].title,
                        detail: input.streams@[j].detail,
                    }),
            decreases input.streams.len() - i,
        {
            streams.push(
                SplitStream {
                    title: input.streams[i].title.clone(),
                    detail: input.streams[i].detail.clone(),
                },
            );
            i = i + 1;
        }
        assert(streams@ =~= input_streams(input.streams@));
        let made = host.propose_split(self.agent.as_str(), streams);
        match made {
            Ok(ticket) => Ok(ticket),
            Err(e) => Err(internal(&e)),
        }
    }

    /// The operators' decision on a split: the streams to work, or to go on
    /// alone.
    pub fn split_reply<W: Workspace>(&self, host: &GateHost<W>, ticket: usize) -> (r: Option<
        Result<ProposeSplitOutput, ToolError>,
    >)
        requires
            ticket < host@.split_decisions.len(),
        ensures
            split_answer(host@, ticket as int, r),
    {
        match host.split_decision(ticket) {
            SplitDecision::Approved(approved) => {
                let mut streams: Vec<SplitStreamInput> = Vec::new();
                let mut i: usize = 0;
                while i < approved.len()
                    invariant
                        0 <= i <= approved.len(),
                        streams@.len() == i,
                        forall|j: int|
                            0 <= j < i ==> (#[trigger] streams@[j]) == (SplitStreamInput {
                                title: approved@[j].title,
                                detail: approved@[j].detail,
                            }),
                    decreases approved.len() - i,
                {
                    streams.push(
                        SplitStreamInput {
                            title: approved[i].title.clone(),
                            detail: approved[i].detail.clone(),
                        },
                    );
                    i = i + 1;
                }
                assert(streams@ =~= stream_inputs(approved@));
                Some(Ok(ProposeSplitOutput { approved: true, streams }))
            },
            SplitDecision::Declined => Some(
                Ok(ProposeSplitOutput { approved: false, streams: Vec::new() }),
            ),
            SplitDecision::Pending => if host.split_is_open(ticket) {
                None
            } else {
                Some(Err(ToolError::Internal("session closed".to_owned())))
            },
        }
    }

    /// Submit the completed task for four-eyes review. The review gate and its ticket
    /// are answered by `task_reply`.
    pub fn propose_task_complete<W: Workspace>(
        &self,
        host: &mut GateHost<W>,
        input: ProposeInput,
    ) -> (r: Result<(GateId, usize), ToolError>)
        requires
            old(host).wf(),
            old(host)@.has_room(),
        ensures
            final(host).wf(),
            exists|made: Result<(GateId, usize), GateHostError>| #[trigger]
                old(host)@.gate_begun(
                    self.agent_id(),
                    task_name(self.agent_id(), input.task_id@),
                    input.tokens as nat,
                    final(host)@,
                    made,
                ) && match made {
                    Ok(opened) => r == Ok::<(GateId, usize), ToolError>(opened),
                    Err(e) => r matches Err(f) && f.is_internal(e.words()),
                },
    {
        let task_id = self.task(input.task_id.as_str());
        let made = host.begin_task_gate(self.agent.as_str(), task_id, input.tokens);
        match made {
            Ok(opened) => Ok(opened),
            Err(e) => Err(internal(&e)),
        }
    }

    /// The outcome of the review, once the ticket says that it is over.
    pub fn task_reply<W: Workspace>(&self, host: &GateHost<W>, gate_id: &GateId, ticket: usize) -> (r:
        Option<Result<ProposeOutput, ToolError>>)
        requires
            ticket < host@.watches.len(),
        ensures
            r is Some <==> host@.watches[ticket as int].is_final(),
            r matches Some(answer) ==> task_answer(host@, gate_id@, answer),
    {
        if !host.gate_state(ticket).is_resolved() {
            return None;
        }
        Some(finished(host.gate_outcome(gate_id)))
    }
}

/// What the agent is told of a finished review.
pub open spec fn review_answer(
    outcome: Option<GateFinal>,
    r: Result<ProposeOutput, ToolError>,
) -> bool {
    match outcome {
        None => r matches Err(e) && e.is_internal("gate disappeared"@),
        Some(summary) => match summary.state {
            HoldState::Satisfied => {
                &&& r matches Ok(out)
                &&& out.accepted
                &&& texts(out.reviewed_by@) == reviewer_names(summary.reviewed_by@)
            },
            HoldState::Blocked => r matches Err(e) && e.is_invalid(
                "task rejected: "@ + remedy_words(summary.remedy),
            ),
            other => r matches Err(e) && e.is_internal(
                "non-terminal gate state: "@ + state_name(other),
            ),
        },
    }
}

/// What the agent is told of a finished review.
pub fn finished(outcome: Option<GateFinal>) -> (r: Result<ProposeOutput, ToolError>)
    ensures
        review_answer(outcome, r),
{
    let summary = match outcome {
        Some(summary) => summary,
        None => {
            return Err(ToolError::Internal("gate disappeared".to_owned()));
        },
    };
    match summary.state {
        HoldState::Satisfied => Ok(
            ProposeOutput { accepted: true, reviewed_by: names_of(&summary.reviewed_by) },
        ),
        HoldState::Blocked => {
            let remedy = match summary.remedy {
                Some(Remedy::Steer(s)) => s,
                Some(Remedy::HandEdit(h)) => "hand-edit:".to_owned().concat(h.0.as_str()),
                None => "blocked".to_owned(),
            };
            Err(
                ToolError::InvalidRequest("task rejected: ".to_owned().concat(remedy.as_str())),
            )
        },
        HoldState::Open => Err(
            ToolError::Internal("non-terminal gate state: ".to_owned().concat("Open")),
        ),
        HoldState::Partial => Err(
            ToolError::Internal("non-terminal gate state: ".to_owned().concat("Partial")),
        ),
    }
}

/// The keys of signers, in hexadecimal.
fn names_of(ops: &Vec<OperatorId>) -> (r: Vec<String>)
    ensures
        texts(r@) == reviewer_names(ops@),
{
    let mut r: Vec<String> = Vec::new();
    let mut i: usize = 0;
    while i < ops.len()
        invariant
            0 <= i <= ops.len(),
            r@.len() == i,
            forall|j: int| 0 <= j < i ==> (#[trigger] r@[j])@ == hex_spec(ops@[j].0@),
        decreases ops.len() - i,
    {
        r.push(hex_prefix(ops[i].0.as_slice(), 32));
        i = i + 1;
    }
    r
}

// ---------------------------------------------------------------------------
// Laws
// ---------------------------------------------------------------------------
/// Agents that pick the same task id do not meet, and an agent's own tasks stay
/// apart: two tasks have one name only where both the agent and the id are the
/// same. This holds of agents neither of whose ids continues the other's past
/// the separator.
pub proof fn agents_tasks_stay_apart(
    a: Seq<char>,
    t: Seq<char>,
    b: Seq<char>,
    u: Seq<char>,
)
    requires
        a != b ==> !(a + "::"@).is_prefix_of(b + "::"@) && !(b + "::"@).is_prefix_of(a + "::"@),
        task_name(a, t) == task_name(b, u),
    ensures
        a == b,
        t == u,
{
    let sep = "::"@;
    let n = sep.len() as int;
    assert(task_name(b, u).take(b.len() + n) =~= b + sep);
    assert(task_name(b, u).skip(b.len() + n) =~= u);
}

/// A decided ticket stays decided: what was answered to a plan is not changed by
/// a later proposal.
pub proof fn later_plans_leave_earlier_answers(
    h: HostModel,
    agent: Seq<char>,
    tasks: Seq<Seq<char>>,
    after: HostModel,
    r: Result<usize, GateHostError>,
    ticket: int,
)
    requires
        h.valid(),
        h.plan_proposed(agent, tasks, after, r),
        0 <= ticket < h.plan_decisions.len(),
    ensures
        after.plan_decisions[ticket] == h.plan_decisions[ticket],
        r matches Ok(fresh) ==> after.plan_decisions[fresh as int] is Pending,
{
}

/// An agent's task is known by the agent's id and its own.
pub proof fn tasks_are_named_after_their_agent(agent: Seq<char>, task: Seq<char>)
    ensures
        task_name(agent, task) == agent + "::"@ + task,
        agent.is_prefix_of(task_name(agent, task)),
        task.is_suffix_of(task_name(agent, task)),
{
    let name = task_name(agent, task);
    assert(name.skip(name.len() - task.len()) =~= task);
}

/// What an agent asks or proposes is passed on whole: every question with its
/// words and options, every stream with its title and detail, in order.
pub proof fn inputs_are_passed_on_whole(
    questions: Seq<ClarifyQuestionInput>,
    streams: Seq<SplitStreamInput>,
    approved: Seq<SplitStream>,
)
    ensures
        input_views(questions).len() == questions.len(),
        forall|q: int|
            0 <= q < questions.len() ==> (#[trigger] input_views(questions)[q]).prompt
                == questions[q].prompt@ && input_views(questions)[q].options == texts(
                questions[q].options@,
            ),
        input_streams(streams).len() == streams.len(),
        forall|i: int|
            0 <= i < streams.len() ==> (#[trigger] input_streams(streams)[i]).title
                == streams[i].title && input_streams(streams)[i].detail == streams[i].detail,
        stream_inputs(approved).len() == approved.len(),
        forall|i: int|
            0 <= i < approved.len() ==> (#[trigger] stream_inputs(approved)[i]).title
                == approved[i].title && stream_inputs(approved)[i].detail == approved[i].detail,
{
}

/// The answer to a proposed plan: approved, with the session's plan task by task;
/// steered, with the steer's words; closed, where a later proposal came first;
/// none while it can still be decided.
pub proof fn plans_are_answered_as_decided(
    h: HostModel,
    ticket: int,
    r: Option<Result<ProposePlanOutput, ToolError>>,
)
    requires
        0 <= ticket < h.plan_decisions.len(),
        plan_answer(h, ticket, r),
    ensures
        h.plan_decisions[ticket] is Approved <==> r matches Some(Ok(_)),
        r matches Some(Ok(out)) ==> {
            &&& out.approved
            &&& h.plan matches Some(tasks) ==> out.tasks@.len() == tasks.len() && forall|i: int|
                0 <= i < tasks.len() ==> (#[trigger] out.tasks@[i])@ == tasks[i]
            &&& h.plan is None ==> out.tasks@.len() == 0
        },
        h.plan_decisions[ticket] matches PlanDecision::Steered(s) ==> (r matches Some(Err(e)) && (
        e matches ToolError::InvalidRequest(words) && words@ == "plan rejected: "@ + s@
            + " — revise the task list and call propose_plan again"@)),
        h.plan_decisions[ticket] is Pending && ticket == h.plan_decisions.len() - 1 <==> r is None,
        h.plan_decisions[ticket] is Pending && ticket < h.plan_decisions.len() - 1 ==> (r matches Some(
            Err(e),
        ) && (e matches ToolError::Internal(words) && words@ == "session closed"@)),
{
    if let Some(Ok(out)) = r {
        assert forall|i: int| 0 <= i < out.tasks@.len() implies texts(out.tasks@)[i] == (
        #[trigger] out.tasks@[i])@ by {}
        assert(texts(out.tasks@).len() == out.tasks@.len());
    }
}

/// The answer to asked questions: the accepted answers of each, in order; closed,
/// where later questions came first; none while they can still be answered.
pub proof fn questions_are_answered_as_settled(
    h: HostModel,
    ticket: int,
    r: Option<Result<AskClarificationOutput, ToolError>>,
)
    requires
        0 <= ticket < h.clarify_decisions.len(),
        clarification_answer(h, ticket, r),
    ensures
        h.clarify_decisions[ticket] is Some <==> r matches Some(Ok(_)),
        h.clarify_decisions[ticket] matches Some(answers) ==> (r matches Some(Ok(out))
            && out.answers@.len() == answers.len() && forall|q: int|
            0 <= q < answers.len() ==> texts((#[trigger] out.answers@[q])@) == answers[q]),
        h.clarify_decisions[ticket] is None && ticket == h.clarify_decisions.len() - 1 <==> r
            is None,
        h.clarify_decisions[ticket] is None && ticket < h.clarify_decisions.len() - 1 ==> (
        r matches Some(Err(e)) && (e matches ToolError::Internal(words) && words@
            == "session closed"@)),
{
    if let Some(Ok(out)) = r {
        let answers = h.clarify_decisions[ticket]->Some_0;
        assert(answer_texts(out.answers@).len() == out.answers@.len());
        assert forall|q: int| 0 <= q < answers.len() implies texts((#[trigger] out.answers@[q])@)
            == answers[q] by {
            assert(answer_texts(out.answers@)[q] == texts(out.answers@[q]@));
        }
    }
}

/// The answer to a proposed split: approved, with the streams that were approved;
/// declined, with none; closed, where a later proposal came first; none while it
/// can still be decided.
pub proof fn splits_are_answered_as_decided(
    h: HostModel,
    ticket: int,
    r: Option<Result<ProposeSplitOutput, ToolError>>,
)
    requires
        0 <= ticket < h.split_decisions.len(),
        split_answer(h, ticket, r),
    ensures
        h.split_decisions[ticket] matches SplitView::Approved(streams) ==> (r matches Some(Ok(out))
            && out.approved && out.streams@.len() == streams.len() && forall|i: int|
            0 <= i < streams.len() ==> (#[trigger] out.streams@[i]).title == streams[i].title
                && out.streams@[i].detail == streams[i].detail),
        h.split_decisions[ticket] is Declined ==> (r matches Some(Ok(out)) && !out.approved
            && out.streams@.len() == 0),
        h.split_decisions[ticket] is Pending && ticket == h.split_decisions.len() - 1 <==> r
            is None,
        h.split_decisions[ticket] is Pending && ticket < h.split_decisions.len() - 1 ==> (
        r matches Some(Err(e)) && (e matches ToolError::Internal(words) && words@
            == "session closed"@)),
{
}

/// What an agent learns of a finished review: accepted, with the whole key of
/// each who signed, in order; rejected, with the remedy in its own words. A gate
/// that is gone, or not resolved, is the host's fault and is said to be.
pub proof fn reviews_are_answered_as_they_ended(
    outcome: Option<GateFinal>,
    r: Result<ProposeOutput, ToolError>,
)
    requires
        review_answer(outcome, r),
    ensures
        outcome is None ==> (r matches Err(ToolError::Internal(words)) && words@
            == "gate disappeared"@),
        r is Ok <==> (outcome matches Some(summary) && summary.state is Satisfied),
        outcome matches Some(summary) ==> {
            &&& summary.state is Satisfied ==> (r matches Ok(out) && out.accepted
                && out.reviewed_by@.len() == summary.reviewed_by@.len() && forall|k: int|
                0 <= k < summary.reviewed_by@.len() ==> (#[trigger] out.reviewed_by@[k])@
                    == hex_spec(summary.reviewed_by@[k].0@))
            &&& summary.state is Blocked ==> (r matches Err(ToolError::InvalidRequest(words))
                && match summary.remedy {
                Some(Remedy::Steer(s)) => words@ == "task rejected: "@ + s@,
                Some(Remedy::HandEdit(h)) => words@ == "task rejected: "@ + ("hand-edit:"@ + h.0@),
                None => words@ == "task rejected: "@ + "blocked"@,
            })
            &&& summary.state is Open ==> (r matches Err(ToolError::Internal(words)) && words@
                == "non-terminal gate state: "@ + "Open"@)
            &&& summary.state is Partial ==> (r matches Err(ToolError::Internal(words)) && words@
                == "non-terminal gate state: "@ + "Partial"@)
        },
{
    if let Ok(out) = r {
        assert(texts(out.reviewed_by@).len() == out.reviewed_by@.len());
        assert forall|k: int| 0 <= k < out.reviewed_by@.len() implies texts(out.reviewed_by@)[k]
            == (#[trigger] out.reviewed_by@[k])@ by {}
    }
}

/// The review of a task ends as its live gate stands.
pub proof fn task_reviews_end_as_their_gate(
    h: HostModel,
    gate_id: Seq<char>,
    r: Result<ProposeOutput, ToolError>,
    summary: GateFinal,
    i: int,
)
    requires
        task_answer(h, gate_id, r),
        0 <= i < h.gates.len(),
        h.gates[i].hold.gate_id == live_id(h.superseded, gate_id),
        forall|j: int|
            0 <= j < i ==> (#[trigger] h.gates[j]).hold.gate_id != live_id(h.superseded, gate_id),
        summary.state == h.gates[i].hold.state,
        summary.remedy == first_remedy(h.gates[i].hold.verdicts),
        summary.reviewed_by@ == signers(h.chain, live_id(h.superseded, gate_id)),
    ensures
        review_answer(Some(summary), r),
{
    let live = live_id(h.superseded, gate_id);
    crate::gatehost::model::gate_index_bounds(h.gates, live);
    let k = gate_index(h.gates, live) as int;
    assert(k == i) by {
        if k < i {
            assert(h.gates[k].hold.gate_id == live);
        }
        if i < k {
            assert(h.gates[i].hold.gate_id != live);
        }
    }
}

/// An agent whose plan nobody edits or steers gets its own plan back: once both
/// seats have consented the answer to its proposal is the very list, task by task.
pub proof fn untouched_plans_come_back_whole(
    m: ServerModel,
    agent: String,
    tasks: Vec<String>,
    first: int,
    operators: (OperatorId, OperatorId),
    times: (nat, nat, nat),
    replies: (Seq<ServerMsg>, Seq<ServerMsg>),
    proposed: ServerModel,
    one: ServerModel,
    both: ServerModel,
    r: Option<Result<ProposePlanOutput, ToolError>>,
)
    requires
        m.valid(),
        m.net.phase is PlanReview,
        !m.net.agent_done,
        !m.host.abandoned,
        tasks@.len() > 0,
        0 <= first < 2,
        m.event_taken(HostEvent::PlanProposed { agent, tasks }@, times.0, proposed),
        proposed.handled(first, operators.0, ClientMsg::Ready, times.1, replies.0, one),
        one.handled(1 - first, operators.1, ClientMsg::Ready, times.2, replies.1, both),
        plan_answer(both.host, m.host.plan_decisions.len() - 1, r),
    ensures
        r matches Some(Ok(out)) && out.approved && out.tasks@.len() == tasks@.len() && forall|i: int|
            0 <= i < tasks@.len() ==> (#[trigger] out.tasks@[i])@ == tasks@[i]@,
{
    untouched_proposals_are_approved_whole(
        m,
        agent,
        tasks,
        first,
        operators,
        times,
        replies,
        proposed,
        one,
        both,
    );
    plans_are_answered_as_decided(both.host, m.host.plan_decisions.len() - 1, r);
    assert forall|i: int| 0 <= i < tasks@.len() implies texts(tasks@)[i] == (
    #[trigger] tasks@[i])@ by {}
}

} // verus!

//! What a session is: the matters it decides, and how each step changes it.
//!
//! Agents write, run commands and propose plans, questions and finished tasks;
//! operators cast verdicts, answer and steer. Whoever has to wait holds a
//! ticket: the number of a cell that the host fills in when the matter is
//! decided.
use vstd::prelude::*;

use crate::audit::chain::{head_of, verified, AuditEntry};
use crate::audit::record::{entries_of, recorded_outcome, ProvenanceView};
use crate::canonical::sha256_digest;
use crate::eligibility::count_outside;
use crate::error::{CastRejected, GateHostError};
use crate::hold::{first_remedy, fresh_hold, HoldState, HoldView};
use crate::ids::{GateId, OperatorId, TaskId};
use crate::policy::{Authorship, Independence};
use crate::provenance::provenance_spec;
use crate::sealed::VerdictView;
use crate::session::ContextView;
use crate::text::{
    copy_texts, decimal_has_its_value, decimal_spec, numeral_value, padding_keeps_the_value, texts,
    zero_padded,
};
use crate::verdict::{CastVerdict, Remedy};
use crate::workspace::{CommandOutput, FrozenDiff, WorkspaceCall};

verus! {

// ---------------------------------------------------------------------------
// What is decided, asked and reported
// ---------------------------------------------------------------------------
/// Decision on a proposed plan.
#[derive(PartialEq, Eq, Debug)]
pub enum PlanDecision {
    Pending,
    Approved,
    Steered(String),
}

impl Clone for PlanDecision {
    fn clone(&self) -> (r: Self)
        ensures
            r == *self,
    {
        match self {
            PlanDecision::Pending => PlanDecision::Pending,
            PlanDecision::Approved => PlanDecision::Approved,
            PlanDecision::Steered(s) => PlanDecision::Steered(s.clone()),
        }
    }
}

/// A clarification question the agent asks the operators. The "provide your own
/// answer" option is implicit and offered by the console, not stored here.
#[derive(PartialEq, Eq, Debug)]
pub struct ClarifyQuestion {
    pub prompt: String,
    pub options: Vec<String>,
}

/// What a question says.
#[verifier::ext_equal]
pub struct AskedView {
    pub prompt: Seq<char>,
    pub options: Seq<Seq<char>>,
}

impl View for ClarifyQuestion {
    type V = AskedView;

    open spec fn view(&self) -> AskedView {
        AskedView { prompt: self.prompt@, options: texts(self.options@) }
    }
}

impl Clone for ClarifyQuestion {
    fn clone(&self) -> (r: Self)
        ensures
            r@ == self@,
    {
        ClarifyQuestion { prompt: self.prompt.clone(), options: copy_texts(&self.options) }
    }
}

/// What each question says.
pub open spec fn asked_views(v: Seq<ClarifyQuestion>) -> Seq<AskedView> {
    v.map_values(|q: ClarifyQuestion| q@)
}

pub fn copy_questions(v: &Vec<ClarifyQuestion>) -> (r: Vec<ClarifyQuestion>)
    ensures
        asked_views(r@) == asked_views(v@),
{
    let mut r: Vec<ClarifyQuestion> = Vec::new();
    let mut i: usize = 0;
    while i < v.len()
        invariant
            0 <= i <= v.len(),
            r@.len() == i,
            forall|j: int| 0 <= j < i ==> (#[trigger] r@[j])@ == v@[j]@,
        decreases v.len() - i,
    {
        r.push(v[i].clone());
        i = i + 1;
    }
    r
}

/// Resolution of a clarification exchange.
#[derive(PartialEq, Eq, Debug)]
pub enum ClarifyDecision {
    Pending,
    /// One or more accepted answers per original question, in order.
    Answered(Vec<Vec<String>>),
}

impl View for ClarifyDecision {
    type V = Option<Seq<Seq<Seq<char>>>>;

    open spec fn view(&self) -> Option<Seq<Seq<Seq<char>>>> {
        match self {
            ClarifyDecision::Pending => None,
            ClarifyDecision::Answered(answers) => Some(crate::clarify::answer_texts(answers@)),
        }
    }
}

pub fn copy_answers(v: &Vec<Vec<String>>) -> (r: Vec<Vec<String>>)
    ensures
        crate::clarify::answer_texts(r@) == crate::clarify::answer_texts(v@),
{
    let mut r: Vec<Vec<String>> = Vec::new();
    let mut i: usize = 0;
    while i < v.len()
        invariant
            0 <= i <= v.len(),
            r@.len() == i,
            forall|j: int| 0 <= j < i ==> texts((#[trigger] r@[j])@) == texts(v@[j]@),
        decreases v.len() - i,
    {
        r.push(copy_texts(&v[i]));
        i = i + 1;
    }
    r
}

impl Clone for ClarifyDecision {
    fn clone(&self) -> (r: Self)
        ensures
            r@ == self@,
    {
        match self {
            ClarifyDecision::Pending => ClarifyDecision::Pending,
            ClarifyDecision::Answered(answers) => ClarifyDecision::Answered(copy_answers(answers)),
        }
    }
}

/// One independent stream of work in a proposed split.
#[derive(PartialEq, Eq, Debug)]
pub struct SplitStream {
    pub title: String,
    pub detail: String,
}

impl Clone for SplitStream {
    fn clone(&self) -> (r: Self)
        ensures
            r == *self,
    {
        SplitStream { title: self.title.clone(), detail: self.detail.clone() }
    }
}

/// An owned copy of a list of streams.
pub fn copy_streams(v: &Vec<SplitStream>) -> (r: Vec<SplitStream>)
    ensures
        r@ == v@,
{
    let mut r: Vec<SplitStream> = Vec::new();
    let mut i: usize = 0;
    while i < v.len()
        invariant
            0 <= i <= v.len(),
            r@ == v@.take(i as int),
        decreases v.len() - i,
    {
        r.push(v[i].clone());
        i = i + 1;
    }
    r
}

/// Decision on a proposed split.
#[derive(PartialEq, Eq, Debug)]
pub enum SplitDecision {
    Pending,
    /// The streams to work in parallel.
    Approved(Vec<SplitStream>),
    Declined,
}

/// What was decided on a split.
pub enum SplitView {
    Pending,
    Approved(Seq<SplitStream>),
    Declined,
}

impl View for SplitDecision {
    type V = SplitView;

    open spec fn view(&self) -> SplitView {
        match self {
            SplitDecision::Pending => SplitView::Pending,
            SplitDecision::Approved(v) => SplitView::Approved(v@),
            SplitDecision::Declined => SplitView::Declined,
        }
    }
}

impl Clone for SplitDecision {
    fn clone(&self) -> (r: Self)
        ensures
            r@ == self@,
    {
        match self {
            SplitDecision::Pending => SplitDecision::Pending,
            SplitDecision::Approved(v) => SplitDecision::Approved(copy_streams(v)),
            SplitDecision::Declined => SplitDecision::Declined,
        }
    }
}

/// Live activity events for observers (the session server). Best-effort
/// display stream: never blocks or gates the enforcement path.
#[allow(inconsistent_fields)]
#[derive(Clone, Debug)]
pub enum HostEvent {
    Write { agent: String, task: TaskId, path: String, bytes: usize },
    /// Emitted after execution so operators see outcomes, not just invocations.
    Command { agent: String, task: TaskId, command: String, exit_code: i32 },
    GateOpened { agent: String, gate_id: GateId, task: TaskId },
    GateResolved { gate_id: GateId, state: HoldState },
    /// Emitted after `hand_edit` removes a stale pending hold and replaces it
    /// with a fresh one over the combined diff.
    GateSuperseded { old_gate_id: GateId, new_gate_id: GateId },
    PlanProposed { agent: String, tasks: Vec<String> },
    /// Emitted after `steer_plan` routes a replan prompt to the agent.
    PlanSteered { steer: String },
    /// The agent asked the operators to clarify ambiguity before planning.
    QuestionsAsked { agent: String, questions: Vec<ClarifyQuestion> },
    SessionAbandoned,
}

/// What an event says.
#[allow(inconsistent_fields)]
pub enum EventView {
    Write { agent: Seq<char>, task: Seq<char>, path: Seq<char>, bytes: nat },
    Command { agent: Seq<char>, task: Seq<char>, command: Seq<char>, exit_code: i32 },
    GateOpened { agent: Seq<char>, gate_id: Seq<char>, task: Seq<char> },
    GateResolved { gate_id: Seq<char>, state: HoldState },
    GateSuperseded { old_gate_id: Seq<char>, new_gate_id: Seq<char> },
    PlanProposed { agent: Seq<char>, tasks: Seq<Seq<char>> },
    PlanSteered { steer: Seq<char> },
    QuestionsAsked { agent: Seq<char>, questions: Seq<AskedView> },
    SessionAbandoned,
}

impl View for HostEvent {
    type V = EventView;

    open spec fn view(&self) -> EventView {
        match self {
            HostEvent::Write { agent, task, path, bytes } => EventView::Write {
                agent: agent@,
                task: task@,
                path: path@,
                bytes: *bytes as nat,
            },
            HostEvent::Command { agent, task, command, exit_code } => EventView::Command {
                agent: agent@,
                task: task@,
                command: command@,
                exit_code: *exit_code,
            },
            HostEvent::GateOpened { agent, gate_id, task } => EventView::GateOpened {
                agent: agent@,
                gate_id: gate_id@,
                task: task@,
            },
            HostEvent::GateResolved { gate_id, state } => EventView::GateResolved {
                gate_id: gate_id@,
                state: *state,
            },
            HostEvent::GateSuperseded { old_gate_id, new_gate_id } => EventView::GateSuperseded {
                old_gate_id: old_gate_id@,
                new_gate_id: new_gate_id@,
            },
            HostEvent::PlanProposed { agent, tasks } => EventView::PlanProposed {
                agent: agent@,
                tasks: texts(tasks@),
            },
            HostEvent::PlanSteered { steer } => EventView::PlanSteered { steer: steer@ },
            HostEvent::QuestionsAsked { agent, questions } => EventView::QuestionsAsked {
                agent: agent@,
                questions: asked_views(questions@),
            },
            HostEvent::SessionAbandoned => EventView::SessionAbandoned,
        }
    }
}

/// What each event says.
pub open spec fn event_views(v: Seq<HostEvent>) -> Seq<EventView> {
    v.map_values(|e: HostEvent| e@)
}

/// Result of a cast on the operator face.
#[derive(Clone, PartialEq, Eq, Debug)]
pub struct GateProgress {
    pub state: HoldState,
    pub escalation_required: bool,
    /// Present only when the review gate is `Blocked`: the remedy driving rework.
    pub remedy: Option<Remedy>,
}

/// Operator-face projection of a pending gate. Never exposes a sealed verdict
/// value: `observed` holds only sealing-safe projections.
#[derive(Clone, Debug)]
pub struct GateView {
    pub gate_id: GateId,
    pub task_id: TaskId,
    pub diff_hash: crate::ids::Hash,
    pub state: HoldState,
    pub observed: Vec<VerdictView>,
    pub escalation_required: bool,
    pub files: Vec<String>,
    pub loc: u32,
    /// The agent that produced this gate's change.
    pub agent: String,
}

/// Terminal summary of a gate, read by the awaiting agent handler.
#[derive(Clone, PartialEq, Eq, Debug)]
pub struct GateFinal {
    pub state: HoldState,
    pub remedy: Option<Remedy>,
    pub reviewed_by: Vec<OperatorId>,
}

// ---------------------------------------------------------------------------
// The model
// ---------------------------------------------------------------------------
/// One gate of the session.
#[verifier::ext_equal]
pub struct GateModel {
    pub hold: HoldView,
    pub provenance: ProvenanceView,
    /// The ticket of whoever waits for this gate.
    pub watch: nat,
    pub escalation_required: bool,
    /// The tickets of superseded gates that this gate now speaks for.
    pub carried: Seq<nat>,
}

impl GateModel {
    /// The review gate still takes verdicts.
    pub open spec fn pending(self) -> bool {
        !self.hold.state.is_final()
    }

    /// A hand-edit of the task supersedes it.
    pub open spec fn stale_for(self, task: Seq<char>) -> bool {
        self.hold.task_id == task && self.pending()
    }

    /// This ticket is answered by this gate.
    pub open spec fn speaks_for(self, ticket: nat) -> bool {
        self.watch == ticket || self.carried.contains(ticket)
    }

    /// What the operator face shows of a pending gate.
    pub open spec fn shown_as(self, v: GateView) -> bool {
        &&& v.gate_id@ == self.hold.gate_id
        &&& v.task_id@ == self.hold.task_id
        &&& v.diff_hash.0@ == self.hold.diff_hash
        &&& v.state == self.hold.state
        &&& v.observed@ == self.hold.observed()
        &&& v.escalation_required == self.escalation_required
        &&& texts(v.files@) == self.provenance.files
        &&& v.loc == self.provenance.loc
        &&& v.agent@ == self.provenance.agent_id
    }
}

/// A session, as its host keeps it.
#[verifier::ext_equal]
pub struct HostModel {
    pub ctx: ContextView,
    pub chain: Seq<AuditEntry>,
    pub gates: Seq<GateModel>,
    pub next_gate: nat,
    pub plan: Option<Seq<Seq<char>>>,
    pub plan_decisions: Seq<PlanDecision>,
    pub questions: Option<Seq<AskedView>>,
    pub clarify_decisions: Seq<Option<Seq<Seq<Seq<char>>>>>,
    pub streams: Option<Seq<SplitStream>>,
    pub split_decisions: Seq<SplitView>,
    pub abandoned: bool,
    /// Which gate took the place of which.
    pub superseded: Seq<(Seq<char>, Seq<char>)>,
    /// The state last published on each gate ticket.
    pub watches: Seq<HoldState>,
    pub events: Seq<EventView>,
    pub calls: Seq<WorkspaceCall>,
    pub audit_home: Option<Seq<char>>,
}

/// The id of the `n`-th gate.
pub open spec fn gate_name(n: nat) -> Seq<char> {
    "gate-"@ + zero_padded(decimal_spec(n), 3)
}

/// The number in a gate's id.
pub open spec fn gate_number(id: Seq<char>) -> nat {
    numeral_value(id.skip("gate-"@.len() as int))
}

/// Gates are numbered: the number of the `n`-th gate's id is `n`.
pub proof fn gate_names_are_numbered(n: nat)
    ensures
        gate_number(gate_name(n)) == n,
{
    decimal_has_its_value(n);
    padding_keeps_the_value(decimal_spec(n), 3);
    assert(gate_name(n).skip("gate-"@.len() as int) =~= zero_padded(decimal_spec(n), 3));
}

/// Is this the id of one of the first `n` gates?
pub open spec fn named_up_to(id: Seq<char>, n: nat) -> bool {
    1 <= gate_number(id) <= n && id == gate_name(gate_number(id))
}

/// Where the review gate with this id stands, or the number of gates.
pub open spec fn gate_index(gates: Seq<GateModel>, id: Seq<char>) -> nat
    decreases gates.len(),
{
    if gates.len() == 0 || gates[0].hold.gate_id == id {
        0
    } else {
        1 + gate_index(gates.skip(1), id)
    }
}

pub proof fn gate_index_bounds(gates: Seq<GateModel>, id: Seq<char>)
    ensures
        gate_index(gates, id) <= gates.len(),
        gate_index(gates, id) < gates.len() ==> gates[gate_index(gates, id) as int].hold.gate_id
            == id,
        forall|j: int|
            0 <= j < gate_index(gates, id) ==> (#[trigger] gates[j]).hold.gate_id != id,
    decreases gates.len(),
{
    if gates.len() == 0 || gates[0].hold.gate_id == id {
    } else {
        gate_index_bounds(gates.skip(1), id);
        assert forall|j: int| 0 <= j < gate_index(gates, id) implies (
        #[trigger] gates[j]).hold.gate_id != id by {
            if j > 0 {
                assert(gates.skip(1)[j - 1] == gates[j]);
            }
        }
    }
}

/// The review gate that took this one's place, if any.
pub open spec fn successor(
    superseded: Seq<(Seq<char>, Seq<char>)>,
    id: Seq<char>,
) -> Option<Seq<char>>
    decreases superseded.len(),
{
    if superseded.len() == 0 {
        None
    } else if superseded[0].0 == id {
        Some(superseded[0].1)
    } else {
        successor(superseded.skip(1), id)
    }
}

/// The id reached after at most this many successors.
pub open spec fn follow(
    superseded: Seq<(Seq<char>, Seq<char>)>,
    id: Seq<char>,
    steps: nat,
) -> Seq<char>
    decreases steps,
{
    if steps == 0 {
        id
    } else {
        match successor(superseded, id) {
            Some(next) => follow(superseded, next, (steps - 1) as nat),
            None => id,
        }
    }
}

/// The review gate that now speaks for this id.
pub open spec fn live_id(superseded: Seq<(Seq<char>, Seq<char>)>, id: Seq<char>) -> Seq<char> {
    follow(superseded, id, superseded.len() + 1)
}

/// The first chain entry of a gate.
pub open spec fn entry_of_gate(chain: Seq<AuditEntry>, id: Seq<char>) -> Option<AuditEntry>
    decreases chain.len(),
{
    if chain.len() == 0 {
        None
    } else if chain[0].gate() == id {
        Some(chain[0])
    } else {
        entry_of_gate(chain.skip(1), id)
    }
}

/// The signers of a gate's record.
pub open spec fn signers(chain: Seq<AuditEntry>, id: Seq<char>) -> Seq<OperatorId> {
    match entry_of_gate(chain, id) {
        Some(entry) => crate::audit::chain::go_signers(entry),
        None => seq![],
    }
}

/// The entry records this gate's resolution, chained to `prev`.
pub open spec fn records_gate(
    entry: AuditEntry,
    prev: Seq<u8>,
    provenance: ProvenanceView,
    hold: HoldView,
) -> bool {
    entry matches AuditEntry::Merge(rec) && {
        &&& rec.core.prev_hash.0@ == prev
        &&& rec.core.gate_id@ == hold.gate_id
        &&& rec.core.provenance@ == provenance
        &&& rec.core.authorship == hold.authorship
        &&& rec.core.checkers@ == entries_of(hold.verdicts)
        &&& rec.core.outcome == recorded_outcome(hold)
        &&& rec.hash_holds()
    }
}

/// The tickets after a gate has published its state to everyone it speaks for.
pub open spec fn publish(
    watches: Seq<HoldState>,
    gate: GateModel,
    state: HoldState,
) -> Seq<HoldState> {
    Seq::new(
        watches.len(),
        |w: int|
            if gate.speaks_for(w as nat) {
                state
            } else {
                watches[w]
            },
    )
}

/// The tickets after every pending gate among these has published `Blocked`.
pub open spec fn block_all(watches: Seq<HoldState>, gates: Seq<GateModel>) -> Seq<HoldState>
    decreases gates.len(),
{
    if gates.len() == 0 {
        watches
    } else {
        let before = block_all(watches, gates.drop_last());
        if gates.last().pending() {
            publish(before, gates.last(), HoldState::Blocked)
        } else {
            before
        }
    }
}

/// The tasks of the pending gates, in order.
pub open spec fn pending_tasks(gates: Seq<GateModel>) -> Seq<Seq<char>> {
    pending_of(gates).map_values(|g: GateModel| g.hold.task_id)
}

/// The pending gates, in order.
pub open spec fn pending_of(gates: Seq<GateModel>) -> Seq<GateModel> {
    gates.filter(|g: GateModel| g.pending())
}

/// The gates that a hand-edit of a task supersedes, in order.
pub open spec fn stale_gates(gates: Seq<GateModel>, task: Seq<char>) -> Seq<GateModel> {
    gates.filter(|g: GateModel| g.stale_for(task))
}

/// The gates that a hand-edit of a task leaves, in order.
pub open spec fn kept_gates(gates: Seq<GateModel>, task: Seq<char>) -> Seq<GateModel> {
    gates.filter(|g: GateModel| !g.stale_for(task))
}

/// The tickets that the given gates speak for, in order.
pub open spec fn tickets_of(gates: Seq<GateModel>) -> Seq<nat>
    decreases gates.len(),
{
    if gates.len() == 0 {
        seq![]
    } else {
        tickets_of(gates.drop_last()).push(gates.last().watch) + gates.last().carried
    }
}

/// The operators who made a change that one of the given gates is over.
pub open spec fn makers_of(gates: Seq<GateModel>) -> Set<OperatorId>
    decreases gates.len(),
{
    if gates.len() == 0 {
        Set::empty()
    } else {
        makers_of(gates.drop_last()).union(gates.last().hold.makers)
    }
}

/// The redirects from the given gates to a new one.
pub open spec fn redirects(gates: Seq<GateModel>, id: Seq<char>) -> Seq<(Seq<char>, Seq<char>)> {
    gates.map_values(|g: GateModel| (g.hold.gate_id, id))
}

/// The events that report those redirects.
pub open spec fn supersession_events(gates: Seq<GateModel>, id: Seq<char>) -> Seq<EventView> {
    gates.map_values(
        |g: GateModel| EventView::GateSuperseded { old_gate_id: g.hold.gate_id, new_gate_id: id },
    )
}

/// The review gate with this id is in the list, or another took its place.
pub open spec fn accounted_for(
    gates: Seq<GateModel>,
    superseded: Seq<(Seq<char>, Seq<char>)>,
    id: Seq<char>,
) -> bool {
    ||| exists|i: int| 0 <= i < gates.len() && (#[trigger] gates[i]).hold.gate_id == id
    ||| exists|k: int| 0 <= k < superseded.len() && (#[trigger] superseded[k]).0 == id
}

/// Every verdict was cast by an operator of the roster.
pub open spec fn on_roster(operators: Seq<OperatorId>, verdicts: Seq<CastVerdict>) -> bool {
    forall|k: int|
        0 <= k < verdicts.len() ==> operators.contains((#[trigger] verdicts[k]).operator)
}

impl HostModel {
    /// What holds of every session.
    pub open spec fn valid(self) -> bool {
        &&& verified(self.chain)
        &&& self.plan_decisions.len() > 0
        &&& self.clarify_decisions.len() > 0
        &&& self.split_decisions.len() > 0
        &&& forall|i: int|
            0 <= i < self.gates.len() ==> {
                &&& (#[trigger] self.gates[i]).hold.valid()
                &&& self.gates[i].provenance.diff_hash == self.gates[i].hold.diff_hash
                &&& on_roster(self.ctx.operators, self.gates[i].hold.verdicts)
                &&& named_up_to(self.gates[i].hold.gate_id, self.next_gate)
                &&& self.gates[i].watch < self.watches.len()
            }
        &&& forall|i: int, k: int|
            0 <= i < self.gates.len() && 0 <= k < self.gates[i].carried.len() ==> (
            #[trigger] self.gates[i].carried[k]) < self.watches.len()
        &&& forall|i: int, j: int|
            0 <= i < j < self.gates.len() ==> (#[trigger] self.gates[i]).hold.gate_id != (
            #[trigger] self.gates[j]).hold.gate_id
        &&& forall|k: int|
            0 <= k < self.superseded.len() ==> {
                &&& named_up_to((#[trigger] self.superseded[k]).0, self.next_gate)
                &&& named_up_to(self.superseded[k].1, self.next_gate)
                &&& gate_number(self.superseded[k].0) < gate_number(self.superseded[k].1)
                &&& accounted_for(self.gates, self.superseded, self.superseded[k].1)
            }
        &&& forall|i: int, k: int|
            0 <= i < self.gates.len() && 0 <= k < self.superseded.len() ==> (
            #[trigger] self.gates[i]).hold.gate_id != (#[trigger] self.superseded[k]).0
    }

    /// Another gate can be numbered.
    pub open spec fn has_room(self) -> bool {
        self.next_gate < u64::MAX
    }

    /// A gate over a fresh diff of an agent's task.
    pub open spec fn opened(
        self,
        agent: Seq<char>,
        task: Seq<char>,
        provenance: ProvenanceView,
    ) -> HostModel {
        let id = gate_name(self.next_gate + 1);
        HostModel {
            next_gate: self.next_gate + 1,
            gates: self.gates.push(
                GateModel {
                    hold: fresh_hold(
                        id,
                        task,
                        provenance.diff_hash,
                        self.ctx.policy,
                        Set::empty(),
                        Authorship::Agent,
                        false,
                        usize::MAX as nat,
                    ),
                    provenance,
                    watch: self.watches.len(),
                    escalation_required: false,
                    carried: seq![],
                },
            ),
            watches: self.watches.push(HoldState::Open),
            events: self.events.push(EventView::GateOpened { agent, gate_id: id, task }),
            ..self
        }
    }

    /// The makers of a change after a hand-edit: the editor and, where a maker
    /// may not cast, everyone who made the change that was pending before it.
    pub open spec fn edit_makers(self, task: Seq<char>, editor: OperatorId) -> Set<OperatorId> {
        match self.ctx.policy.independence {
            Independence::Strict => makers_of(stale_gates(self.gates, task)).insert(editor),
            Independence::Pragmatic => set![editor],
        }
    }

    /// The review gate that a hand-edit opens.
    pub open spec fn edited_gate(
        self,
        task: Seq<char>,
        frozen: FrozenDiff,
        editor: OperatorId,
    ) -> GateModel {
        let digest = sha256_digest(frozen.bytes@);
        let pool = match self.ctx.policy.independence {
            Independence::Strict => count_outside(
                self.ctx.operators,
                self.edit_makers(task, editor),
            ),
            Independence::Pragmatic => self.ctx.operators.len(),
        };
        GateModel {
            hold: fresh_hold(
                gate_name(self.next_gate + 1),
                task,
                digest,
                self.ctx.policy,
                self.edit_makers(task, editor),
                Authorship::Both,
                true,
                pool,
            ),
            provenance: provenance_spec(self.ctx, task, digest, frozen, 0),
            watch: self.watches.len(),
            escalation_required: pool < self.ctx.policy.required,
            carried: tickets_of(stale_gates(self.gates, task)),
        }
    }

    /// After a hand-edit: the pending gates of the task give way to one fresh
    /// gate over the combined diff, which takes over their tickets. Nothing is
    /// published on them yet.
    pub open spec fn hand_edited(
        self,
        task: Seq<char>,
        frozen: FrozenDiff,
        editor: OperatorId,
    ) -> HostModel {
        let id = gate_name(self.next_gate + 1);
        let stale = stale_gates(self.gates, task);
        HostModel {
            next_gate: self.next_gate + 1,
            gates: kept_gates(self.gates, task).push(self.edited_gate(task, frozen, editor)),
            superseded: self.superseded + redirects(stale, id),
            watches: self.watches.push(HoldState::Open),
            events: (self.events + supersession_events(stale, id)).push(
                EventView::GateOpened { agent: self.ctx.agent_id, gate_id: id, task },
            ),
            ..self
        }
    }

    /// Gate `i` has taken a verdict.
    pub open spec fn cast_on(self, i: int, cv: CastVerdict) -> HostModel {
        let hold = self.gates[i].hold.after(cv);
        HostModel {
            gates: self.gates.update(
                i,
                GateModel { hold, escalation_required: hold.short_of_keys(), ..self.gates[i] },
            ),
            ..self
        }
    }

    /// Gate `i` has published its state, and reported it where it is final.
    pub open spec fn published(self, i: int) -> HostModel {
        let gate = self.gates[i];
        HostModel {
            watches: publish(self.watches, gate, gate.hold.state),
            events: if gate.hold.state.is_final() {
                self.events.push(
                    EventView::GateResolved {
                        gate_id: gate.hold.gate_id,
                        state: gate.hold.state,
                    },
                )
            } else {
                self.events
            },
            ..self
        }
    }

    /// Why a verdict is refused before its gate sees it or by the review gate, if it
    /// is.
    pub open spec fn verdict_refusal(self, gate_id: GateId, cv: CastVerdict, e: GateHostError) -> bool {
        let i = gate_index(self.gates, gate_id@) as int;
        if self.abandoned {
            e is SessionAbandoned
        } else if i >= self.gates.len() {
            e matches GateHostError::UnknownGate(words) && words@ == gate_id@
        } else if !self.ctx.operators.contains(cv.operator) {
            e == GateHostError::Cast(CastRejected::Ineligible)
        } else {
            match self.gates[i].hold.refusal(self.gates[i].hold.version as u64, cv) {
                Some(rejected) => e == GateHostError::Cast(rejected),
                None => false,
            }
        }
    }

    /// The verdict counts: nothing refuses it.
    pub open spec fn takes_verdict(self, gate_id: Seq<char>, cv: CastVerdict) -> bool {
        let i = gate_index(self.gates, gate_id) as int;
        &&& !self.abandoned
        &&& i < self.gates.len()
        &&& self.ctx.operators.contains(cv.operator)
        &&& self.gates[i].hold.refusal(self.gates[i].hold.version as u64, cv) is None
    }

    /// What follows where the verdict counts, with `after` the session
    /// afterwards and `r` the answer. A gate that resolves is recorded on the
    /// chain, its task accepted or discarded, and its state published: an
    /// accept that fails leaves the cast in place, nothing recorded and nothing
    /// published; a discard that fails comes after the record and before the
    /// publication.
    pub open spec fn verdict_taken(
        self,
        gate_id: Seq<char>,
        cv: CastVerdict,
        after: HostModel,
        r: Result<GateProgress, GateHostError>,
    ) -> bool {
        let i = gate_index(self.gates, gate_id) as int;
        let cast = self.cast_on(i, cv);
        let gate = cast.gates[i];
        let progress = GateProgress {
            state: gate.hold.state,
            escalation_required: gate.escalation_required,
            remedy: if gate.hold.state is Blocked {
                first_remedy(gate.hold.verdicts)
            } else {
                None
            },
        };
        let entry = after.chain.last();
        let recorded = HostModel {
            chain: self.chain.push(entry),
            calls: after.calls,
            ..cast
        };
        match gate.hold.state {
            HoldState::Satisfied => {
                &&& after.calls == self.calls.push(after.calls.last())
                &&& after.calls.last() matches WorkspaceCall::Accept { task, result }
                &&& task == gate.hold.task_id
                &&& match result {
                    Ok(_) => {
                        &&& records_gate(entry, head_of(self.chain), gate.provenance, gate.hold)
                        &&& after == recorded.published(i)
                        &&& r == Ok::<GateProgress, GateHostError>(progress)
                    },
                    Err(e) => {
                        &&& after == (HostModel { calls: after.calls, ..cast })
                        &&& r == Err::<GateProgress, GateHostError>(GateHostError::Workspace(e))
                    },
                }
            },
            HoldState::Blocked => {
                &&& records_gate(entry, head_of(self.chain), gate.provenance, gate.hold)
                &&& after.calls == self.calls.push(after.calls.last())
                &&& after.calls.last() matches WorkspaceCall::Discard { task, result }
                &&& task == gate.hold.task_id
                &&& match result {
                    Ok(_) => {
                        &&& after == recorded.published(i)
                        &&& r == Ok::<GateProgress, GateHostError>(progress)
                    },
                    Err(e) => {
                        &&& after == recorded
                        &&& r == Err::<GateProgress, GateHostError>(GateHostError::Workspace(e))
                    },
                }
            },
            _ => {
                &&& after == cast.published(i)
                &&& r == Ok::<GateProgress, GateHostError>(progress)
            },
        }
    }

    /// A plan was proposed, with `after` the session afterwards and `r` the
    /// answer: the ticket of a fresh decision.
    pub open spec fn plan_proposed(
        self,
        agent: Seq<char>,
        tasks: Seq<Seq<char>>,
        after: HostModel,
        r: Result<usize, GateHostError>,
    ) -> bool {
        match r {
            Err(e) => self.abandoned && e is SessionAbandoned && after == self,
            Ok(ticket) => {
                &&& !self.abandoned
                &&& ticket == self.plan_decisions.len()
                &&& after == (HostModel {
                    plan: Some(tasks),
                    plan_decisions: self.plan_decisions.push(PlanDecision::Pending),
                    events: self.events.push(EventView::PlanProposed { agent, tasks }),
                    ..self
                })
            },
        }
    }

    /// Questions were asked, with `after` the session afterwards and `r` the
    /// answer: the ticket of a fresh decision.
    pub open spec fn questions_asked(
        self,
        agent: Seq<char>,
        questions: Seq<AskedView>,
        after: HostModel,
        r: Result<usize, GateHostError>,
    ) -> bool {
        match r {
            Err(e) => self.abandoned && e is SessionAbandoned && after == self,
            Ok(ticket) => {
                &&& !self.abandoned
                &&& ticket == self.clarify_decisions.len()
                &&& after == (HostModel {
                    questions: Some(questions),
                    clarify_decisions: self.clarify_decisions.push(None),
                    events: self.events.push(EventView::QuestionsAsked { agent, questions }),
                    ..self
                })
            },
        }
    }

    /// A split was proposed, with `after` the session afterwards and `r` the
    /// answer: the ticket of a fresh decision.
    pub open spec fn split_proposed(
        self,
        streams: Seq<SplitStream>,
        after: HostModel,
        r: Result<usize, GateHostError>,
    ) -> bool {
        match r {
            Err(e) => self.abandoned && e is SessionAbandoned && after == self,
            Ok(ticket) => {
                &&& !self.abandoned
                &&& ticket == self.split_decisions.len()
                &&& after == (HostModel {
                    streams: Some(streams),
                    split_decisions: self.split_decisions.push(SplitView::Pending),
                    ..self
                })
            },
        }
    }

    /// The task was handed to the agent.
    pub open spec fn assigned(self, agent: Seq<char>, task: Seq<char>) -> HostModel {
        self.called(WorkspaceCall::Assign { task, agent })
    }

    /// An agent's write was made, with `after` the session afterwards and `r`
    /// the answer.
    pub open spec fn write_made(
        self,
        agent: Seq<char>,
        task: Seq<char>,
        path: Seq<char>,
        contents: Seq<u8>,
        after: HostModel,
        r: Result<(), GateHostError>,
    ) -> bool {
        match r {
            Ok(_) => after == (HostModel {
                events: self.events.push(
                    EventView::Write { agent, task, path, bytes: contents.len() },
                ),
                ..self.assigned(agent, task).called(
                    WorkspaceCall::Write { task, path, contents, result: Ok(()) },
                )
            }),
            Err(e) => e matches GateHostError::Workspace(failed) && after == self.assigned(
                agent,
                task,
            ).called(WorkspaceCall::Write { task, path, contents, result: Err(failed) }),
        }
    }

    /// An agent's command was run, with `after` the session afterwards and `r`
    /// the answer.
    pub open spec fn command_made(
        self,
        agent: Seq<char>,
        task: Seq<char>,
        command: Seq<char>,
        cwd: Seq<char>,
        after: HostModel,
        r: Result<CommandOutput, GateHostError>,
    ) -> bool {
        match r {
            Ok(out) => after == (HostModel {
                events: self.events.push(
                    EventView::Command { agent, task, command, exit_code: out.exit_code },
                ),
                ..self.assigned(agent, task).called(
                    WorkspaceCall::Command { task, command, cwd, result: Ok(out) },
                )
            }),
            Err(e) => e matches GateHostError::Workspace(failed) && after == self.assigned(
                agent,
                task,
            ).called(WorkspaceCall::Command { task, command, cwd, result: Err(failed) }),
        }
    }

    /// A finished task was frozen and put before the operators, with `after` the
    /// session afterwards and `r` the answer: the review gate and its ticket.
    pub open spec fn gate_begun(
        self,
        agent: Seq<char>,
        task: Seq<char>,
        tokens: nat,
        after: HostModel,
        r: Result<(GateId, usize), GateHostError>,
    ) -> bool {
        let call = after.calls.last();
        let frozen_state = self.assigned(agent, task).called(call);
        &&& call matches WorkspaceCall::Freeze { task: t, result }
        &&& t == task
        &&& match result {
            Err(failed) => r == Err::<(GateId, usize), GateHostError>(
                GateHostError::Workspace(failed),
            ) && after == frozen_state,
            Ok(frozen) => if self.abandoned {
                r == Err::<(GateId, usize), GateHostError>(GateHostError::SessionAbandoned)
                    && after == frozen_state
            } else {
                &&& r matches Ok(opened)
                &&& opened.0@ == gate_name(self.next_gate + 1)
                &&& opened.1 == self.watches.len()
                &&& after == frozen_state.opened(
                    agent,
                    task,
                    ProvenanceView {
                        agent_id: agent,
                        ..provenance_spec(
                            self.ctx,
                            task,
                            sha256_digest(frozen.bytes@),
                            frozen,
                            tokens,
                        )
                    },
                )
            },
        }
    }

    /// A verdict was submitted, with `after` the session afterwards and `r` the
    /// answer.
    pub open spec fn verdict_given(
        self,
        gate_id: GateId,
        cv: CastVerdict,
        after: HostModel,
        r: Result<GateProgress, GateHostError>,
    ) -> bool {
        if self.takes_verdict(gate_id@, cv) {
            self.verdict_taken(gate_id@, cv, after, r)
        } else {
            &&& r matches Err(e)
            &&& self.verdict_refusal(gate_id, cv, e)
            &&& after == self
        }
    }

    /// A hand-edit was made, with `after` the session afterwards and `r` the
    /// answer: the write and the freeze come first, and the fresh gate only
    /// where both succeed.
    pub open spec fn edit_made(
        self,
        task: Seq<char>,
        path: Seq<char>,
        contents: Seq<u8>,
        editor: OperatorId,
        after: HostModel,
        r: Result<(GateId, usize), GateHostError>,
    ) -> bool {
        if self.abandoned {
            &&& r == Err::<(GateId, usize), GateHostError>(GateHostError::SessionAbandoned)
            &&& after == self
        } else {
            let written = after.calls[self.calls.len() as int];
            &&& written matches WorkspaceCall::Write { task: t, path: p, contents: c, result }
            &&& t == task
            &&& p == path
            &&& c == contents
            &&& match result {
                Err(failed) => {
                    &&& r == Err::<(GateId, usize), GateHostError>(
                        GateHostError::Workspace(failed),
                    )
                    &&& after == self.called(written)
                },
                Ok(_) => {
                    let call = after.calls.last();
                    let frozen_state = self.called(written).called(call);
                    &&& call matches WorkspaceCall::Freeze { task: u, result: frozen }
                    &&& u == task
                    &&& match frozen {
                        Err(failed) => {
                            &&& r == Err::<(GateId, usize), GateHostError>(
                                GateHostError::Workspace(failed),
                            )
                            &&& after == frozen_state
                        },
                        Ok(diff) => {
                            &&& r matches Ok(opened)
                            &&& opened.0@ == gate_name(self.next_gate + 1)
                            &&& opened.1 == self.watches.len()
                            &&& after == frozen_state.hand_edited(task, diff, editor)
                        },
                    }
                },
            }
        }
    }

    /// The session was abandoned, with `after` the session afterwards and `r`
    /// the answer: every pending task is discarded in turn, up to the first
    /// that fails.
    pub open spec fn abandon_made(self, after: HostModel, r: Result<(), GateHostError>) -> bool {
        let tasks = pending_tasks(self.gates);
        let closed = HostModel { calls: after.calls, ..self.abandoning() };
        let made = after.calls.len() - self.calls.len();
        &&& discards(self.calls, after.calls, tasks, made)
        &&& match r {
            Ok(_) => {
                &&& made == tasks.len()
                &&& made > 0 ==> after.calls.last()->Discard_result is Ok
                &&& after == (HostModel {
                    events: self.events.push(EventView::SessionAbandoned),
                    ..closed
                })
            },
            Err(e) => {
                &&& made > 0
                &&& e == GateHostError::Workspace(after.calls.last()->Discard_result->Err_0)
                &&& after.calls.last()->Discard_result is Err
                &&& after == closed
            },
        }
    }

    /// A workspace call was made and nothing else happened.
    pub open spec fn called(self, call: WorkspaceCall) -> HostModel {
        HostModel { calls: self.calls.push(call), ..self }
    }

    /// After an abandon: closed for good, and everyone who waits for a pending
    /// gate told that it will never be approved.
    pub open spec fn abandoning(self) -> HostModel {
        HostModel { abandoned: true, watches: block_all(self.watches, self.gates), ..self }
    }
}

/// The first `n` tasks were discarded in order, each but the last with success.
pub open spec fn discards(
    before: Seq<WorkspaceCall>,
    after: Seq<WorkspaceCall>,
    tasks: Seq<Seq<char>>,
    n: int,
) -> bool {
    &&& 0 <= n <= tasks.len()
    &&& after.len() == before.len() + n
    &&& after.take(before.len() as int) == before
    &&& forall|k: int|
        0 <= k < n ==> {
            &&& (#[trigger] after[before.len() + k]) matches WorkspaceCall::Discard {
                task,
                result,
            }
            &&& task == tasks[k]
            &&& k < n - 1 ==> result is Ok
        }
}

// ---------------------------------------------------------------------------
// What every step keeps
// ---------------------------------------------------------------------------
/// A new gate beside the ones that stay, with redirects from ones that do not,
/// keeps the session valid.
#[verifier::spinoff_prover]
#[verifier::rlimit(40)]
pub proof fn new_gate_keeps_validity(h: HostModel, after: HostModel, gate: GateModel)
    requires
        h.valid(),
        after.ctx == h.ctx,
        after.chain == h.chain,
        after.plan_decisions == h.plan_decisions,
        after.clarify_decisions == h.clarify_decisions,
        after.split_decisions == h.split_decisions,
        after.next_gate == h.next_gate + 1,
        after.watches.len() == h.watches.len() + 1,
        after.gates.len() > 0,
        after.gates.last() == gate,
        forall|i: int|
            0 <= i < after.gates.len() - 1 ==> h.gates.contains(#[trigger] after.gates[i]),
        forall|i: int, j: int|
            0 <= i < j < after.gates.len() - 1 ==> (#[trigger] after.gates[i]).hold.gate_id != (
            #[trigger] after.gates[j]).hold.gate_id,
        gate.hold.valid(),
        gate.hold.verdicts.len() == 0,
        gate.provenance.diff_hash == gate.hold.diff_hash,
        gate.hold.gate_id == gate_name(h.next_gate + 1),
        gate.watch == h.watches.len(),
        forall|k: int|
            0 <= k < gate.carried.len() ==> (#[trigger] gate.carried[k]) < h.watches.len(),
        forall|i: int|
            0 <= i < h.gates.len() ==> accounted_for(
                after.gates,
                after.superseded,
                (#[trigger] h.gates[i]).hold.gate_id,
            ),
        after.superseded.len() >= h.superseded.len(),
        forall|k: int|
            0 <= k < h.superseded.len() ==> (#[trigger] after.superseded[k]) == h.superseded[k],
        forall|k: int|
            h.superseded.len() <= k < after.superseded.len() ==> {
                &&& named_up_to((#[trigger] after.superseded[k]).0, h.next_gate)
                &&& after.superseded[k].1 == gate_name(h.next_gate + 1)
                &&& forall|i: int|
                    0 <= i < after.gates.len() - 1 ==> (#[trigger] after.gates[i]).hold.gate_id
                        != after.superseded[k].0
            },
    ensures
        after.valid(),
{
    gate_names_are_numbered(h.next_gate + 1);
    let n = after.gates.len() - 1;
    assert forall|i: int| 0 <= i < after.gates.len() implies {
        &&& (#[trigger] after.gates[i]).hold.valid()
        &&& after.gates[i].provenance.diff_hash == after.gates[i].hold.diff_hash
        &&& on_roster(after.ctx.operators, after.gates[i].hold.verdicts)
        &&& named_up_to(after.gates[i].hold.gate_id, after.next_gate)
        &&& after.gates[i].watch < after.watches.len()
    } by {
        if i < n {
            let k = choose|k: int| 0 <= k < h.gates.len() && h.gates[k] == after.gates[i];
        }
    }
    assert forall|i: int, k: int|
        0 <= i < after.gates.len() && 0 <= k < after.gates[i].carried.len() implies (
    #[trigger] after.gates[i].carried[k]) < after.watches.len() by {
        if i < n {
            let j = choose|j: int| 0 <= j < h.gates.len() && h.gates[j] == after.gates[i];
        }
    }
    assert forall|i: int, j: int| 0 <= i < j < after.gates.len() implies (
    #[trigger] after.gates[i]).hold.gate_id != (#[trigger] after.gates[j]).hold.gate_id by {
        if j == n {
            let k = choose|k: int| 0 <= k < h.gates.len() && h.gates[k] == after.gates[i];
        }
    }
    assert forall|k: int| 0 <= k < after.superseded.len() implies {
        &&& named_up_to((#[trigger] after.superseded[k]).0, after.next_gate)
        &&& named_up_to(after.superseded[k].1, after.next_gate)
        &&& gate_number(after.superseded[k].0) < gate_number(after.superseded[k].1)
        &&& accounted_for(after.gates, after.superseded, after.superseded[k].1)
    } by {
        if k < h.superseded.len() {
            let id = h.superseded[k].1;
            if exists|m: int| 0 <= m < h.superseded.len() && (#[trigger] h.superseded[m]).0 == id {
                let m = choose|m: int|
                    0 <= m < h.superseded.len() && (#[trigger] h.superseded[m]).0 == id;
                assert(after.superseded[m].0 == id);
            }
        }
    }
    assert forall|i: int, k: int|
        0 <= i < after.gates.len() && 0 <= k < after.superseded.len() implies (
    #[trigger] after.gates[i]).hold.gate_id != (#[trigger] after.superseded[k]).0 by {
        if i < n {
            let j = choose|j: int| 0 <= j < h.gates.len() && h.gates[j] == after.gates[i];
            if k < h.superseded.len() {
                assert(h.gates[j].hold.gate_id != h.superseded[k].0);
            }
        } else {
            if k < h.superseded.len() {
                assert(after.superseded[k] == h.superseded[k]);
            }
            assert(gate_number(after.superseded[k].0) <= h.next_gate);
        }
    }
}

/// A gate that keeps its identity and its tickets keeps the session valid.
pub proof fn gate_update_keeps_validity(h: HostModel, i: int, gate: GateModel)
    requires
        h.valid(),
        0 <= i < h.gates.len(),
        gate.hold.valid(),
        on_roster(h.ctx.operators, gate.hold.verdicts),
        gate.hold.gate_id == h.gates[i].hold.gate_id,
        gate.hold.diff_hash == h.gates[i].hold.diff_hash,
        gate.provenance == h.gates[i].provenance,
        gate.watch == h.gates[i].watch,
        gate.carried == h.gates[i].carried,
    ensures
        (HostModel { gates: h.gates.update(i, gate), ..h }).valid(),
{
    let after = HostModel { gates: h.gates.update(i, gate), ..h };
    assert forall|k: int| 0 <= k < after.superseded.len() implies accounted_for(
        after.gates,
        after.superseded,
        (#[trigger] after.superseded[k]).1,
    ) by {
        let id = h.superseded[k].1;
        if exists|g: int| 0 <= g < h.gates.len() && (#[trigger] h.gates[g]).hold.gate_id == id {
            let g = choose|g: int|
                0 <= g < h.gates.len() && (#[trigger] h.gates[g]).hold.gate_id == id;
            assert(after.gates[g].hold.gate_id == id);
        }
    }
}

/// Every item that a filter keeps is in the sequence it was taken from, in
/// order.
pub proof fn filter_keeps_order(gates: Seq<GateModel>, keep: spec_fn(GateModel) -> bool)
    ensures
        forall|i: int|
            0 <= i < gates.filter(keep).len() ==> gates.contains(#[trigger] gates.filter(keep)[i])
                && keep(gates.filter(keep)[i]),
        (forall|i: int, j: int|
            0 <= i < j < gates.len() ==> (#[trigger] gates[i]).hold.gate_id != (
            #[trigger] gates[j]).hold.gate_id) ==> (forall|i: int, j: int|
            0 <= i < j < gates.filter(keep).len() ==> (#[trigger] gates.filter(
                keep,
            )[i]).hold.gate_id != (#[trigger] gates.filter(keep)[j]).hold.gate_id),
    decreases gates.len(),
{
    reveal(Seq::filter);
    if gates.len() > 0 {
        let shorter = gates.drop_last();
        filter_keeps_order(shorter, keep);
    }
}

/// A filter keeps every item that fits.
pub proof fn filter_finds(gates: Seq<GateModel>, keep: spec_fn(GateModel) -> bool, i: int)
    requires
        0 <= i < gates.len(),
        keep(gates[i]),
    ensures
        gates.filter(keep).contains(gates[i]),
    decreases gates.len(),
{
    reveal(Seq::filter);
    let shorter = gates.drop_last();
    if i < shorter.len() {
        filter_finds(shorter, keep, i);
    }
}

/// A pending gate is found under its id.
pub proof fn pending_gate_is_found(h: HostModel, j: int)
    requires
        h.valid(),
        0 <= j < pending_of(h.gates).len(),
    ensures
        ({
            let gate = pending_of(h.gates)[j];
            let i = gate_index(h.gates, gate.hold.gate_id) as int;
            0 <= i < h.gates.len() && h.gates[i] == gate
        }),
{
    let gate = pending_of(h.gates)[j];
    filter_keeps_order(h.gates, |g: GateModel| g.pending());
    gate_index_bounds(h.gates, gate.hold.gate_id);
}

/// What does not touch the gates keeps the session valid.
pub proof fn untouched_gates_keep_validity(h: HostModel, after: HostModel)
    requires
        h.valid(),
        after.ctx.operators == h.ctx.operators,
        after.chain == h.chain,
        after.gates == h.gates,
        after.next_gate == h.next_gate,
        after.superseded == h.superseded,
        after.watches == h.watches,
        after.plan_decisions.len() > 0,
        after.clarify_decisions.len() > 0,
        after.split_decisions.len() > 0,
    ensures
        after.valid(),
{
}

} // verus!

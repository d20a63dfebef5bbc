//! A worktree for each agent of a fleet, and which of them a task goes to.
//!
//! One agent's uncommitted writes can never leak into another agent's gated
//! diff: every call about a task reaches the worktree of the task's owner and no
//! other. Making a worktree is the caller's; `missing` says when one is needed.
use vstd::prelude::*;

use crate::error::WorkspaceError;
use crate::ids::TaskId;
use crate::text::{copy_texts, texts, trimmed};
use crate::workspace::{CommandOutput, FrozenDiff, Workspace, WorkspaceCall};
use crate::worktree::{agent_session, nothing_to_land, TaskOwners};

verus! {

/// A fleet's agents and their worktrees.
#[verifier::ext_equal]
pub struct FleetModel {
    pub session: Seq<char>,
    pub default_agent: Seq<char>,
    /// The agents that have a worktree, in the order in which they land.
    pub agents: Seq<Seq<char>>,
    /// What each of these worktrees was asked.
    pub calls: Seq<Seq<WorkspaceCall>>,
    pub owners: Map<Seq<char>, Seq<char>>,
}

/// Where an agent stands in a list of agents, or the length of the list.
pub open spec fn place(agents: Seq<Seq<char>>, agent: Seq<char>) -> nat
    decreases agents.len(),
{
    if agents.len() == 0 {
        0
    } else if agents[0] == agent {
        0
    } else {
        1 + place(agents.skip(1), agent)
    }
}

pub(crate) proof fn place_bounds(agents: Seq<Seq<char>>, agent: Seq<char>)
    ensures
        place(agents, agent) <= agents.len(),
        place(agents, agent) < agents.len() ==> agents[place(agents, agent) as int] == agent,
        forall|i: int| 0 <= i < place(agents, agent) ==> agents[i] != agent,
    decreases agents.len(),
{
    if agents.len() > 0 && agents[0] != agent {
        place_bounds(agents.skip(1), agent);
        assert forall|i: int| 0 <= i < place(agents, agent) implies agents[i] != agent by {
            if i > 0 {
                assert(agents.skip(1)[i - 1] == agents[i]);
            }
        }
    }
}

impl FleetModel {
    /// An agent has at most one worktree, and the default agent has one.
    pub open spec fn valid(self) -> bool {
        &&& self.agents.len() == self.calls.len()
        &&& self.agents.no_duplicates()
        &&& place(self.agents, self.default_agent) < self.agents.len()
    }

    /// The agent that a task goes to.
    pub open spec fn owner(self, task: Seq<char>) -> Seq<char> {
        if self.owners.contains_key(task) {
            self.owners[task]
        } else {
            self.default_agent
        }
    }

    /// Which worktree a task goes to, or the number of worktrees.
    pub open spec fn home(self, task: Seq<char>) -> nat {
        place(self.agents, self.owner(task))
    }

    /// The task's agent has a worktree.
    pub open spec fn housed(self, task: Seq<char>) -> bool {
        self.home(task) < self.agents.len()
    }

    /// After a task was assigned to an agent: the first assignment stands.
    pub open spec fn assigned(self, task: Seq<char>, agent: Seq<char>) -> FleetModel {
        if self.owners.contains_key(task) {
            self
        } else {
            FleetModel { owners: self.owners.insert(task, agent), ..self }
        }
    }

    /// After worktree `i` was asked something.
    pub open spec fn called_at(self, i: int, call: WorkspaceCall) -> FleetModel {
        FleetModel { calls: self.calls.update(i, self.calls[i].push(call)), ..self }
    }

    /// After the task's worktree was asked something.
    pub open spec fn called(self, task: Seq<char>, call: WorkspaceCall) -> FleetModel {
        self.called_at(self.home(task) as int, call)
    }

    /// After the task's agent got a worktree.
    pub open spec fn grown(self, task: Seq<char>, calls: Seq<WorkspaceCall>) -> FleetModel {
        FleetModel {
            agents: self.agents.push(self.owner(task)),
            calls: self.calls.push(calls),
            ..self
        }
    }

    /// One call on the fleet, with `after` the fleet afterwards. A call about a
    /// task goes to the worktree of the task's agent; where there is none yet it
    /// is made first, and where it cannot be made the call fails. Nothing but
    /// landing reaches a worktree otherwise.
    pub open spec fn takes(self, call: WorkspaceCall, after: FleetModel) -> bool {
        match call {
            WorkspaceCall::Assign { task, agent } => after == self.assigned(task, agent),
            WorkspaceCall::Merge { message, .. } => {
                &&& after == (FleetModel { calls: after.calls, ..self })
                &&& after.calls.len() == self.calls.len()
                &&& forall|i: int|
                    0 <= i < self.calls.len() ==> landed(
                        self.calls[i],
                        #[trigger] after.calls[i],
                        message,
                    )
            },
            WorkspaceCall::Audit { .. } => after == self,
            _ => {
                let task = call.about()->0;
                if self.housed(task) {
                    after == self.called(task, call)
                } else {
                    ||| after == self.grown(task, seq![]).called(task, call)
                    ||| call.failed() && after == self
                }
            },
        }
    }

    /// Every worktree was asked only about tasks of its own agent.
    pub open spec fn apart(self) -> bool {
        forall|i: int, c: int|
            0 <= i < self.calls.len() && 0 <= c < self.calls[i].len() ==> ((
            #[trigger] self.calls[i][c]).about() matches Some(task) ==> self.owners.contains_key(
                task,
            ) && self.owners[task] == self.agents[i])
    }
}

/// A worktree after a session was landed: asked nothing, or to land.
pub open spec fn landed(
    before: Seq<WorkspaceCall>,
    after: Seq<WorkspaceCall>,
    message: Seq<char>,
) -> bool {
    ||| after == before
    ||| {
        &&& after.len() == before.len() + 1
        &&& after.drop_last() == before
        &&& after.last() matches WorkspaceCall::Merge { message: m, .. } && m == message
    }
}

/// A fleet that takes these calls one after the other passes through these
/// states.
pub open spec fn is_run(states: Seq<FleetModel>, calls: Seq<WorkspaceCall>) -> bool {
    &&& states.len() == calls.len() + 1
    &&& forall|k: int| 0 <= k < calls.len() ==> states[k].takes(#[trigger] calls[k], states[k + 1])
}

/// The task has been handed to some agent: it had one before these calls, or one
/// of them did it.
pub open spec fn handed(f: FleetModel, calls: Seq<WorkspaceCall>, task: Seq<char>) -> bool {
    ||| f.owners.contains_key(task)
    ||| exists|m: int| 0 <= m < calls.len() && (#[trigger] calls[m]).hands_over(task)
}

/// Every task was handed to an agent before the first call about it.
pub open spec fn handed_first(f: FleetModel, calls: Seq<WorkspaceCall>) -> bool {
    forall|k: int|
        0 <= k < calls.len() ==> ((#[trigger] calls[k]).about() matches Some(task) ==> handed(
            f,
            calls.take(k),
            task,
        ))
}

/// The call at `i` is the first to hand the task over, and hands it to `agent`.
pub open spec fn first_handed(
    f: FleetModel,
    calls: Seq<WorkspaceCall>,
    i: int,
    task: Seq<char>,
    agent: Seq<char>,
) -> bool {
    &&& 0 <= i < calls.len()
    &&& calls[i] == (WorkspaceCall::Assign { task, agent })
    &&& !handed(f, calls.take(i), task)
}

/// Per-agent worktree isolation for a fleet. Routing is by task: a task goes to
/// the agent it was assigned to before its first write, and to the session's
/// primary agent where it was assigned to none, so a fleet of one behaves like a
/// single worktree.
pub struct FleetWorkspace<W: Workspace> {
    session: String,
    default_agent: String,
    agents: Vec<String>,
    trees: Vec<W>,
    owners: TaskOwners,
}

impl<W: Workspace> View for FleetWorkspace<W> {
    type V = FleetModel;

    closed spec fn view(&self) -> FleetModel {
        FleetModel {
            session: self.session@,
            default_agent: self.default_agent@,
            agents: texts(self.agents@),
            calls: self.trees@.map_values(|t: W| t.calls()),
            owners: self.owners@,
        }
    }
}

impl<W: Workspace> FleetWorkspace<W> {
    pub open spec fn wf(&self) -> bool {
        self@.valid()
    }

    /// Launch a fleet with the default agent's worktree, which is made eagerly.
    pub fn create(session: &str, default_agent: &str, tree: W) -> (r: Self)
        ensures
            r.wf(),
            r@ == (FleetModel {
                session: session@,
                default_agent: default_agent@,
                agents: seq![default_agent@],
                calls: seq![tree.calls()],
                owners: Map::empty(),
            }),
    {
        let mut agents: Vec<String> = Vec::new();
        agents.push(default_agent.to_owned());
        let mut trees: Vec<W> = Vec::new();
        trees.push(tree);
        FleetWorkspace {
            session: session.to_owned(),
            default_agent: default_agent.to_owned(),
            agents,
            trees,
            owners: TaskOwners::new(),
        }
    }

    /// How many agents have a worktree.
    pub fn len(&self) -> (r: usize)
        requires
            self.wf(),
        ensures
            r == self@.agents.len(),
    {
        self.trees.len()
    }

    /// The agents that have a worktree, in the order in which they land.
    pub fn agents(&self) -> (r: Vec<String>)
        ensures
            texts(r@) == self@.agents,
    {
        copy_texts(&self.agents)
    }

    /// The worktree of an agent, by its place.
    pub fn tree(&self, i: usize) -> (r: &W)
        requires
            self.wf(),
            i < self@.agents.len(),
        ensures
            r.calls() == self@.calls[i as int],
    {
        &self.trees[i]
    }

    /// Bind a task to its agent; the first assignment wins.
    pub fn assign_task(&mut self, task_id: &TaskId, agent: &str)
        requires
            old(self).wf(),
        ensures
            final(self).wf(),
            final(self)@ == old(self)@.assigned(task_id@, agent@),
    {
        self.owners.assign(task_id.0.as_str(), agent);
    }

    /// Where the worktree of a task's agent stands, or the number of worktrees.
    fn find(&self, task_id: &TaskId) -> (r: usize)
        requires
            self.wf(),
        ensures
            r == self@.home(task_id@),
            r <= self@.agents.len(),
    {
        let agent = self.owners.owner(task_id.0.as_str(), self.default_agent.as_str());
        let ghost all = self@.agents;
        proof {
            place_bounds(all, agent@);
        }
        let mut i: usize = 0;
        while i < self.agents.len()
            invariant
                0 <= i <= self.agents.len(),
                all == texts(self.agents@),
                all == self@.agents,
                agent@ == self@.owner(task_id@),
                place(all, agent@) <= all.len(),
                place(all, agent@) < all.len() ==> all[place(all, agent@) as int] == agent@,
                forall|j: int| 0 <= j < place(all, agent@) ==> all[j] != agent@,
                i <= place(all, agent@),
            decreases self.agents.len() - i,
        {
            assert(all[i as int] == self.agents@[i as int]@);
            if self.agents[i] == agent {
                return i;
            }
            i = i + 1;
        }
        i
    }

    /// The session name of the worktree that a task's agent still needs, if it
    /// needs one.
    pub fn missing(&self, task_id: &TaskId) -> (r: Option<String>)
        requires
            self.wf(),
        ensures
            match r {
                None => self@.housed(task_id@),
                Some(name) => {
                    &&& !self@.housed(task_id@)
                    &&& name@ == self@.session + "-"@ + self@.owner(task_id@)
                },
            },
    {
        if self.find(task_id) < self.agents.len() {
            return None;
        }
        let agent = self.owners.owner(task_id.0.as_str(), self.default_agent.as_str());
        Some(agent_session(self.session.as_str(), agent.as_str()))
    }

    /// Give a task's agent its worktree.
    pub fn add(&mut self, task_id: &TaskId, tree: W)
        requires
            old(self).wf(),
            !old(self)@.housed(task_id@),
        ensures
            final(self).wf(),
            final(self)@ == old(self)@.grown(task_id@, tree.calls()),
            final(self)@.housed(task_id@),
    {
        let ghost before = self@;
        let ghost made = tree.calls();
        let agent = self.owners.owner(task_id.0.as_str(), self.default_agent.as_str());
        self.agents.push(agent);
        self.trees.push(tree);
        proof {
            growing_keeps_validity(before, task_id@, made);
            assert(self@ =~= before.grown(task_id@, made));
        }
    }

    pub fn apply_write(&mut self, task_id: &TaskId, path: &str, contents: &[u8]) -> (r: Result<
        (),
        WorkspaceError,
    >)
        requires
            old(self).wf(),
            old(self)@.housed(task_id@),
        ensures
            final(self).wf(),
            final(self)@ == old(self)@.called(
                task_id@,
                WorkspaceCall::Write {
                    task: task_id@,
                    path: path@,
                    contents: contents@,
                    result: r,
                },
            ),
    {
        let i = self.find(task_id);
        self.trees[i].apply_write(task_id, path, contents)
    }

    pub fn run_command(&mut self, task_id: &TaskId, command: &str, cwd: &str) -> (r: Result<
        CommandOutput,
        WorkspaceError,
    >)
        requires
            old(self).wf(),
            old(self)@.housed(task_id@),
        ensures
            final(self).wf(),
            final(self)@ == old(self)@.called(
                task_id@,
                WorkspaceCall::Command { task: task_id@, command: command@, cwd: cwd@, result: r },
            ),
    {
        let i = self.find(task_id);
        self.trees[i].run_command(task_id, command, cwd)
    }

    pub fn freeze_task_diff(&mut self, task_id: &TaskId) -> (r: Result<FrozenDiff, WorkspaceError>)
        requires
            old(self).wf(),
            old(self)@.housed(task_id@),
        ensures
            final(self).wf(),
            final(self)@ == old(self)@.called(
                task_id@,
                WorkspaceCall::Freeze { task: task_id@, result: r },
            ),
    {
        let i = self.find(task_id);
        self.trees[i].freeze_task_diff(task_id)
    }

    pub fn accept_task(&mut self, task_id: &TaskId) -> (r: Result<(), WorkspaceError>)
        requires
            old(self).wf(),
            old(self)@.housed(task_id@),
        ensures
            final(self).wf(),
            final(self)@ == old(self)@.called(
                task_id@,
                WorkspaceCall::Accept { task: task_id@, result: r },
            ),
    {
        let i = self.find(task_id);
        self.trees[i].accept_task(task_id)
    }

    pub fn discard_task(&mut self, task_id: &TaskId) -> (r: Result<(), WorkspaceError>)
        requires
            old(self).wf(),
            old(self)@.housed(task_id@),
        ensures
            final(self).wf(),
            final(self)@ == old(self)@.called(
                task_id@,
                WorkspaceCall::Discard { task: task_id@, result: r },
            ),
    {
        let i = self.find(task_id);
        self.trees[i].discard_task(task_id)
    }

    pub fn read_file(&mut self, task_id: &TaskId, path: &str) -> (r: Result<
        Option<Vec<u8>>,
        WorkspaceError,
    >)
        requires
            old(self).wf(),
            old(self)@.housed(task_id@),
        ensures
            final(self).wf(),
            final(self)@ == old(self)@.called(
                task_id@,
                WorkspaceCall::Read { task: task_id@, path: path@, result: r },
            ),
    {
        let i = self.find(task_id);
        self.trees[i].read_file(task_id, path)
    }

    /// Land one agent's approved work, unless there is none: `count` is how many
    /// commits its branch has beyond the base. Agents land in turn, up to the
    /// first that fails.
    pub fn land(&mut self, i: usize, count: &str, message: &str) -> (r: Result<(), WorkspaceError>)
        requires
            old(self).wf(),
            i < old(self)@.agents.len(),
        ensures
            final(self).wf(),
            if trimmed(count@) == "0"@ {
                r is Ok && final(self)@ == old(self)@
            } else {
                final(self)@ == old(self)@.called_at(
                    i as int,
                    WorkspaceCall::Merge { message: message@, result: r },
                )
            },
    {
        if nothing_to_land(count) {
            return Ok(());
        }
        self.trees[i].merge_session(message)
    }
}

// ---------------------------------------------------------------------------
// What holds of a fleet as a whole
// ---------------------------------------------------------------------------
/// Work on a task reaches the worktree of its agent and no other: the worktree
/// of every other agent was asked nothing.
pub proof fn work_stays_with_its_agent(
    f: FleetModel,
    task: Seq<char>,
    call: WorkspaceCall,
    other: Seq<char>,
)
    requires
        f.valid(),
        f.housed(task),
        other != f.owner(task),
        place(f.agents, other) < f.agents.len(),
    ensures
        f.called(task, call).calls[place(f.agents, other) as int] == f.calls[place(
            f.agents,
            other,
        ) as int],
        f.called(task, call).calls[f.home(task) as int] == f.calls[f.home(task) as int].push(call),
{
    place_bounds(f.agents, other);
    place_bounds(f.agents, f.owner(task));
}

/// The first assignment of a task stands, whatever is assigned later.
pub proof fn first_assignment_stands(
    f: FleetModel,
    task: Seq<char>,
    agent: Seq<char>,
    later: Seq<char>,
    claimant: Seq<char>,
)
    requires
        !f.owners.contains_key(task),
    ensures
        f.assigned(task, agent).owner(task) == agent,
        f.assigned(task, agent).assigned(later, claimant).owner(task) == agent,
{
}

/// A worktree stays its agent's: neither work nor another agent's worktree moves
/// a task that has one.
pub proof fn tasks_keep_their_worktree(
    f: FleetModel,
    task: Seq<char>,
    other: Seq<char>,
    call: WorkspaceCall,
    calls: Seq<WorkspaceCall>,
)
    requires
        f.valid(),
        f.housed(task),
    ensures
        f.called(other, call).home(task) == f.home(task),
        f.grown(other, calls).home(task) == f.home(task),
{
    let agent = f.owner(task);
    let grown = f.agents.push(f.owner(other));
    place_bounds(f.agents, agent);
    place_bounds(grown, agent);
    let p = place(f.agents, agent) as int;
    assert(grown[p] == agent);
}

/// A new worktree keeps the fleet valid and houses the task it was made for.
pub(crate) proof fn growing_keeps_validity(f: FleetModel, task: Seq<char>, made: Seq<WorkspaceCall>)
    requires
        f.valid(),
        !f.housed(task),
    ensures
        f.grown(task, made).valid(),
        f.grown(task, made).housed(task),
        f.grown(task, made).home(task) == f.agents.len(),
{
    let agent = f.owner(task);
    let grown = f.grown(task, made).agents;
    place_bounds(f.agents, agent);
    place_bounds(grown, agent);
    place_bounds(f.agents, f.default_agent);
    place_bounds(grown, f.default_agent);
    assert(grown[place(f.agents, f.default_agent) as int] == f.default_agent);
    assert(grown[f.agents.len() as int] == agent);
    assert forall|i: int| 0 <= i < f.agents.len() implies f.agents[i] != agent by {
        assert(grown[i] == f.agents[i]);
    }
    assert(place(grown, agent) == f.agents.len()) by {
        if place(grown, agent) < f.agents.len() {
            assert(grown[place(grown, agent) as int] == f.agents[place(grown, agent) as int]);
        }
    }
}

/// A call keeps the fleet valid, and every task that has an agent keeps it.
proof fn taking_keeps_owners(f: FleetModel, call: WorkspaceCall, after: FleetModel)
    requires
        f.valid(),
        f.takes(call, after),
    ensures
        after.valid(),
        after.default_agent == f.default_agent,
        forall|task: Seq<char>| #[trigger]
            f.owners.contains_key(task) ==> after.owners.contains_key(task) && after.owners[task]
                == f.owners[task],
        forall|task: Seq<char>| #[trigger]
            after.owners.contains_key(task) ==> f.owners.contains_key(task) || call.hands_over(
                task,
            ),
        f.agents.is_prefix_of(after.agents),
{
    match call.about() {
        Some(task) => {
            if !f.housed(task) {
                growing_keeps_validity(f, task, seq![]);
            }
        },
        None => {},
    }
}

/// A call about a task that has its agent leaves the worktrees apart, and so does
/// every other call.
proof fn taking_keeps_apart(f: FleetModel, call: WorkspaceCall, after: FleetModel)
    requires
        f.valid(),
        f.apart(),
        f.takes(call, after),
        call.about() matches Some(task) ==> f.owners.contains_key(task),
    ensures
        after.apart(),
{
    taking_keeps_owners(f, call, after);
    match call.about() {
        Some(task) => {
            let g = if f.housed(task) {
                f
            } else {
                f.grown(task, seq![])
            };
            if !f.housed(task) {
                growing_keeps_validity(f, task, seq![]);
            }
            place_bounds(g.agents, g.owner(task));
            assert forall|i: int, c: int|
                0 <= i < after.calls.len() && 0 <= c < after.calls[i].len() implies ((
            #[trigger] after.calls[i][c]).about() matches Some(t) ==> after.owners.contains_key(t)
                && after.owners[t] == after.agents[i]) by {
                if i < f.calls.len() && c < f.calls[i].len() {
                    assert(after.calls[i][c] == f.calls[i][c]);
                    assert(after.agents[i] == f.agents[i]);
                }
            }
        },
        None => {
            assert forall|i: int, c: int|
                0 <= i < after.calls.len() && 0 <= c < after.calls[i].len() implies ((
            #[trigger] after.calls[i][c]).about() matches Some(t) ==> after.owners.contains_key(t)
                && after.owners[t] == after.agents[i]) by {
                if c < f.calls[i].len() {
                    assert(after.calls[i][c] == f.calls[i][c]) by {
                        if after.calls[i] != f.calls[i] {
                            assert(after.calls[i].drop_last()[c] == after.calls[i][c]);
                        }
                    }
                }
            }
        },
    }
}

/// What holds of every state of a run: the fleet is valid, and the tasks with an
/// agent are those that were handed to one.
pub(crate) proof fn run_keeps_owners(states: Seq<FleetModel>, calls: Seq<WorkspaceCall>, k: int)
    requires
        is_run(states, calls),
        states[0].valid(),
        0 <= k <= calls.len(),
    ensures
        states[k].valid(),
        states[k].default_agent == states[0].default_agent,
        forall|task: Seq<char>| #[trigger]
            states[k].owners.contains_key(task) <==> handed(states[0], calls.take(k), task),
    decreases k,
{
    if k > 0 {
        run_keeps_owners(states, calls, k - 1);
        assert(states[k - 1].takes(calls[k - 1], states[k - 1 + 1]));
        taking_keeps_owners(states[k - 1], calls[k - 1], states[k]);
        let before = calls.take(k - 1);
        let now = calls.take(k);
        assert forall|task: Seq<char>| #[trigger]
            states[k].owners.contains_key(task) <==> handed(states[0], now, task) by {
            if handed(states[0], now, task) && !states[0].owners.contains_key(task) {
                let m = choose|m: int| 0 <= m < now.len() && (#[trigger] now[m]).hands_over(task);
                if m < k - 1 {
                    assert(before[m] == now[m]);
                    assert(handed(states[0], before, task));
                    assert(states[k - 1].owners.contains_key(task));
                } else {
                    assert(calls[k - 1].hands_over(task));
                }
            }
            if states[k].owners.contains_key(task) {
                if states[k - 1].owners.contains_key(task) {
                    if !states[0].owners.contains_key(task) {
                        let m = choose|m: int|
                            0 <= m < before.len() && (#[trigger] before[m]).hands_over(task);
                        assert(now[m].hands_over(task));
                    }
                } else {
                    assert(now[k - 1].hands_over(task));
                }
            }
        }
    }
}

/// Work on a task that was handed over just before it.
pub proof fn handing_over_comes_first(
    f: FleetModel,
    calls: Seq<WorkspaceCall>,
    task: Seq<char>,
    agent: Seq<char>,
    call: WorkspaceCall,
)
    requires
        handed_first(f, calls),
        call.about() == Some(task),
    ensures
        handed_first(f, calls.push(WorkspaceCall::Assign { task, agent }).push(call)),
{
    let bound = calls.push(WorkspaceCall::Assign { task, agent });
    let more = bound.push(call);
    assert forall|k: int| 0 <= k < more.len() implies ((
    #[trigger] more[k]).about() matches Some(t) ==> handed(f, more.take(k), t)) by {
        if k < calls.len() {
            assert(more[k] == calls[k]);
            assert(more.take(k) =~= calls.take(k));
        } else if k == calls.len() + 1 {
            assert(more.take(k) =~= bound);
            assert(bound[calls.len() as int].hands_over(task));
        }
    }
}

/// A task first handed to an agent keeps that agent, whatever is asked of the
/// fleet afterwards.
pub proof fn handed_task_keeps_its_agent(
    states: Seq<FleetModel>,
    calls: Seq<WorkspaceCall>,
    i: int,
    task: Seq<char>,
    agent: Seq<char>,
    k: int,
)
    requires
        is_run(states, calls),
        states[0].valid(),
        first_handed(states[0], calls, i, task, agent),
        i < k <= calls.len(),
    ensures
        states[k].owners.contains_key(task),
        states[k].owner(task) == agent,
    decreases k,
{
    if k == i + 1 {
        run_keeps_owners(states, calls, i);
        assert(!states[i].owners.contains_key(task));
        assert(states[i].takes(calls[i], states[i + 1]));
    } else {
        handed_task_keeps_its_agent(states, calls, i, task, agent, k - 1);
        run_keeps_owners(states, calls, k - 1);
        assert(states[k - 1].takes(calls[k - 1], states[k - 1 + 1]));
        taking_keeps_owners(states[k - 1], calls[k - 1], states[k]);
    }
}

/// Once a task was handed to an agent, every call about it (a write, a freeze)
/// reaches that agent's worktree, unless that one cannot be made, and reaches no
/// other.
pub proof fn handed_work_reaches_its_agent_alone(
    states: Seq<FleetModel>,
    calls: Seq<WorkspaceCall>,
    i: int,
    task: Seq<char>,
    agent: Seq<char>,
    k: int,
    other: Seq<char>,
)
    requires
        is_run(states, calls),
        states[0].valid(),
        first_handed(states[0], calls, i, task, agent),
        i < k < calls.len(),
        calls[k].about() == Some(task),
        other != agent,
        place(states[k].agents, other) < states[k].agents.len(),
    ensures
        place(states[k + 1].agents, other) == place(states[k].agents, other),
        states[k + 1].calls[place(states[k].agents, other) as int] == states[k].calls[place(
            states[k].agents,
            other,
        ) as int],
        ({
            let at = place(states[k + 1].agents, agent) as int;
            ||| at < states[k + 1].agents.len() && states[k + 1].calls[at].len() > 0
                && states[k + 1].calls[at].last() == calls[k]
            ||| calls[k].failed() && states[k + 1] == states[k]
        }),
{
    let f = states[k];
    let after = states[k + 1];
    handed_task_keeps_its_agent(states, calls, i, task, agent, k);
    run_keeps_owners(states, calls, k);
    assert(f.takes(calls[k], after));
    place_bounds(f.agents, other);
    place_bounds(after.agents, other);
    place_bounds(f.agents, agent);
    if !f.housed(task) {
        growing_keeps_validity(f, task, seq![]);
        let p = place(f.agents, other) as int;
        assert(f.agents.push(agent)[p] == other);
        assert forall|q: int| 0 <= q < p implies f.agents.push(agent)[q] != other by {
            assert(f.agents.push(agent)[q] == f.agents[q]);
        }
    }
}

/// Where every task is handed to an agent before work on it, no worktree is ever
/// asked about another agent's task: one agent's uncommitted writes can never
/// leak into another agent's gated diff.
pub proof fn worktrees_stay_apart(
    states: Seq<FleetModel>,
    calls: Seq<WorkspaceCall>,
    k: int,
)
    requires
        is_run(states, calls),
        states[0].valid(),
        states[0].apart(),
        handed_first(states[0], calls),
        0 <= k <= calls.len(),
    ensures
        states[k].apart(),
    decreases k,
{
    if k > 0 {
        worktrees_stay_apart(states, calls, k - 1);
        run_keeps_owners(states, calls, k - 1);
        assert(states[k - 1].takes(calls[k - 1], states[k - 1 + 1]));
        match calls[k - 1].about() {
            Some(task) => {
                assert(handed(states[0], calls.take(k - 1), task));
                assert(states[k - 1].owners.contains_key(task));
            },
            None => {},
        }
        taking_keeps_apart(states[k - 1], calls[k - 1], states[k]);
    }
}

/// A call about a task reaches one worktree, that of the task's agent, and is the
/// last that was asked of it; nothing else of the fleet changes. `at` is where
/// that worktree stands.
pub proof fn calls_reach_one_worktree(
    f: FleetModel,
    task: Seq<char>,
    call: WorkspaceCall,
    at: int,
)
    requires
        f.valid(),
        0 <= at < f.agents.len(),
        f.owners.contains_key(task) ==> f.agents[at] == f.owners[task],
        !f.owners.contains_key(task) ==> f.agents[at] == f.default_agent,
    ensures
        f.housed(task),
        ({
            let after = f.called(task, call);
            &&& after.calls.len() == f.calls.len()
            &&& after.calls[at].len() == f.calls[at].len() + 1
            &&& after.calls[at].last() == call
            &&& after.calls[at].drop_last() == f.calls[at]
            &&& forall|i: int|
                0 <= i < f.calls.len() && i != at ==> #[trigger] after.calls[i] == f.calls[i]
            &&& after == (FleetModel { calls: after.calls, ..f })
        }),
{
    let agent = f.owner(task);
    place_bounds(f.agents, agent);
    let k = place(f.agents, agent) as int;
    assert(k == at) by {
        if k < at {
            assert(f.agents[k] == f.agents[at]);
        }
        if at < k {
            assert(f.agents[at] != agent);
        }
    }
    assert(f.called(task, call).calls[at].drop_last() =~= f.calls[at]);
}

/// A new worktree is its task's agent's, and comes last; a task without an agent
/// of its own is the first agent's.
pub proof fn new_worktrees_come_last(
    f: FleetModel,
    task: Seq<char>,
    agent: Seq<char>,
    calls: Seq<WorkspaceCall>,
)
    ensures
        f.owners.contains_key(task) ==> f.owner(task) == f.owners[task],
        !f.owners.contains_key(task) ==> f.owner(task) == f.default_agent,
        ({
            let after = f.grown(task, calls);
            &&& after.agents.len() == f.agents.len() + 1
            &&& after.agents.last() == f.owner(task)
            &&& after.agents.drop_last() == f.agents
            &&& after.calls.len() == f.calls.len() + 1
            &&& after.calls.last() == calls
            &&& after.calls.drop_last() == f.calls
            &&& after == (FleetModel { agents: after.agents, calls: after.calls, ..f })
        }),
        ({
            let after = f.assigned(task, agent);
            &&& after.owners.contains_key(task)
            &&& forall|t: Seq<char>|
                t != task ==> (#[trigger] after.owners.contains_key(t) == f.owners.contains_key(t))
                    && after.owners[t] == f.owners[t]
            &&& after == (FleetModel { owners: after.owners, ..f })
        }),
{
    assert(f.grown(task, calls).agents.drop_last() =~= f.agents);
    assert(f.grown(task, calls).calls.drop_last() =~= f.calls);
}

/// Landing asks every worktree to merge with the session's message or nothing at
/// all, and an audit asks none; neither changes whose anything is.
pub proof fn landing_asks_only_to_merge(
    f: FleetModel,
    call: WorkspaceCall,
    after: FleetModel,
    i: int,
)
    requires
        f.takes(call, after),
        call is Merge || call is Audit,
        0 <= i < f.calls.len(),
    ensures
        call is Audit ==> after == f,
        after == (FleetModel { calls: after.calls, ..f }),
        after.calls.len() == f.calls.len(),
        after.calls[i] == f.calls[i] || (after.calls[i].len() == f.calls[i].len() + 1
            && after.calls[i].drop_last() == f.calls[i] && (
        after.calls[i].last() matches WorkspaceCall::Merge { message, .. } && message
            == call->Merge_message)),
{
}

/// Work on a task of an agent that has a worktree reaches that worktree; an agent
/// without one gets it first, unless the work fails.
pub proof fn work_reaches_a_worktree(
    f: FleetModel,
    task: Seq<char>,
    call: WorkspaceCall,
    after: FleetModel,
)
    requires
        f.takes(call, after),
        call.about() == Some(task),
    ensures
        f.housed(task) ==> after == f.called(task, call),
        !f.housed(task) && !call.failed() ==> after == f.grown(task, seq![]).called(task, call),
        !f.housed(task) && call.failed() ==> after == f || after == f.grown(task, seq![]).called(
            task,
            call,
        ),
        call is Write || call is Command || call is Freeze || call is Accept || call is Discard
            || call is Read,
{
}

} // verus!

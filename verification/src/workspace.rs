//! The worktree port, and a workspace held in memory.
use vstd::prelude::*;

use crate::audit::chain::AuditEntry;
use crate::canonical::{sha256, sha256_digest};
use crate::error::WorkspaceError;
use crate::ids::TaskId;
use crate::table::TextMap;
use crate::text::{chars_of, texts};

verus! {

/// A frozen snapshot of a task's pending changes, ready to hash and review.
#[derive(Clone, PartialEq, Eq, Debug)]
pub struct FrozenDiff {
    /// Canonical byte representation of the diff (what gets hashed).
    /// Encoding: for each file, path bytes, a NUL, contents, then LF.
    pub bytes: Vec<u8>,
    pub files: Vec<String>,
    pub loc: u32,
}

#[derive(Clone, PartialEq, Eq, Debug)]
pub struct CommandOutput {
    pub stdout: String,
    pub exit_code: i32,
}

/// One call on a workspace, with what it was given and what came back.
#[allow(inconsistent_fields)]
pub enum WorkspaceCall {
    Assign { task: Seq<char>, agent: Seq<char> },
    Write {
        task: Seq<char>,
        path: Seq<char>,
        contents: Seq<u8>,
        result: Result<(), WorkspaceError>,
    },
    Command {
        task: Seq<char>,
        command: Seq<char>,
        cwd: Seq<char>,
        result: Result<CommandOutput, WorkspaceError>,
    },
    Freeze { task: Seq<char>, result: Result<FrozenDiff, WorkspaceError> },
    Accept { task: Seq<char>, result: Result<(), WorkspaceError> },
    Discard { task: Seq<char>, result: Result<(), WorkspaceError> },
    Merge { message: Seq<char>, result: Result<(), WorkspaceError> },
    Read { task: Seq<char>, path: Seq<char>, result: Result<Option<Vec<u8>>, WorkspaceError> },
    Audit {
        dir: Seq<char>,
        name: Seq<char>,
        records: Seq<AuditEntry>,
        result: Result<String, String>,
    },
}

impl WorkspaceCall {
    /// The task whose worktree the call goes to, if it goes to one.
    pub open spec fn about(self) -> Option<Seq<char>> {
        match self {
            WorkspaceCall::Write { task, .. } => Some(task),
            WorkspaceCall::Command { task, .. } => Some(task),
            WorkspaceCall::Freeze { task, .. } => Some(task),
            WorkspaceCall::Accept { task, .. } => Some(task),
            WorkspaceCall::Discard { task, .. } => Some(task),
            WorkspaceCall::Read { task, .. } => Some(task),
            WorkspaceCall::Assign { .. }
            | WorkspaceCall::Merge { .. }
            | WorkspaceCall::Audit { .. } => None,
        }
    }

    /// The call hands the task to an agent.
    pub open spec fn hands_over(self, task: Seq<char>) -> bool {
        self matches WorkspaceCall::Assign { task: t, .. } && t == task
    }

    /// The call came back with a failure.
    pub open spec fn failed(self) -> bool {
        match self {
            WorkspaceCall::Assign { .. } => false,
            WorkspaceCall::Write { result, .. } => result is Err,
            WorkspaceCall::Command { result, .. } => result is Err,
            WorkspaceCall::Freeze { result, .. } => result is Err,
            WorkspaceCall::Accept { result, .. } => result is Err,
            WorkspaceCall::Discard { result, .. } => result is Err,
            WorkspaceCall::Merge { result, .. } => result is Err,
            WorkspaceCall::Read { result, .. } => result is Err,
            WorkspaceCall::Audit { result, .. } => result is Err,
        }
    }
}

/// The worktree side-effect port. A gate host owns a workspace and is its
/// only caller. What an implementation does is its own; what it was asked to
/// do, and what it answered, is the history of its calls.
pub trait Workspace {
    /// Every call made so far, in order. An implementation that is not verified
    /// need not name it: that it answers each call is then taken on its word.
    closed spec fn calls(&self) -> Seq<WorkspaceCall> {
        arbitrary()
    }

    /// Where session audit chains are kept, if anywhere.
    closed spec fn audit_home(&self) -> Option<Seq<char>> {
        arbitrary()
    }

    /// Bind a task to the agent that works on it; the first binding stands.
    /// Called before the task's first write.
    fn assign_task(&mut self, task_id: &TaskId, agent: &str)
        ensures
            final(self).calls() == old(self).calls().push(
                WorkspaceCall::Assign { task: task_id@, agent: agent@ },
            ),
            final(self).audit_home() == old(self).audit_home(),
    ;

    fn apply_write(&mut self, task_id: &TaskId, path: &str, contents: &[u8]) -> (r: Result<
        (),
        WorkspaceError,
    >)
        ensures
            final(self).calls() == old(self).calls().push(
                WorkspaceCall::Write {
                    task: task_id@,
                    path: path@,
                    contents: contents@,
                    result: r,
                },
            ),
            final(self).audit_home() == old(self).audit_home(),
    ;

    fn run_command(&mut self, task_id: &TaskId, command: &str, cwd: &str) -> (r: Result<
        CommandOutput,
        WorkspaceError,
    >)
        ensures
            final(self).calls() == old(self).calls().push(
                WorkspaceCall::Command {
                    task: task_id@,
                    command: command@,
                    cwd: cwd@,
                    result: r,
                },
            ),
            final(self).audit_home() == old(self).audit_home(),
    ;

    /// Freeze the task's diff: the bytes that operators review and sign against.
    fn freeze_task_diff(&mut self, task_id: &TaskId) -> (r: Result<FrozenDiff, WorkspaceError>)
        ensures
            final(self).calls() == old(self).calls().push(
                WorkspaceCall::Freeze { task: task_id@, result: r },
            ),
            final(self).audit_home() == old(self).audit_home(),
    ;

    fn accept_task(&mut self, task_id: &TaskId) -> (r: Result<(), WorkspaceError>)
        ensures
            final(self).calls() == old(self).calls().push(
                WorkspaceCall::Accept { task: task_id@, result: r },
            ),
            final(self).audit_home() == old(self).audit_home(),
    ;

    fn discard_task(&mut self, task_id: &TaskId) -> (r: Result<(), WorkspaceError>)
        ensures
            final(self).calls() == old(self).calls().push(
                WorkspaceCall::Discard { task: task_id@, result: r },
            ),
            final(self).audit_home() == old(self).audit_home(),
    ;

    /// Session-end effect: land the approved session as one reviewed commit
    /// (real implementations squash-merge the session branch; test doubles
    /// record it). Reachable only at session close.
    fn merge_session(&mut self, message: &str) -> (r: Result<(), WorkspaceError>)
        ensures
            final(self).calls() == old(self).calls().push(
                WorkspaceCall::Merge { message: message@, result: r },
            ),
            final(self).audit_home() == old(self).audit_home(),
    ;

    /// Read the current contents of a file in the task's worktree.
    /// Returns `Ok(None)` when the path does not exist (new file that the agent
    /// has not yet written, or a path outside the task's writes).
    fn read_file(&mut self, task_id: &TaskId, path: &str) -> (r: Result<
        Option<Vec<u8>>,
        WorkspaceError,
    >)
        ensures
            final(self).calls() == old(self).calls().push(
                WorkspaceCall::Read { task: task_id@, path: path@, result: r },
            ),
            final(self).audit_home() == old(self).audit_home(),
    ;

    /// Where session audit chains should be persisted, if this workspace has a
    /// durable home for them (`<repo>/.kontur` for git workspaces). `None`
    /// means the chain is not written to disk.
    fn audit_dir(&self) -> (r: Option<String>)
        ensures
            r is Some <==> self.audit_home() is Some,
            r matches Some(d) ==> Some(d@) == self.audit_home(),
    ;

    /// Write an audit chain under the given name into the audit directory.
    /// Returns the path of the file, or the words of the failure.
    fn write_audit(&mut self, dir: &str, name: &str, records: &[AuditEntry]) -> (r: Result<
        String,
        String,
    >)
        ensures
            final(self).calls() == old(self).calls().push(
                WorkspaceCall::Audit {
                    dir: dir@,
                    name: name@,
                    records: records@,
                    result: r,
                },
            ),
            final(self).audit_home() == old(self).audit_home(),
    ;
}

/// The single source of a diff's hash: used at open, sign, and record time so
/// the verdict signatures bind to exactly this diff.
pub fn diff_hash(frozen: &FrozenDiff) -> (r: crate::ids::Hash)
    ensures
        r.0@ == sha256_digest(frozen.bytes@),
{
    sha256(frozen.bytes.as_slice())
}

// ---------------------------------------------------------------------------
// The canonical encoding of a set of files
// ---------------------------------------------------------------------------
/// The bytes of one file in a frozen diff: its path, a NUL, its contents, a
/// line feed.
pub open spec fn file_bytes(path: Seq<char>, contents: Seq<u8>) -> Seq<u8> {
    vstd::utf8::encode_utf8(path) + seq![0u8] + contents + seq![10u8]
}

/// The paths of a sequence of files.
pub open spec fn paths_of(files: Seq<(Seq<char>, Seq<u8>)>) -> Seq<Seq<char>> {
    files.map_values(|f: (Seq<char>, Seq<u8>)| f.0)
}

/// The bytes of a sequence of files.
pub open spec fn files_bytes(files: Seq<(Seq<char>, Seq<u8>)>) -> Seq<u8>
    decreases files.len(),
{
    if files.len() == 0 {
        seq![]
    } else {
        files_bytes(files.drop_last()) + file_bytes(files.last().0, files.last().1)
    }
}

/// How many line feeds a byte string holds.
pub open spec fn line_feeds(bytes: Seq<u8>) -> nat
    decreases bytes.len(),
{
    if bytes.len() == 0 {
        0
    } else {
        line_feeds(bytes.drop_last()) + (if bytes.last() == 10u8 {
            1nat
        } else {
            0nat
        })
    }
}

/// How many line feeds a sequence of files holds.
pub open spec fn files_line_feeds(files: Seq<(Seq<char>, Seq<u8>)>) -> nat
    decreases files.len(),
{
    if files.len() == 0 {
        0
    } else {
        files_line_feeds(files.drop_last()) + line_feeds(files.last().1)
    }
}

/// The frozen diff of a sequence of files. The line count saturates.
pub open spec fn freezes(files: Seq<(Seq<char>, Seq<u8>)>, frozen: FrozenDiff) -> bool {
    &&& frozen.bytes@ == files_bytes(files)
    &&& texts(frozen.files@) == paths_of(files)
    &&& frozen.loc == if files_line_feeds(files) <= u32::MAX {
        files_line_feeds(files)
    } else {
        u32::MAX as nat
    }
}

/// One written file.
#[derive(PartialEq, Eq, Debug)]
pub struct FileWrite {
    pub path: String,
    pub contents: Vec<u8>,
}

/// The path and the contents of each written file.
pub open spec fn file_views(writes: Seq<FileWrite>) -> Seq<(Seq<char>, Seq<u8>)> {
    writes.map_values(|w: FileWrite| (w.path@, w.contents@))
}

fn count_line_feeds(bytes: &Vec<u8>) -> (r: u64)
    ensures
        r == line_feeds(bytes@),
{
    let mut n: u64 = 0;
    let mut i: usize = 0;
    while i < bytes.len()
        invariant
            0 <= i <= bytes.len(),
            n <= i,
            n == line_feeds(bytes@.take(i as int)),
        decreases bytes.len() - i,
    {
        assert(bytes@.take(i as int + 1).drop_last() =~= bytes@.take(i as int));
        if bytes[i] == 10u8 {
            n = n + 1;
        }
        i = i + 1;
    }
    assert(bytes@.take(bytes@.len() as int) =~= bytes@);
    n
}

/// Freeze files in the given order.
pub fn freeze_files(files: &Vec<FileWrite>) -> (r: FrozenDiff)
    ensures
        freezes(file_views(files@), r),
{
    let ghost all = file_views(files@);
    let mut bytes: Vec<u8> = Vec::new();
    let mut names: Vec<String> = Vec::new();
    let mut loc: u32 = 0;
    let mut i: usize = 0;
    while i < files.len()
        invariant
            0 <= i <= files.len(),
            all == file_views(files@),
            bytes@ == files_bytes(all.take(i as int)),
            texts(names@) == paths_of(all.take(i as int)),
            loc == if files_line_feeds(all.take(i as int)) <= u32::MAX {
                files_line_feeds(all.take(i as int))
            } else {
                u32::MAX as nat
            },
        decreases files.len() - i,
    {
        let f = &files[i];
        let ghost step = all.take(i as int + 1);
        assert(step.drop_last() =~= all.take(i as int));
        bytes.extend_from_slice(f.path.as_str().as_bytes());
        bytes.push(0u8);
        bytes.extend_from_slice(f.contents.as_slice());
        bytes.push(10u8);
        names.push(f.path.clone());
        assert(paths_of(step) =~= paths_of(all.take(i as int)).push(f.path@));
        let n: u64 = count_line_feeds(&f.contents);
        loc = if n > (u32::MAX - loc) as u64 {
            u32::MAX
        } else {
            loc + n as u32
        };
        i = i + 1;
    }
    assert(all.take(files@.len() as int) =~= all);
    FrozenDiff { bytes, files: names, loc }
}

// ---------------------------------------------------------------------------
// The workspace in memory
// ---------------------------------------------------------------------------
/// Where the first file with this path stands, or the number of files.
pub open spec fn first_with(files: Seq<(Seq<char>, Seq<u8>)>, path: Seq<char>) -> nat
    decreases files.len(),
{
    if files.len() == 0 || files[0].0 == path {
        0
    } else {
        1 + first_with(files.skip(1), path)
    }
}

/// The files that a series of writes leaves: each path once, in the order it
/// was first written, with the contents of its last write.
pub open spec fn latest_files(writes: Seq<(Seq<char>, Seq<u8>)>) -> Seq<(Seq<char>, Seq<u8>)>
    decreases writes.len(),
{
    if writes.len() == 0 {
        seq![]
    } else {
        let files = latest_files(writes.drop_last());
        let at = first_with(files, writes.last().0);
        if at < files.len() {
            files.update(at as int, writes.last())
        } else {
            files.push(writes.last())
        }
    }
}

/// The contents of the last write to a path.
pub open spec fn last_contents(
    writes: Seq<(Seq<char>, Seq<u8>)>,
    path: Seq<char>,
) -> Option<Seq<u8>>
    decreases writes.len(),
{
    if writes.len() == 0 {
        None
    } else if writes.last().0 == path {
        Some(writes.last().1)
    } else {
        last_contents(writes.drop_last(), path)
    }
}

proof fn first_with_bounds(files: Seq<(Seq<char>, Seq<u8>)>, path: Seq<char>)
    ensures
        first_with(files, path) <= files.len(),
        first_with(files, path) < files.len() ==> files[first_with(files, path) as int].0 == path,
        forall|j: int|
            0 <= j < first_with(files, path) ==> (#[trigger] files[j]).0 != path,
    decreases files.len(),
{
    if files.len() == 0 || files[0].0 == path {
    } else {
        first_with_bounds(files.skip(1), path);
        assert forall|j: int| 0 <= j < first_with(files, path) implies (
        #[trigger] files[j]).0 != path by {
            if j > 0 {
                assert(files.skip(1)[j - 1] == files[j]);
            }
        }
    }
}

/// A frozen file is what a read gives back: the contents of the last write to
/// its path; and every path that was written is frozen once.
pub proof fn frozen_is_what_was_last_written(writes: Seq<(Seq<char>, Seq<u8>)>)
    ensures
        forall|i: int|
            0 <= i < latest_files(writes).len() ==> last_contents(
                writes,
                (#[trigger] latest_files(writes)[i]).0,
            ) == Some(latest_files(writes)[i].1),
        forall|i: int, j: int|
            0 <= i < j < latest_files(writes).len() ==> (#[trigger] latest_files(writes)[i]).0 != (
            #[trigger] latest_files(writes)[j]).0,
        forall|path: Seq<char>|
            #[trigger] last_contents(writes, path) is Some ==> first_with(
                latest_files(writes),
                path,
            ) < latest_files(writes).len(),
    decreases writes.len(),
{
    if writes.len() > 0 {
        let before = writes.drop_last();
        let w = writes.last();
        let files = latest_files(before);
        let at = first_with(files, w.0);
        frozen_is_what_was_last_written(before);
        first_with_bounds(files, w.0);
        let now = latest_files(writes);
        assert forall|path: Seq<char>| #[trigger] last_contents(
            writes,
            path,
        ) is Some implies first_with(now, path) < now.len() by {
            first_with_bounds(now, path);
            if path == w.0 {
                let k = if at < files.len() {
                    at as int
                } else {
                    files.len() as int
                };
                assert(now[k].0 == path);
            } else {
                assert(last_contents(before, path) is Some);
                first_with_bounds(files, path);
                let k = first_with(files, path) as int;
                assert(now[k].0 == path);
            }
        }
    }
}

/// What was recorded on one task.
#[derive(Debug)]
struct TaskBuf {
    writes: Vec<FileWrite>,
    commands: Vec<String>,
}

/// What was recorded on one task.
#[verifier::ext_equal]
pub struct TaskView {
    pub writes: Seq<(Seq<char>, Seq<u8>)>,
    pub commands: Seq<Seq<char>>,
}

impl View for TaskBuf {
    type V = TaskView;

    closed spec fn view(&self) -> TaskView {
        TaskView { writes: file_views(self.writes@), commands: texts(self.commands@) }
    }
}

/// What a workspace in memory holds.
#[verifier::ext_equal]
pub struct MemoryView {
    pub tasks: Map<Seq<char>, TaskView>,
    pub accepted: Seq<Seq<char>>,
    pub discarded: Seq<Seq<char>>,
    pub merged: Option<Seq<char>>,
}

impl MemoryView {
    /// The task's record, empty where there is none yet.
    pub open spec fn task(self, id: Seq<char>) -> TaskView {
        if self.tasks.contains_key(id) {
            self.tasks[id]
        } else {
            TaskView { writes: seq![], commands: seq![] }
        }
    }

    /// The contents of a file of a task, if it was written.
    pub open spec fn file(self, id: Seq<char>, path: Seq<char>) -> Option<Seq<u8>> {
        if self.tasks.contains_key(id) {
            last_contents(self.tasks[id].writes, path)
        } else {
            None
        }
    }
}

/// A workspace in memory that nothing was asked of.
pub open spec fn empty_memory() -> MemoryView {
    MemoryView { tasks: Map::empty(), accepted: seq![], discarded: seq![], merged: None }
}

impl MemoryView {
    /// What is held after a call.
    pub open spec fn after(self, call: WorkspaceCall) -> MemoryView {
        match call {
            WorkspaceCall::Write { task, path, contents, .. } => MemoryView {
                tasks: self.tasks.insert(
                    task,
                    TaskView {
                        writes: self.task(task).writes.push((path, contents)),
                        ..self.task(task)
                    },
                ),
                ..self
            },
            WorkspaceCall::Command { task, command, .. } => MemoryView {
                tasks: self.tasks.insert(
                    task,
                    TaskView {
                        commands: self.task(task).commands.push(command),
                        ..self.task(task)
                    },
                ),
                ..self
            },
            WorkspaceCall::Accept { task, .. } => MemoryView {
                accepted: self.accepted.push(task),
                ..self
            },
            WorkspaceCall::Discard { task, .. } => MemoryView {
                discarded: self.discarded.push(task),
                ..self
            },
            WorkspaceCall::Merge { message, .. } => MemoryView { merged: Some(message), ..self },
            WorkspaceCall::Assign { .. }
            | WorkspaceCall::Freeze { .. }
            | WorkspaceCall::Read { .. }
            | WorkspaceCall::Audit { .. } => self,
        }
    }

    /// The call came back with what a workspace that holds this answers.
    pub open spec fn answers(self, call: WorkspaceCall) -> bool {
        match call {
            WorkspaceCall::Assign { .. } => true,
            WorkspaceCall::Write { result, .. } => result is Ok,
            WorkspaceCall::Command { result, .. } => result matches Ok(out) && out.stdout@
                == Seq::<char>::empty() && out.exit_code == 0,
            WorkspaceCall::Freeze { task, result } => match result {
                Ok(frozen) => self.tasks.contains_key(task) && freezes(
                    latest_files(self.tasks[task].writes),
                    frozen,
                ),
                Err(e) => !self.tasks.contains_key(task) && (
                e matches WorkspaceError::UnknownTask(id) && id@ == task),
            },
            WorkspaceCall::Accept { result, .. } => result is Ok,
            WorkspaceCall::Discard { result, .. } => result is Ok,
            WorkspaceCall::Merge { result, .. } => result is Ok,
            WorkspaceCall::Read { task, path, result } => match result {
                Ok(Some(c)) => self.file(task, path) == Some(c@),
                Ok(None) => self.file(task, path) is None,
                Err(_) => false,
            },
            WorkspaceCall::Audit { result, .. } => result matches Err(words) && words@
                == "no audit directory"@,
        }
    }
}

/// What a workspace in memory holds after these calls.
pub open spec fn replay(calls: Seq<WorkspaceCall>) -> MemoryView
    decreases calls.len(),
{
    if calls.len() == 0 {
        empty_memory()
    } else {
        replay(calls.drop_last()).after(calls.last())
    }
}

/// Every call came back with what a workspace in memory answers.
pub open spec fn answered(calls: Seq<WorkspaceCall>) -> bool {
    forall|i: int|
        0 <= i < calls.len() ==> replay(calls.take(i)).answers(#[trigger] calls[i])
}

/// One call more is replayed after the others.
proof fn replay_goes_on(calls: Seq<WorkspaceCall>, call: WorkspaceCall)
    requires
        answered(calls),
        replay(calls).answers(call),
    ensures
        replay(calls.push(call)) == replay(calls).after(call),
        answered(calls.push(call)),
{
    let more = calls.push(call);
    assert(more.drop_last() =~= calls);
    assert forall|i: int| 0 <= i < more.len() implies replay(more.take(i)).answers(
        #[trigger] more[i],
    ) by {
        if i < calls.len() {
            assert(more.take(i) =~= calls.take(i));
            assert(more[i] == calls[i]);
        } else {
            assert(more.take(i) =~= calls);
        }
    }
}

/// In memory a write succeeds, and what a file then holds is what was last
/// written to it; no other file is touched.
pub proof fn written_file_is_held(
    calls: Seq<WorkspaceCall>,
    task: Seq<char>,
    path: Seq<char>,
    contents: Seq<u8>,
    result: Result<(), WorkspaceError>,
)
    requires
        answered(calls.push(WorkspaceCall::Write { task, path, contents, result })),
    ensures
        result is Ok,
        ({
            let after = replay(calls.push(WorkspaceCall::Write { task, path, contents, result }));
            &&& after.file(task, path) == Some(contents)
            &&& forall|t: Seq<char>, p: Seq<char>|
                t != task || p != path ==> #[trigger] after.file(t, p) == replay(calls).file(t, p)
            &&& after.accepted == replay(calls).accepted
            &&& after.discarded == replay(calls).discarded
            &&& after.merged == replay(calls).merged
        }),
{
    let call = WorkspaceCall::Write { task, path, contents, result };
    let more = calls.push(call);
    assert(more.take(calls.len() as int) =~= calls);
    assert(more[calls.len() as int] == call);
    assert(more.drop_last() =~= calls);
    let before = replay(calls);
    let after = replay(more);
    let writes = before.task(task).writes;
    assert(after.tasks[task].writes == writes.push((path, contents)));
    assert(writes.push((path, contents)).drop_last() =~= writes);
    assert forall|t: Seq<char>, p: Seq<char>| t != task || p != path implies #[trigger] after.file(
        t,
        p,
    ) == before.file(t, p) by {
        if t == task {
            assert(after.file(t, p) == last_contents(writes, p));
        }
    }
}

/// What is recorded in memory.
struct Memory {
    tasks: TextMap<TaskBuf>,
    accepted: Vec<String>,
    discarded: Vec<String>,
    merged: Option<String>,
}

impl View for Memory {
    type V = MemoryView;

    closed spec fn view(&self) -> MemoryView {
        MemoryView {
            tasks: self.tasks@.map_values(|b: TaskBuf| b@),
            accepted: texts(self.accepted@),
            discarded: texts(self.discarded@),
            merged: match self.merged {
                Some(m) => Some(m@),
                None => None,
            },
        }
    }
}

/// In-memory workspace double: records writes/commands per task and reports a
/// deterministic frozen diff.
pub struct InMemoryWorkspace {
    memory: Memory,
    history: Ghost<Seq<WorkspaceCall>>,
}

impl View for InMemoryWorkspace {
    type V = MemoryView;

    closed spec fn view(&self) -> MemoryView {
        self.memory@
    }
}

fn copy_bytes(v: &Vec<u8>) -> (r: Vec<u8>)
    ensures
        r@ == v@,
{
    let mut r: Vec<u8> = Vec::new();
    r.extend_from_slice(v.as_slice());
    r
}

fn as_task_ids(v: &Vec<String>) -> (r: Vec<TaskId>)
    ensures
        r@.len() == v@.len(),
        forall|i: int| 0 <= i < r@.len() ==> (#[trigger] r@[i])@ == texts(v@)[i],
{
    let mut r: Vec<TaskId> = Vec::new();
    let mut i: usize = 0;
    while i < v.len()
        invariant
            0 <= i <= v.len(),
            r@.len() == i,
            forall|j: int| 0 <= j < i ==> (#[trigger] r@[j])@ == texts(v@)[j],
        decreases v.len() - i,
    {
        r.push(TaskId(v[i].clone()));
        i = i + 1;
    }
    r
}

/// The contents of the last write to a path.
fn find_last(writes: &Vec<FileWrite>, path: &str) -> (r: Option<Vec<u8>>)
    ensures
        r is Some <==> last_contents(file_views(writes@), path@) is Some,
        r matches Some(c) ==> last_contents(file_views(writes@), path@) == Some(c@),
{
    let wanted = path.to_owned();
    let ghost all = file_views(writes@);
    let mut i: usize = writes.len();
    assert(all.take(all.len() as int) =~= all);
    while i > 0
        invariant
            0 <= i <= writes.len(),
            wanted@ == path@,
            all == file_views(writes@),
            last_contents(all, path@) == last_contents(all.take(i as int), path@),
        decreases i,
    {
        assert(all.take(i as int).drop_last() =~= all.take(i as int - 1));
        if writes[i - 1].path == wanted {
            return Some(copy_bytes(&writes[i - 1].contents));
        }
        i = i - 1;
    }
    None
}

/// The files that a series of writes leaves.
fn settle(writes: &Vec<FileWrite>) -> (r: Vec<FileWrite>)
    ensures
        file_views(r@) == latest_files(file_views(writes@)),
{
    let ghost all = file_views(writes@);
    let mut files: Vec<FileWrite> = Vec::new();
    let mut i: usize = 0;
    while i < writes.len()
        invariant
            0 <= i <= writes.len(),
            all == file_views(writes@),
            file_views(files@) == latest_files(all.take(i as int)),
        decreases writes.len() - i,
    {
        let w = &writes[i];
        let ghost step = all.take(i as int + 1);
        let ghost before = file_views(files@);
        assert(step.drop_last() =~= all.take(i as int));
        let mut at: usize = 0;
        assert(before.skip(0) =~= before);
        while at < files.len() && files[at].path != w.path
            invariant
                0 <= at <= files.len(),
                before == file_views(files@),
                first_with(before, w.path@) == at + first_with(before.skip(at as int), w.path@),
            decreases files.len() - at,
        {
            assert(before.skip(at as int).skip(1) =~= before.skip(at as int + 1));
            at = at + 1;
        }
        let copy = FileWrite { path: w.path.clone(), contents: copy_bytes(&w.contents) };
        let ghost copied = (copy.path@, copy.contents@);
        if at < files.len() {
            files[at] = copy;
        } else {
            assert(before.skip(at as int) =~= seq![]);
            assert(first_with(before, w.path@) == before.len());
            files.push(copy);
            assert(file_views(files@) =~= before.push(copied));
        }
        i = i + 1;
    }
    assert(all.take(writes@.len() as int) =~= all);
    files
}

impl Memory {
    fn new() -> (r: Self)
        ensures
            r@ == empty_memory(),
    {
        let r = Memory {
            tasks: TextMap::new(),
            accepted: Vec::new(),
            discarded: Vec::new(),
            merged: None,
        };
        assert(r@ =~= empty_memory());
        r
    }

    fn file(&self, task_id: &TaskId, path: &str) -> (r: Option<Vec<u8>>)
        ensures
            r is Some <==> self@.file(task_id@, path@) is Some,
            r matches Some(c) ==> self@.file(task_id@, path@) == Some(c@),
    {
        match self.tasks.get(task_id.0.as_str()) {
            Some(buf) => find_last(&buf.writes, path),
            None => None,
        }
    }

    /// Take the task's record out, or a fresh one.
    fn take_task(&mut self, task_id: &TaskId) -> (r: TaskBuf)
        ensures
            final(self)@ == (MemoryView {
                tasks: old(self)@.tasks.remove(task_id@),
                ..old(self)@
            }),
            r@ == old(self)@.task(task_id@),
    {
        match self.tasks.take(task_id.0.as_str()) {
            Some(buf) => buf,
            None => TaskBuf { writes: Vec::new(), commands: Vec::new() },
        }
    }

    fn put_task(&mut self, task_id: &TaskId, buf: TaskBuf)
        ensures
            final(self)@ == (MemoryView {
                tasks: old(self)@.tasks.insert(task_id@, buf@),
                ..old(self)@
            }),
    {
        self.tasks.insert(task_id.0.clone(), buf);
    }
}

impl Default for InMemoryWorkspace {
    fn default() -> (r: Self)
        ensures
            r@ == empty_memory(),
            r.calls() == Seq::<WorkspaceCall>::empty(),
            r.remembers(),
    {
        InMemoryWorkspace::new()
    }
}

impl InMemoryWorkspace {
    /// What is held is what the calls so far leave, and each of them was
    /// answered accordingly.
    pub open spec fn remembers(&self) -> bool {
        self@ == replay(self.calls()) && answered(self.calls())
    }

    #[verifier::type_invariant]
    spec fn kept(self) -> bool {
        self.memory@ == replay(self.history@) && answered(self.history@)
    }

    pub fn new() -> (r: Self)
        ensures
            r@ == empty_memory(),
            r.calls() == Seq::<WorkspaceCall>::empty(),
            r.remembers(),
    {
        InMemoryWorkspace { memory: Memory::new(), history: Ghost(Seq::empty()) }
    }

    /// Take everything out, and leave nothing.
    fn take(&mut self) -> (r: (Memory, Ghost<Seq<WorkspaceCall>>))
        ensures
            final(self)@ == empty_memory(),
            r.0@ == old(self)@,
            r.1@ == old(self).calls(),
            r.0@ == replay(r.1@),
            answered(r.1@),
    {
        let mut taken = InMemoryWorkspace::new();
        std::mem::swap(self, &mut taken);
        proof {
            use_type_invariant(&taken);
        }
        (taken.memory, taken.history)
    }

    pub fn accepted_tasks(&self) -> (r: Vec<TaskId>)
        ensures
            r@.len() == self@.accepted.len(),
            forall|i: int| 0 <= i < r@.len() ==> (#[trigger] r@[i])@ == self@.accepted[i],
            self.remembers(),
    {
        proof {
            use_type_invariant(self);
        }
        as_task_ids(&self.memory.accepted)
    }

    pub fn discarded_tasks(&self) -> (r: Vec<TaskId>)
        ensures
            r@.len() == self@.discarded.len(),
            forall|i: int| 0 <= i < r@.len() ==> (#[trigger] r@[i])@ == self@.discarded[i],
            self.remembers(),
    {
        proof {
            use_type_invariant(self);
        }
        as_task_ids(&self.memory.discarded)
    }

    pub fn merged_message(&self) -> (r: Option<String>)
        ensures
            r is Some <==> self@.merged is Some,
            r matches Some(m) ==> self@.merged == Some(m@),
            self.remembers(),
    {
        proof {
            use_type_invariant(self);
        }
        match &self.memory.merged {
            Some(m) => Some(m.clone()),
            None => None,
        }
    }

    pub fn file_contents(&self, task_id: &TaskId, path: &str) -> (r: Option<Vec<u8>>)
        ensures
            r is Some <==> self@.file(task_id@, path@) is Some,
            r matches Some(c) ==> self@.file(task_id@, path@) == Some(c@),
            self.remembers(),
    {
        proof {
            use_type_invariant(self);
        }
        self.memory.file(task_id, path)
    }
}

impl Workspace for InMemoryWorkspace {
    closed spec fn calls(&self) -> Seq<WorkspaceCall> {
        self.history@
    }

    open spec fn audit_home(&self) -> Option<Seq<char>> {
        None
    }

    /// A task held in memory belongs to nobody in particular.
    fn assign_task(&mut self, task_id: &TaskId, agent: &str)
        ensures
            final(self)@ == old(self)@,
    {
        let ghost call = WorkspaceCall::Assign { task: task_id@, agent: agent@ };
        proof {
            use_type_invariant(&*self);
            replay_goes_on(self.history@, call);
        }
        self.history = Ghost(self.history@.push(call));
    }

    fn apply_write(&mut self, task_id: &TaskId, path: &str, contents: &[u8]) -> (r: Result<
        (),
        WorkspaceError,
    >)
        ensures
            r is Ok,
            final(self)@ == (MemoryView {
                tasks: old(self)@.tasks.insert(
                    task_id@,
                    TaskView {
                        writes: old(self)@.task(task_id@).writes.push((path@, contents@)),
                        ..old(self)@.task(task_id@)
                    },
                ),
                ..old(self)@
            }),
    {
        let (mut memory, history) = self.take();
        let mut buf = memory.take_task(task_id);
        let ghost before = buf@;
        let mut copy: Vec<u8> = Vec::new();
        copy.extend_from_slice(contents);
        assert(copy@ =~= contents@);
        buf.writes.push(FileWrite { path: path.to_owned(), contents: copy });
        assert(buf@.writes =~= before.writes.push((path@, contents@)));
        memory.put_task(task_id, buf);
        let r: Result<(), WorkspaceError> = Ok(());
        let ghost call = WorkspaceCall::Write {
                task: task_id@,
                path: path@,
                contents: contents@,
                result: r,
            };
        proof {
            replay_goes_on(history@, call);
            assert(memory@ =~= old(self)@.after(call));
        }
        *self = InMemoryWorkspace { memory, history: Ghost(history@.push(call)) };
        r
    }

    fn run_command(&mut self, task_id: &TaskId, command: &str, cwd: &str) -> (r: Result<
        CommandOutput,
        WorkspaceError,
    >)
        ensures
            r matches Ok(out) && out.stdout@ == Seq::<char>::empty() && out.exit_code == 0,
            final(self)@ == (MemoryView {
                tasks: old(self)@.tasks.insert(
                    task_id@,
                    TaskView {
                        commands: old(self)@.task(task_id@).commands.push(command@),
                        ..old(self)@.task(task_id@)
                    },
                ),
                ..old(self)@
            }),
    {
        let (mut memory, history) = self.take();
        let mut buf = memory.take_task(task_id);
        let ghost before = buf@;
        buf.commands.push(command.to_owned());
        assert(buf@.commands =~= before.commands.push(command@));
        memory.put_task(task_id, buf);
        let r: Result<CommandOutput, WorkspaceError> = Ok(
            CommandOutput { stdout: String::new(), exit_code: 0 },
        );
        let ghost call = WorkspaceCall::Command {
                task: task_id@,
                command: command@,
                cwd: cwd@,
                result: r,
            };
        proof {
            replay_goes_on(history@, call);
            assert(memory@ =~= old(self)@.after(call));
        }
        *self = InMemoryWorkspace { memory, history: Ghost(history@.push(call)) };
        r
    }

    fn freeze_task_diff(&mut self, task_id: &TaskId) -> (r: Result<FrozenDiff, WorkspaceError>)
        ensures
            final(self)@ == old(self)@,
            r is Ok <==> old(self)@.tasks.contains_key(task_id@),
            match r {
                Ok(frozen) => freezes(
                    latest_files(old(self)@.tasks[task_id@].writes),
                    frozen,
                ),
                Err(e) => e matches WorkspaceError::UnknownTask(id) && id@ == task_id@,
            },
    {
        let r = match self.memory.tasks.get(task_id.0.as_str()) {
            Some(buf) => {
                let files = settle(&buf.writes);
                Ok(freeze_files(&files))
            },
            None => Err(WorkspaceError::UnknownTask(task_id.0.clone())),
        };
        let ghost call = WorkspaceCall::Freeze { task: task_id@, result: r };
        proof {
            use_type_invariant(&*self);
            replay_goes_on(self.history@, call);
        }
        self.history = Ghost(self.history@.push(call));
        r
    }

    fn accept_task(&mut self, task_id: &TaskId) -> (r: Result<(), WorkspaceError>)
        ensures
            r is Ok,
            final(self)@ == (MemoryView {
                accepted: old(self)@.accepted.push(task_id@),
                ..old(self)@
            }),
    {
        let (mut memory, history) = self.take();
        memory.accepted.push(task_id.0.clone());
        let r: Result<(), WorkspaceError> = Ok(());
        let ghost call = WorkspaceCall::Accept { task: task_id@, result: r };
        proof {
            replay_goes_on(history@, call);
            assert(memory@ =~= old(self)@.after(call));
        }
        *self = InMemoryWorkspace { memory, history: Ghost(history@.push(call)) };
        r
    }

    fn discard_task(&mut self, task_id: &TaskId) -> (r: Result<(), WorkspaceError>)
        ensures
            r is Ok,
            final(self)@ == (MemoryView {
                discarded: old(self)@.discarded.push(task_id@),
                ..old(self)@
            }),
    {
        let (mut memory, history) = self.take();
        memory.discarded.push(task_id.0.clone());
        let r: Result<(), WorkspaceError> = Ok(());
        let ghost call = WorkspaceCall::Discard { task: task_id@, result: r };
        proof {
            replay_goes_on(history@, call);
            assert(memory@ =~= old(self)@.after(call));
        }
        *self = InMemoryWorkspace { memory, history: Ghost(history@.push(call)) };
        r
    }

    fn merge_session(&mut self, message: &str) -> (r: Result<(), WorkspaceError>)
        ensures
            r is Ok,
            final(self)@ == (MemoryView { merged: Some(message@), ..old(self)@ }),
    {
        let (mut memory, history) = self.take();
        memory.merged = Some(message.to_owned());
        let r: Result<(), WorkspaceError> = Ok(());
        let ghost call = WorkspaceCall::Merge { message: message@, result: r };
        proof {
            replay_goes_on(history@, call);
            assert(memory@ =~= old(self)@.after(call));
        }
        *self = InMemoryWorkspace { memory, history: Ghost(history@.push(call)) };
        r
    }

    fn read_file(&mut self, task_id: &TaskId, path: &str) -> (r: Result<
        Option<Vec<u8>>,
        WorkspaceError,
    >)
        ensures
            final(self)@ == old(self)@,
            match r {
                Ok(Some(c)) => old(self)@.file(task_id@, path@) == Some(c@),
                Ok(None) => old(self)@.file(task_id@, path@) is None,
                Err(_) => false,
            },
    {
        let r: Result<Option<Vec<u8>>, WorkspaceError> = Ok(self.file_contents(task_id, path));
        let ghost call = WorkspaceCall::Read { task: task_id@, path: path@, result: r };
        proof {
            use_type_invariant(&*self);
            replay_goes_on(self.history@, call);
        }
        self.history = Ghost(self.history@.push(call));
        r
    }

    /// A workspace in memory has no durable home.
    fn audit_dir(&self) -> (r: Option<String>) {
        None
    }

    /// Nothing is written: there is nowhere to write it.
    fn write_audit(&mut self, dir: &str, name: &str, records: &[AuditEntry]) -> (r: Result<
        String,
        String,
    >)
        ensures
            final(self)@ == old(self)@,
            r matches Err(words) && words@ == "no audit directory"@,
    {
        let r: Result<String, String> = Err("no audit directory".to_owned());
        let ghost call = WorkspaceCall::Audit {
                dir: dir@,
                name: name@,
                records: records@,
                result: r,
            };
        proof {
            use_type_invariant(&*self);
            replay_goes_on(self.history@, call);
        }
        self.history = Ghost(self.history@.push(call));
        r
    }
}

// ---------------------------------------------------------------------------
// Containment
// ---------------------------------------------------------------------------
/// A `..` component stands at `i`.
pub open spec fn climbs_at(rel: Seq<char>, i: int) -> bool {
    &&& 0 <= i <= rel.len() - 2
    &&& rel[i] == '.'
    &&& rel[i + 1] == '.'
    &&& i == 0 || rel[i - 1] == '/'
    &&& i + 2 == rel.len() || rel[i + 2] == '/'
}

/// Some component of the path is `..`.
pub open spec fn climbs(rel: Seq<char>) -> bool {
    exists|i: int| climbs_at(rel, i)
}

/// A relative path below a root.
pub open spec fn joined(root: Seq<char>, rel: Seq<char>) -> Seq<char> {
    if root.len() == 0 || root.last() == '/' {
        root + rel
    } else {
        root + seq!['/'] + rel
    }
}

/// Why a path is refused, if it is.
pub open spec fn path_refusal(rel: Seq<char>) -> Option<Seq<char>> {
    if rel.len() == 0 {
        Some("path must not be empty"@)
    } else if rel[0] == '/' {
        Some("path must be relative: "@ + rel)
    } else if climbs(rel) {
        Some("path traversal rejected: "@ + rel)
    } else {
        None
    }
}

/// Join `rel` onto `root`, refusing absolute paths and any traversal that
/// escapes the root. Purely lexical (the target may not exist yet): rejects
/// absolute paths and any `..` component. Case: `a/../b` inside root is
/// still rejected: keep it strict and simple.
pub fn contained_join(root: &str, rel: &str) -> (r: Result<String, WorkspaceError>)
    ensures
        match r {
            Ok(path) => path_refusal(rel@) is None && path@ == joined(root@, rel@),
            Err(e) => e matches WorkspaceError::Io(words) && path_refusal(rel@) == Some(words@),
        },
{
    let v = chars_of(rel);
    if v.len() == 0 {
        return Err(WorkspaceError::Io("path must not be empty".to_owned()));
    }
    if v[0] == '/' {
        return Err(WorkspaceError::Io("path must be relative: ".to_owned().concat(rel)));
    }
    let mut i: usize = 0;
    while i < v.len()
        invariant
            0 <= i <= v.len(),
            v@ == rel@,
            v@.len() > 0,
            v@[0] != '/',
            forall|j: int| 0 <= j < i ==> !climbs_at(rel@, j),
        decreases v.len() - i,
    {
        if v.len() - i >= 2 && v[i] == '.' && v[i + 1] == '.' && (i == 0 || v[i - 1] == '/') && (
        v.len() - i == 2 || v[i + 2] == '/') {
            assert(climbs_at(rel@, i as int));
            return Err(WorkspaceError::Io("path traversal rejected: ".to_owned().concat(rel)));
        }
        i = i + 1;
    }
    assert(!climbs(rel@));
    let base = chars_of(root);
    if base.len() == 0 || base[base.len() - 1] == '/' {
        Ok(root.to_owned().concat(rel))
    } else {
        let mut path = root.to_owned();
        path.push('/');
        Ok(path.concat(rel))
    }
}

/// A joined path stays below its root: it starts with the root, and what
/// follows is the relative path, which never steps up.
pub proof fn joined_path_stays_inside(root: Seq<char>, rel: Seq<char>)
    requires
        path_refusal(rel) is None,
    ensures
        root.is_prefix_of(joined(root, rel)),
        forall|i: int| !climbs_at(rel, i),
{
}

// ---------------------------------------------------------------------------
// What is frozen
// ---------------------------------------------------------------------------
/// A frozen diff holds every file, one after the other: its path, a zero byte,
/// its contents and a line feed.
pub proof fn frozen_files_stand_in_order(
    files: Seq<(Seq<char>, Seq<u8>)>,
    path: Seq<char>,
    contents: Seq<u8>,
)
    ensures
        files_bytes(Seq::empty()).len() == 0,
        files_bytes(files.push((path, contents))) == files_bytes(files) + vstd::utf8::encode_utf8(
            path,
        ) + seq![0u8] + contents + seq![10u8],
{
    let more = files.push((path, contents));
    assert(more.drop_last() =~= files);
    assert(files_bytes(more) =~= files_bytes(files) + vstd::utf8::encode_utf8(path) + seq![0u8]
        + contents + seq![10u8]);
}

/// The lines of files are counted by their line feeds, of every file.
pub proof fn line_feeds_are_counted(
    bytes: Seq<u8>,
    b: u8,
    files: Seq<(Seq<char>, Seq<u8>)>,
    path: Seq<char>,
)
    ensures
        line_feeds(Seq::empty()) == 0,
        b == '\n' as u8 ==> line_feeds(bytes.push(b)) == line_feeds(bytes) + 1,
        b != '\n' as u8 ==> line_feeds(bytes.push(b)) == line_feeds(bytes),
        files_line_feeds(Seq::empty()) == 0,
        files_line_feeds(files.push((path, bytes))) == files_line_feeds(files) + line_feeds(bytes),
{
    assert(bytes.push(b).drop_last() =~= bytes);
    assert(files.push((path, bytes)).drop_last() =~= files);
}

/// What is frozen of files: the bytes of them all, the path of each in order, and
/// the number of their lines as far as it can be held.
pub proof fn frozen_diffs_name_every_file(
    files: Seq<(Seq<char>, Seq<u8>)>,
    frozen: FrozenDiff,
)
    requires
        freezes(files, frozen),
    ensures
        frozen.bytes@ == files_bytes(files),
        frozen.files@.len() == files.len(),
        forall|i: int| 0 <= i < files.len() ==> (#[trigger] frozen.files@[i])@ == files[i].0,
        files_line_feeds(files) <= u32::MAX ==> frozen.loc == files_line_feeds(files),
        files_line_feeds(files) > u32::MAX ==> frozen.loc == u32::MAX,
{
    assert(texts(frozen.files@).len() == frozen.files@.len());
    assert forall|i: int| 0 <= i < files.len() implies (#[trigger] frozen.files@[i])@
        == files[i].0 by {
        assert(texts(frozen.files@)[i] == frozen.files@[i]@);
        assert(paths_of(files)[i] == files[i].0);
    }
}

/// A later write takes the place of an earlier one to the same path, and one to a
/// new path comes last.
pub proof fn later_writes_take_the_place(
    writes: Seq<(Seq<char>, Seq<u8>)>,
    path: Seq<char>,
    contents: Seq<u8>,
    at: int,
)
    requires
        0 <= at <= latest_files(writes).len(),
        at < latest_files(writes).len() ==> latest_files(writes)[at].0 == path,
        forall|j: int| 0 <= j < at ==> (#[trigger] latest_files(writes)[j]).0 != path,
    ensures
        latest_files(Seq::empty()).len() == 0,
        at < latest_files(writes).len() ==> latest_files(writes.push((path, contents)))
            == latest_files(writes).update(at, (path, contents)),
        at == latest_files(writes).len() ==> latest_files(writes.push((path, contents)))
            == latest_files(writes).push((path, contents)),
{
    let files = latest_files(writes);
    assert(writes.push((path, contents)).drop_last() =~= writes);
    first_with_bounds(files, path);
    let k = first_with(files, path) as int;
    assert(k == at) by {
        if k < at {
            assert(files[k].0 == path);
        }
        if at < k {
            assert(files[at].0 != path);
        }
    }
}

/// A file holds what was last written to it, and nothing where nothing was.
pub proof fn files_hold_the_last_write(
    writes: Seq<(Seq<char>, Seq<u8>)>,
    path: Seq<char>,
    k: int,
)
    requires
        -1 <= k < writes.len(),
        k >= 0 ==> writes[k].0 == path,
        forall|j: int| k < j < writes.len() ==> (#[trigger] writes[j]).0 != path,
    ensures
        k >= 0 ==> last_contents(writes, path) == Some(writes[k].1),
        k == -1 ==> last_contents(writes, path) is None,
    decreases writes.len(),
{
    if writes.len() > 0 && k < writes.len() - 1 {
        assert(writes[writes.len() - 1].0 != path);
        files_hold_the_last_write(writes.drop_last(), path, k);
    }
}

/// What a workspace in memory keeps of each call: commands of their task, accepted
/// and discarded tasks in order, and the message of the merge. Handing over,
/// freezing, reading and the audit leave it as it is.
pub proof fn memory_keeps_every_call(m: MemoryView, call: WorkspaceCall)
    ensures
        call matches WorkspaceCall::Command { task, command, .. } ==> {
            let after = m.after(call);
            &&& after.tasks.contains_key(task)
            &&& after.tasks[task].commands == m.task(task).commands.push(command)
            &&& after.tasks[task].writes == m.task(task).writes
            &&& forall|t: Seq<char>|
                t != task ==> (#[trigger] after.tasks.contains_key(t) == m.tasks.contains_key(t))
                    && after.tasks[t] == m.tasks[t]
            &&& after == (MemoryView { tasks: after.tasks, ..m })
        },
        call matches WorkspaceCall::Accept { task, .. } ==> {
            let after = m.after(call);
            &&& after.accepted.len() == m.accepted.len() + 1
            &&& after.accepted.last() == task
            &&& after.accepted.drop_last() == m.accepted
            &&& after == (MemoryView { accepted: after.accepted, ..m })
        },
        call matches WorkspaceCall::Discard { task, .. } ==> {
            let after = m.after(call);
            &&& after.discarded.len() == m.discarded.len() + 1
            &&& after.discarded.last() == task
            &&& after.discarded.drop_last() == m.discarded
            &&& after == (MemoryView { discarded: after.discarded, ..m })
        },
        call matches WorkspaceCall::Merge { message, .. } ==> m.after(call) == (MemoryView {
            merged: Some(message),
            ..m
        }),
        call is Assign || call is Freeze || call is Read || call is Audit ==> m.after(call) == m,
{
    let after = m.after(call);
    assert(call is Accept ==> after.accepted.drop_last() =~= m.accepted);
    assert(call is Discard ==> after.discarded.drop_last() =~= m.discarded);
}

/// What a workspace in memory answers: work is always done and a command says
/// nothing; a known task is frozen as its files now are, and a file read as it was
/// last written; an unknown task cannot be frozen.
pub proof fn memory_answers_from_what_it_keeps(m: MemoryView, call: WorkspaceCall)
    requires
        m.answers(call),
    ensures
        call is Write || call is Accept || call is Discard || call is Merge ==> !call.failed(),
        call matches WorkspaceCall::Command { result, .. } ==> (result matches Ok(out)
            && out.stdout@.len() == 0 && out.exit_code == 0),
        call matches WorkspaceCall::Freeze { task, result } ==> {
            &&& m.tasks.contains_key(task) ==> (result matches Ok(frozen) && freezes(
                latest_files(m.tasks[task].writes),
                frozen,
            ))
            &&& !m.tasks.contains_key(task) ==> (result matches Err(WorkspaceError::UnknownTask(id))
                && id@ == task)
        },
        call matches WorkspaceCall::Read { task, path, result } ==> {
            &&& result is Ok
            &&& !m.tasks.contains_key(task) ==> result == Ok::<Option<Vec<u8>>, WorkspaceError>(
                None,
            )
            &&& m.tasks.contains_key(task) ==> match last_contents(m.tasks[task].writes, path) {
                Some(held) => (result matches Ok(Some(c)) && c@ == held),
                None => result == Ok::<Option<Vec<u8>>, WorkspaceError>(None),
            }
        },
        call matches WorkspaceCall::Audit { result, .. } ==> (result matches Err(words) && words@
            == "no audit directory"@),
{
}

/// Which paths are refused, and why: an empty one, one from the top, and one with
/// a component that steps up. Every other is joined behind its root, with one
/// slash between them where the root has none.
pub proof fn paths_are_refused_for_cause(root: Seq<char>, rel: Seq<char>, i: int)
    ensures
        rel.len() == 0 ==> path_refusal(rel) == Some("path must not be empty"@),
        rel.len() > 0 && rel[0] == '/' ==> path_refusal(rel) == Some(
            "path must be relative: "@ + rel,
        ),
        rel.len() > 0 && rel[0] != '/' && 0 <= i <= rel.len() - 2 && rel[i] == '.' && rel[i + 1]
            == '.' && (i == 0 || rel[i - 1] == '/') && (i == rel.len() - 2 || rel[i + 2] == '/')
            ==> path_refusal(rel) == Some("path traversal rejected: "@ + rel),
        path_refusal(rel) is Some ==> rel.len() == 0 || rel[0] == '/' || exists|k: int|
            0 <= k <= rel.len() - 2 && #[trigger] rel[k] == '.' && rel[k + 1] == '.' && (k == 0
                || rel[k - 1] == '/') && (k == rel.len() - 2 || rel[k + 2] == '/'),
        root.len() > 0 && root.last() != '/' ==> joined(root, rel) == root + seq!['/'] + rel,
        root.len() == 0 || root.last() == '/' ==> joined(root, rel) == root + rel,
{
    if 0 <= i <= rel.len() - 2 && rel[i] == '.' && rel[i + 1] == '.' && (i == 0 || rel[i - 1]
        == '/') && (i == rel.len() - 2 || rel[i + 2] == '/') {
        assert(climbs_at(rel, i));
    }
    if climbs(rel) {
        let k = choose|k: int| climbs_at(rel, k);
        assert(rel[k] == '.');
    }
}

} // verus!

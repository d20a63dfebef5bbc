//! What a worktree-backed workspace decides: which agent owns a task, which
//! paths a task has written, and what a diff summary says.
use vstd::prelude::*;

use crate::error::WorkspaceError;
use crate::ids::TaskId;
use crate::table::TextMap;
use crate::text::{
    copy_texts, decimal, decimal_spec, is_blank, is_space, line_texts, lines_of, lines_spec,
    parse_u32, parsed_u32, text_of, texts, trim, trimmed, words_of, words_spec,
};
use crate::text_laws::{
    numerals_are_decimal, numerals_are_read_back, solid_text_is_one_word, space_parts_words,
    visible_characters_are_no_space,
};
use crate::workspace::{file_views, freeze_files, freezes, FileWrite, FrozenDiff};

verus! {

/// Which agent owns which task in a fleet. The first assignment wins.
#[derive(Debug)]
pub struct TaskOwners {
    owners: TextMap<String>,
}

impl View for TaskOwners {
    type V = Map<Seq<char>, Seq<char>>;

    closed spec fn view(&self) -> Map<Seq<char>, Seq<char>> {
        self.owners@.map_values(|a: String| a@)
    }
}

impl TaskOwners {
    pub fn new() -> (r: Self)
        ensures
            r@ == Map::<Seq<char>, Seq<char>>::empty(),
    {
        TaskOwners { owners: TextMap::new() }
    }

    /// Bind a task to an agent, unless it is bound already.
    pub fn assign(&mut self, task: &str, agent: &str)
        ensures
            final(self)@ == (if old(self)@.contains_key(task@) {
                old(self)@
            } else {
                old(self)@.insert(task@, agent@)
            }),
    {
        if !self.owners.contains(task) {
            self.owners.insert(task.to_owned(), agent.to_owned());
        }
    }

    /// The agent that owns a task, or `default` when unassigned.
    pub fn owner(&self, task: &str, default: &str) -> (r: String)
        ensures
            r@ == (if self@.contains_key(task@) {
                self@[task@]
            } else {
                default@
            }),
    {
        match self.owners.get(task) {
            Some(agent) => agent.clone(),
            None => default.to_owned(),
        }
    }
}

/// Which paths each task has written, each once, in the order of first writing.
#[derive(Debug)]
pub struct TrackedPaths {
    written: TextMap<Vec<String>>,
}

impl View for TrackedPaths {
    type V = Map<Seq<char>, Seq<Seq<char>>>;

    closed spec fn view(&self) -> Map<Seq<char>, Seq<Seq<char>>> {
        self.written@.map_values(|v: Vec<String>| texts(v@))
    }
}

/// The paths written for a task.
pub open spec fn written_by(
    written: Map<Seq<char>, Seq<Seq<char>>>,
    task: Seq<char>,
) -> Seq<Seq<char>> {
    if written.contains_key(task) {
        written[task]
    } else {
        seq![]
    }
}

/// Does the list hold this text?
pub fn holds_text(v: &Vec<String>, wanted: &str) -> (r: bool)
    ensures
        r == texts(v@).contains(wanted@),
{
    let w = wanted.to_owned();
    let mut i: usize = 0;
    while i < v.len()
        invariant
            0 <= i <= v.len(),
            w@ == wanted@,
            forall|j: int| 0 <= j < i ==> #[trigger] texts(v@)[j] != wanted@,
        decreases v.len() - i,
    {
        if v[i] == w {
            assert(texts(v@)[i as int] == wanted@);
            return true;
        }
        i = i + 1;
    }
    assert(!texts(v@).contains(wanted@));
    false
}

impl TrackedPaths {
    pub fn new() -> (r: Self)
        ensures
            r@ == Map::<Seq<char>, Seq<Seq<char>>>::empty(),
    {
        TrackedPaths { written: TextMap::new() }
    }

    /// Note that a task wrote a path.
    pub fn track(&mut self, task_id: &str, path: &str)
        ensures
            final(self)@ == old(self)@.insert(
                task_id@,
                if written_by(old(self)@, task_id@).contains(path@) {
                    written_by(old(self)@, task_id@)
                } else {
                    written_by(old(self)@, task_id@).push(path@)
                },
            ),
    {
        let mut paths = match self.written.take(task_id) {
            Some(paths) => paths,
            None => {
                let fresh: Vec<String> = Vec::new();
                fresh
            },
        };
        let ghost before = texts(paths@);
        assert(before == written_by(old(self)@, task_id@));
        if !holds_text(&paths, path) {
            paths.push(path.to_owned());
            assert(texts(paths@) =~= before.push(path@));
        }
        self.written.insert(task_id.to_owned(), paths);
    }

    pub fn paths_for(&self, task_id: &str) -> (r: Vec<String>)
        ensures
            texts(r@) == written_by(self@, task_id@),
    {
        match self.written.get(task_id) {
            Some(paths) => copy_texts(paths),
            None => {
                let none: Vec<String> = Vec::new();
                none
            },
        }
    }
}

/// What one line of `git diff --numstat` says: the lines added, and the file.
/// A count that is no number (a binary file) adds nothing.
pub open spec fn numstat_row(line: Seq<char>) -> Option<(nat, Seq<char>)> {
    let parts = words_spec(line);
    if parts.len() >= 3 {
        Some(
            (
                match parsed_u32(parts[0]) {
                    Some(n) => n,
                    None => 0,
                },
                parts[2],
            ),
        )
    } else {
        None
    }
}

/// The files that the first `n` lines name.
pub open spec fn numstat_files(lines: Seq<Seq<char>>) -> Seq<Seq<char>>
    decreases lines.len(),
{
    if lines.len() == 0 {
        seq![]
    } else {
        let before = numstat_files(lines.drop_last());
        match numstat_row(lines.last()) {
            Some(row) => before.push(row.1),
            None => before,
        }
    }
}

/// The lines that they add together.
pub open spec fn numstat_added(lines: Seq<Seq<char>>) -> nat
    decreases lines.len(),
{
    if lines.len() == 0 {
        0
    } else {
        numstat_added(lines.drop_last()) + match numstat_row(lines.last()) {
            Some(row) => row.0,
            None => 0,
        }
    }
}

/// Read the output of `git diff --numstat`: the files it names, and how many
/// lines are added in all (additions only, not net change; the sum saturates).
pub fn parse_numstat(text: &str) -> (r: (Vec<String>, u32))
    ensures
        texts(r.0@) == numstat_files(lines_spec(text@)),
        r.1 == if numstat_added(lines_spec(text@)) <= u32::MAX {
            numstat_added(lines_spec(text@))
        } else {
            u32::MAX as nat
        },
{
    let lines = lines_of(text);
    let ghost all = lines_spec(text@);
    let mut files: Vec<String> = Vec::new();
    let mut loc: u32 = 0;
    let mut i: usize = 0;
    while i < lines.len()
        invariant
            0 <= i <= lines.len(),
            all == line_texts(lines@),
            texts(files@) == numstat_files(all.take(i as int)),
            loc == if numstat_added(all.take(i as int)) <= u32::MAX {
                numstat_added(all.take(i as int))
            } else {
                u32::MAX as nat
            },
        decreases lines.len() - i,
    {
        let ghost step = all.take(i as int + 1);
        assert(step.drop_last() =~= all.take(i as int));
        let parts = words_of(&lines[i]);
        if parts.len() >= 3 {
            let added: u32 = match parse_u32(&parts[0]) {
                Some(n) => n,
                None => 0,
            };
            loc = if added > u32::MAX - loc {
                u32::MAX
            } else {
                loc + added
            };
            let name = text_of(&parts[2], 0, parts[2].len());
            assert(name@ =~= parts@[2]@);
            files.push(name);
        }
        i = i + 1;
    }
    assert(all.take(lines@.len() as int) =~= all);
    (files, loc)
}

// ---------------------------------------------------------------------------
// Sessions on git branches
// ---------------------------------------------------------------------------
/// May a session start on this checkout? `status` is what
/// `git status --porcelain` prints: anything in it is uncommitted work that the
/// squash-merge at the end could conflict with.
pub fn preflight(status: &str) -> (r: Result<(), WorkspaceError>)
    ensures
        r is Ok <==> trimmed(status@).len() == 0,
        r matches Err(e) ==> e matches WorkspaceError::Io(words) && words@
            == "repository checkout is dirty; commit or stash before hosting a session"@,
{
    if is_blank(status) {
        Ok(())
    } else {
        Err(
            WorkspaceError::Io(
                "repository checkout is dirty; commit or stash before hosting a session".to_owned(),
            ),
        )
    }
}

/// The branch that a session works on.
pub fn branch_name(session: &str) -> (r: String)
    ensures
        r@ == "kontur/"@ + session@,
{
    "kontur/".to_owned().concat(session)
}

/// The directory of a session's worktree, apart from that of any other process.
pub fn worktree_name(session: &str, process: u32) -> (r: String)
    ensures
        r@ == "kontur-wt-"@ + session@ + "-"@ + decimal_spec(process as nat),
{
    let number = decimal(process as u64);
    "kontur-wt-".to_owned().concat(session).concat("-").concat(number.as_str())
}

/// The session of one agent of a fleet.
pub fn agent_session(session: &str, agent: &str) -> (r: String)
    ensures
        r@ == session@ + "-"@ + agent@,
{
    session.to_owned().concat("-").concat(agent)
}

/// The message of the commit that an accepted task becomes.
pub fn task_commit(task_id: &TaskId) -> (r: String)
    ensures
        r@ == "kontur: task "@ + task_id@,
{
    "kontur: task ".to_owned().concat(task_id.0.as_str())
}

/// The commits of a branch that its base lacks.
pub fn revision_range(base: &str, branch: &str) -> (r: String)
    ensures
        r@ == base@ + ".."@ + branch@,
{
    base.to_owned().concat("..").concat(branch)
}

/// Has a branch nothing to land? `count` is what `git rev-list --count` prints.
/// An empty merge would be an error, so such a branch is skipped.
pub fn nothing_to_land(count: &str) -> (r: bool)
    ensures
        r == (trimmed(count@) == "0"@),
{
    trim(count) == "0".to_owned()
}

/// The diff that operators review, from what git prints of the staged changes.
/// A task without changes has none.
pub fn staged_diff(task_id: &TaskId, diff: Vec<u8>, numstat: &str) -> (r: Result<
    FrozenDiff,
    WorkspaceError,
>)
    ensures
        match r {
            Ok(frozen) => {
                &&& diff@.len() > 0
                &&& frozen.bytes@ == diff@
                &&& texts(frozen.files@) == numstat_files(lines_spec(numstat@))
                &&& frozen.loc == if numstat_added(lines_spec(numstat@)) <= u32::MAX {
                    numstat_added(lines_spec(numstat@))
                } else {
                    u32::MAX as nat
                }
            },
            Err(e) => diff@.len() == 0 && (e matches WorkspaceError::UnknownTask(words) && words@
                == task_id@),
        },
{
    if diff.len() == 0 {
        return Err(WorkspaceError::UnknownTask(task_id.0.clone()));
    }
    let (files, loc) = parse_numstat(numstat);
    Ok(FrozenDiff { bytes: diff, files, loc })
}

/// The diff that operators review, from the files that a task has written, as
/// they now are. A task that has written nothing has none.
pub fn written_diff(task_id: &TaskId, files: &Vec<FileWrite>) -> (r: Result<
    FrozenDiff,
    WorkspaceError,
>)
    ensures
        match r {
            Ok(frozen) => files@.len() > 0 && freezes(file_views(files@), frozen),
            Err(e) => files@.len() == 0 && (e matches WorkspaceError::UnknownTask(words) && words@
                == task_id@),
        },
{
    if files.len() == 0 {
        return Err(WorkspaceError::UnknownTask(task_id.0.clone()));
    }
    Ok(freeze_files(files))
}

/// Agents of one session work on branches of their own.
pub proof fn agents_have_their_own_branches(session: Seq<char>, a: Seq<char>, b: Seq<char>)
    requires
        a != b,
    ensures
        "kontur/"@ + (session + "-"@ + a) != "kontur/"@ + (session + "-"@ + b),
{
    let x = "kontur/"@ + (session + "-"@ + a);
    let y = "kontur/"@ + (session + "-"@ + b);
    let n = "kontur/"@.len() + session.len() + "-"@.len();
    assert(x.skip(n as int) =~= a);
    assert(y.skip(n as int) =~= b);
}

/// No character of the text is space.
pub open spec fn solid(s: Seq<char>) -> bool {
    s.len() > 0 && forall|i: int| 0 <= i < s.len() ==> !is_space(#[trigger] s[i])
}

proof fn numerals_are_solid(n: nat)
    ensures
        solid(decimal_spec(n)),
    decreases n,
{
    if n < 10 {
        numerals_are_decimal(0, n);
        visible_characters_are_no_space((48 + n) as char);
    } else {
        let d = n % 10;
        numerals_are_solid(n / 10);
        numerals_are_decimal(n / 10, d);
        assert(10 * (n / 10) + d == n);
        visible_characters_are_no_space((48 + d) as char);
        let shorter = decimal_spec(n / 10);
        assert forall|i: int| 0 <= i < decimal_spec(n).len() implies !is_space(
            #[trigger] decimal_spec(n)[i],
        ) by {
            if i < shorter.len() {
                assert(decimal_spec(n)[i] == shorter[i]);
            }
        }
    }
}

proof fn rows_have_three_words(a: Seq<char>, b: Seq<char>, c: Seq<char>)
    requires
        solid(a),
        solid(b),
        solid(c),
    ensures
        words_spec(a + seq!['\t'] + (b + seq!['\t'] + c)) == seq![a, b, c],
{
    visible_characters_are_no_space('\t');
    solid_text_is_one_word(a);
    solid_text_is_one_word(b);
    solid_text_is_one_word(c);
    space_parts_words(a, '\t', b + seq!['\t'] + c);
    space_parts_words(b, '\t', c);
    assert(seq![a] + (seq![b] + seq![c]) =~= seq![a, b, c]);
}

/// Every row of a summary names its file and adds its added lines: a row is the
/// lines added, the lines removed and the file, with tabs between them. Of a
/// binary file, whose counts are dashes, only the name is taken.
pub proof fn rows_name_a_file_and_add_lines(
    lines: Seq<Seq<char>>,
    added: nat,
    removed: Seq<char>,
    file: Seq<char>,
)
    requires
        added <= u32::MAX,
        solid(removed),
        solid(file),
    ensures
        ({
            let row = decimal_spec(added) + seq!['\t'] + (removed + seq!['\t'] + file);
            &&& numstat_files(lines.push(row)) == numstat_files(lines).push(file)
            &&& numstat_added(lines.push(row)) == numstat_added(lines) + added
        }),
        ({
            let row = seq!['-'] + seq!['\t'] + (removed + seq!['\t'] + file);
            &&& numstat_files(lines.push(row)) == numstat_files(lines).push(file)
            &&& numstat_added(lines.push(row)) == numstat_added(lines)
        }),
        numstat_files(Seq::empty()).len() == 0,
        numstat_added(Seq::empty()) == 0,
{
    let row = decimal_spec(added) + seq!['\t'] + (removed + seq!['\t'] + file);
    numerals_are_solid(added);
    rows_have_three_words(decimal_spec(added), removed, file);
    numerals_are_read_back(added, seq!['-']);
    assert(lines.push(row).drop_last() =~= lines);
    let dashed = seq!['-'] + seq!['\t'] + (removed + seq!['\t'] + file);
    visible_characters_are_no_space('-');
    assert(solid(seq!['-']));
    rows_have_three_words(seq!['-'], removed, file);
    assert(lines.push(dashed).drop_last() =~= lines);
}

/// A line that is no row, for want of three words, names no file and adds
/// nothing.
pub proof fn short_lines_are_no_rows(lines: Seq<Seq<char>>, line: Seq<char>)
    requires
        words_spec(line).len() < 3,
    ensures
        numstat_files(lines.push(line)) == numstat_files(lines),
        numstat_added(lines.push(line)) == numstat_added(lines),
{
    assert(lines.push(line).drop_last() =~= lines);
}

/// What a task has written is its own list, and none where it wrote nothing.
pub proof fn written_paths_are_the_tasks_own(
    written: Map<Seq<char>, Seq<Seq<char>>>,
    task: Seq<char>,
)
    ensures
        written.contains_key(task) ==> written_by(written, task) == written[task],
        !written.contains_key(task) ==> written_by(written, task).len() == 0,
{
}

} // verus!

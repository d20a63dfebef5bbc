//! Unified-diff text: per-file sections and per-file caps.
use vstd::prelude::*;

use crate::text::{
    begins_with, chars_of, line_texts, lines_of, lines_spec, slice_of, text_of,
};
use crate::text_laws::{
    bare_lines, first_line_stands_first, lines_make_the_text_again, with_line_feeds,
};

verus! {

/// One file's section of a unified diff.
#[derive(Clone, PartialEq, Eq, Debug)]
pub struct FileDiff {
    pub path: String,
    pub diff: String,
}

/// A section starts at this line.
pub open spec fn is_header(line: Seq<char>) -> bool {
    "diff --git "@.is_prefix_of(line)
}

/// The lines of each section: a header opens a section, and what follows
/// belongs to it. Lines before the first header belong to none.
pub open spec fn sections_spec(lines: Seq<Seq<char>>) -> Seq<Seq<Seq<char>>>
    decreases lines.len(),
{
    if lines.len() == 0 {
        seq![]
    } else {
        let before = sections_spec(lines.drop_last());
        if is_header(lines.last()) {
            before.push(seq![lines.last()])
        } else if before.len() == 0 {
            before
        } else {
            before.update(before.len() - 1, before.last().push(lines.last()))
        }
    }
}

/// The text of a sequence of lines, each with a line feed after it.
pub open spec fn lines_text(lines: Seq<Seq<char>>) -> Seq<char>
    decreases lines.len(),
{
    if lines.len() == 0 {
        seq![]
    } else {
        lines_text(lines.drop_last()) + lines.last() + seq!['\n']
    }
}

/// The path that a file line names after its marker, without the `b/` or `a/`
/// before it; `/dev/null` and nothing name none.
pub open spec fn named_path(rest: Seq<char>) -> Option<Seq<char>> {
    let p = if "b/"@.is_prefix_of(rest) {
        rest.skip("b/"@.len() as int)
    } else if "a/"@.is_prefix_of(rest) {
        rest.skip("a/"@.len() as int)
    } else {
        rest
    };
    if p != "/dev/null"@ && p.len() > 0 {
        Some(p)
    } else {
        None
    }
}

/// The path that the first fitting line with this marker names.
pub open spec fn first_path(lines: Seq<Seq<char>>, marker: Seq<char>) -> Option<Seq<char>>
    decreases lines.len(),
{
    if lines.len() == 0 {
        None
    } else if marker.is_prefix_of(lines[0]) && named_path(lines[0].skip(marker.len() as int))
        is Some {
        named_path(lines[0].skip(marker.len() as int))
    } else {
        first_path(lines.skip(1), marker)
    }
}

/// The path of a section: its post-image path, else its pre-image path.
pub open spec fn section_path_spec(section: Seq<char>) -> Option<Seq<char>> {
    let lines = lines_spec(section);
    if first_path(lines, "+++ "@) is Some {
        first_path(lines, "+++ "@)
    } else {
        first_path(lines, "--- "@)
    }
}

/// A section as a file diff.
pub open spec fn file_diff_spec(section: Seq<char>) -> (Seq<char>, Seq<char>) {
    (
        match section_path_spec(section) {
            Some(p) => p,
            None => "?"@,
        },
        section,
    )
}

/// The path and the text of each file diff.
pub open spec fn file_diff_views(v: Seq<FileDiff>) -> Seq<(Seq<char>, Seq<char>)> {
    v.map_values(|d: FileDiff| (d.path@, d.diff@))
}

/// The per-file sections of a unified diff.
pub open spec fn split_spec(diff: Seq<char>) -> Seq<(Seq<char>, Seq<char>)> {
    sections_spec(lines_spec(diff)).map_values(
        |section: Seq<Seq<char>>| file_diff_spec(lines_text(section)),
    )
}

/// The same, or the whole text under another path where it has no sections.
pub open spec fn split_or_whole_spec(
    diff: Seq<char>,
    fallback_path: Seq<char>,
) -> Seq<(Seq<char>, Seq<char>)> {
    if split_spec(diff).len() == 0 && diff.len() > 0 {
        seq![(fallback_path, diff)]
    } else {
        split_spec(diff)
    }
}

/// Append a line and its line feed.
fn push_line(section: &mut String, line: &Vec<char>)
    ensures
        final(section)@ == old(section)@ + line@ + seq!['\n'],
{
    let t = text_of(line, 0, line.len());
    section.append(t.as_str());
    section.push('\n');
}

/// The texts of sections.
spec fn section_texts(sections: Seq<Seq<Seq<char>>>) -> Seq<Seq<char>> {
    sections.map_values(|s: Seq<Seq<char>>| lines_text(s))
}

/// Split a unified diff into per-file sections.
///
/// Sections start at `diff --git` lines. The path is taken from the section's
/// `+++ b/<path>` line; for deletions (`+++ /dev/null`) it falls back to the
/// `--- a/<path>` line. Text before the first `diff --git` line (if any) is
/// dropped: git does not emit any.
pub fn split_file_diffs(diff: &str) -> (r: Vec<FileDiff>)
    ensures
        file_diff_views(r@) == split_spec(diff@),
{
    let lines = lines_of(diff);
    let ghost all = lines_spec(diff@);
    let mut sections: Vec<String> = Vec::new();
    let mut i: usize = 0;
    while i < lines.len()
        invariant
            0 <= i <= lines.len(),
            all == line_texts(lines@),
            crate::text::texts(sections@) == section_texts(sections_spec(all.take(i as int))),
        decreases lines.len() - i,
    {
        let line = &lines[i];
        let ghost step = all.take(i as int + 1);
        let ghost before = sections_spec(all.take(i as int));
        let ghost shown = crate::text::texts(sections@);
        assert(step.drop_last() =~= all.take(i as int));
        assert(section_texts(before).len() == before.len());
        if begins_with(line, "diff --git ") {
            let mut fresh = String::new();
            push_line(&mut fresh, line);
            let ghost one: Seq<Seq<char>> = seq![line@];
            assert(lines_text(one.drop_last()) =~= seq![]);
            sections.push(fresh);
            assert(section_texts(sections_spec(step)) =~= section_texts(before).push(
                lines_text(one),
            ));
        } else if sections.len() > 0 {
            let at: usize = sections.len() - 1;
            let mut section = sections[at].clone();
            push_line(&mut section, line);
            let ghost longer = before.last().push(line@);
            assert(longer.drop_last() =~= before.last());
            assert(shown[at as int] == lines_text(before[at as int]));
            assert(section@ =~= lines_text(longer));
            sections[at] = section;
            assert(crate::text::texts(sections@) =~= shown.update(at as int, lines_text(longer)));
            assert(section_texts(sections_spec(step)) =~= section_texts(before).update(
                at as int,
                lines_text(longer),
            ));
        }
        i = i + 1;
    }
    assert(all.take(lines@.len() as int) =~= all);
    let mut out: Vec<FileDiff> = Vec::new();
    let mut k: usize = 0;
    while k < sections.len()
        invariant
            0 <= k <= sections.len(),
            crate::text::texts(sections@) == section_texts(sections_spec(all)),
            all == lines_spec(diff@),
            out@.len() == k,
            forall|j: int| 0 <= j < k ==> file_diff_views(out@)[j] == split_spec(diff@)[j],
        decreases sections.len() - k,
    {
        assert(crate::text::texts(sections@)[k as int] == sections@[k as int]@);
        assert(section_texts(sections_spec(all)).len() == sections_spec(all).len());
        assert(sections@[k as int]@ == lines_text(sections_spec(all)[k as int]));
        let ghost shown = file_diff_views(out@);
        let fd = section_to_file_diff(sections[k].clone());
        assert((fd.path@, fd.diff@) == split_spec(diff@)[k as int]);
        out.push(fd);
        assert(forall|j: int|
            0 <= j < k ==> file_diff_views(out@)[j] == #[trigger] shown[j]);
        k = k + 1;
    }
    assert(crate::text::texts(sections@).len() == sections@.len());
    assert(section_texts(sections_spec(all)).len() == sections_spec(all).len());
    assert(file_diff_views(out@) =~= split_spec(diff@));
    out
}

fn section_to_file_diff(section: String) -> (r: FileDiff)
    ensures
        (r.path@, r.diff@) == file_diff_spec(section@),
{
    let path = match section_path(section.as_str()) {
        Some(p) => p,
        None => "?".to_owned(),
    };
    FileDiff { path, diff: section }
}

/// The path that a file line names after its marker.
fn strip_path(rest: Vec<char>) -> (r: Option<String>)
    ensures
        match r {
            Some(p) => named_path(rest@) == Some(p@),
            None => named_path(rest@) is None,
        },
{
    proof {
        reveal_strlit("b/");
        reveal_strlit("a/");
    }
    let start: usize = if begins_with(&rest, "b/") || begins_with(&rest, "a/") {
        2
    } else {
        0
    };
    let p = text_of(&rest, start, rest.len());
    assert(rest@.skip(0) =~= rest@);
    let nowhere = "/dev/null".to_owned();
    if p == nowhere || start == rest.len() {
        None
    } else {
        Some(p)
    }
}

/// The path that the first fitting line with this marker names.
fn find_path(lines: &Vec<Vec<char>>, marker: &str) -> (r: Option<String>)
    ensures
        match r {
            Some(p) => first_path(line_texts(lines@), marker@) == Some(p@),
            None => first_path(line_texts(lines@), marker@) is None,
        },
{
    let ghost all = line_texts(lines@);
    let skip: usize = chars_of(marker).len();
    let mut i: usize = 0;
    assert(all.skip(0) =~= all);
    while i < lines.len()
        invariant
            0 <= i <= lines.len(),
            all == line_texts(lines@),
            skip == marker@.len(),
            first_path(all, marker@) == first_path(all.skip(i as int), marker@),
        decreases lines.len() - i,
    {
        let line = &lines[i];
        assert(all.skip(i as int).skip(1) =~= all.skip(i as int + 1));
        if begins_with(line, marker) {
            let rest = slice_of(line, skip, line.len());
            match strip_path(rest) {
                Some(p) => {
                    return Some(p);
                },
                None => {},
            }
        }
        i = i + 1;
    }
    None
}

/// The path of a section: prefer the post-image path; fall back to the
/// pre-image path (deletions).
fn section_path(section: &str) -> (r: Option<String>)
    ensures
        match r {
            Some(p) => section_path_spec(section@) == Some(p@),
            None => section_path_spec(section@) is None,
        },
{
    let lines = lines_of(section);
    match find_path(&lines, "+++ ") {
        Some(p) => Some(p),
        None => find_path(&lines, "--- "),
    }
}

/// Like [`split_file_diffs`], but if the text carries no `diff --git`
/// markers (the in-memory workspace freezes a canonical `path\0contents`
/// encoding, not a unified diff) the whole text becomes one section under
/// `fallback_path`, so it still reaches the operator instead of vanishing.
pub fn split_file_diffs_or_whole(diff: &str, fallback_path: &str) -> (r: Vec<FileDiff>)
    ensures
        file_diff_views(r@) == split_or_whole_spec(diff@, fallback_path@),
{
    let sections = split_file_diffs(diff);
    if sections.len() == 0 && !diff.is_empty() {
        let mut whole: Vec<FileDiff> = Vec::new();
        whole.push(FileDiff { path: fallback_path.to_owned(), diff: diff.to_owned() });
        return whole;
    }
    sections
}

/// The lines of all sections, one after another.
pub open spec fn all_lines(sections: Seq<Seq<Seq<char>>>) -> Seq<Seq<char>>
    decreases sections.len(),
{
    if sections.len() == 0 {
        seq![]
    } else {
        all_lines(sections.drop_last()) + sections.last()
    }
}

/// Splitting loses and reorders nothing from the first header on: the lines of
/// the sections, one after another, are the diff's own lines from there to the
/// end, and each section starts with its header.
pub proof fn sections_keep_every_line(lines: Seq<Seq<char>>)
    ensures
        ({
            let kept = all_lines(sections_spec(lines));
            let from = lines.len() - kept.len();
            &&& kept.len() <= lines.len()
            &&& kept == lines.skip(from)
            &&& forall|j: int| 0 <= j < from ==> !is_header(#[trigger] lines[j])
        }),
        forall|i: int|
            0 <= i < sections_spec(lines).len() ==> (#[trigger] sections_spec(lines)[i]).len() > 0
                && is_header(sections_spec(lines)[i][0]),
    decreases lines.len(),
{
    if lines.len() > 0 {
        let shorter = lines.drop_last();
        let last = lines.last();
        sections_keep_every_line(shorter);
        let before = sections_spec(shorter);
        let now = sections_spec(lines);
        let kept = all_lines(before);
        let from = shorter.len() - kept.len();
        if is_header(last) {
            assert(now.drop_last() =~= before);
        } else if before.len() == 0 {
            assert forall|j: int| 0 <= j < lines.len() implies !is_header(#[trigger] lines[j]) by {
                if j < shorter.len() {
                    assert(shorter[j] == lines[j]);
                }
            }
        } else {
            assert(now.drop_last() =~= before.drop_last());
            assert(all_lines(now) =~= kept + seq![last]);
            assert(all_lines(now) =~= lines.skip(from));
        }
        assert forall|i: int| 0 <= i < now.len() implies (#[trigger] now[i]).len() > 0
            && is_header(now[i][0]) by {
            if i < before.len() {
                assert(before[i].len() > 0 && is_header(before[i][0]));
                if i == before.len() - 1 && !is_header(last) {
                    assert(now[i] == before[i].push(last));
                } else {
                    assert(now[i] == before[i]);
                }
            }
        }
        let count = all_lines(now).len();
        assert forall|j: int| 0 <= j < lines.len() - count implies !is_header(
            #[trigger] lines[j],
        ) by {
            assert(shorter.len() > j ==> shorter[j] == lines[j]);
        }
    }
}

/// The texts of file diffs, one after another.
pub open spec fn one_after_another(diffs: Seq<(Seq<char>, Seq<char>)>) -> Seq<char>
    decreases diffs.len(),
{
    if diffs.len() == 0 {
        seq![]
    } else {
        one_after_another(diffs.drop_last()) + diffs.last().1
    }
}

/// A line more at the end is its text more at the end.
proof fn line_feeds_add_up(a: Seq<Seq<char>>, b: Seq<Seq<char>>)
    ensures
        with_line_feeds(a + b) == with_line_feeds(a) + with_line_feeds(b),
    decreases a.len(),
{
    if a.len() == 0 {
        assert(a + b =~= b);
        assert(with_line_feeds(a) + with_line_feeds(b) =~= with_line_feeds(b));
    } else {
        line_feeds_add_up(a.skip(1), b);
        assert((a + b).skip(1) =~= a.skip(1) + b);
        assert(with_line_feeds(a + b) =~= with_line_feeds(a) + with_line_feeds(b));
    }
}

/// The text of a section is its lines, each with its line feed.
pub proof fn section_text_is_its_lines(lines: Seq<Seq<char>>)
    ensures
        lines_text(lines) == with_line_feeds(lines),
    decreases lines.len(),
{
    if lines.len() > 0 {
        let shorter = lines.drop_last();
        section_text_is_its_lines(shorter);
        let one = seq![lines.last()];
        line_feeds_add_up(shorter, one);
        assert(shorter + one =~= lines);
        assert(one.skip(1) =~= seq![]);
        assert(with_line_feeds(one) =~= lines.last() + seq!['\n']) by {
            assert(with_line_feeds(one.skip(1)) =~= seq![]);
        }
        assert(lines_text(lines) =~= with_line_feeds(lines));
    }
}

proof fn sections_text_is_their_lines(sections: Seq<Seq<Seq<char>>>)
    ensures
        one_after_another(
            sections.map_values(|section: Seq<Seq<char>>| file_diff_spec(lines_text(section))),
        ) == with_line_feeds(all_lines(sections)),
    decreases sections.len(),
{
    let shown = |section: Seq<Seq<char>>| file_diff_spec(lines_text(section));
    let diffs = sections.map_values(shown);
    if sections.len() > 0 {
        let shorter = sections.drop_last();
        sections_text_is_their_lines(shorter);
        assert(diffs.drop_last() =~= shorter.map_values(shown));
        section_text_is_its_lines(sections.last());
        line_feeds_add_up(all_lines(shorter), sections.last());
    }
}

/// Splitting a diff loses no character of it: where it starts with a header and
/// its lines end in bare line feeds, the texts of the sections, one after
/// another, are the diff.
pub proof fn sections_make_the_diff_again(diff: Seq<char>)
    requires
        "diff --git "@.is_prefix_of(diff),
        bare_lines(diff),
    ensures
        one_after_another(split_spec(diff)) == diff,
{
    let lines = lines_spec(diff);
    lines_make_the_text_again(diff);
    reveal_strlit("diff --git ");
    assert(diff.len() > 0);
    crate::text::line_len_bounds(diff);
    let n = crate::text::line_len(diff) as int;
    assert(n >= "diff --git "@.len()) by {
        if n < "diff --git "@.len() {
            assert(diff[n] == "diff --git "@[n]);
        }
    }
    assert(diff[diff.len() - 1] == '\n');
    first_line_stands_first(diff, n);
    assert(diff[n] == '\n');
    assert(lines[0] == diff.take(n));
    assert("diff --git "@.is_prefix_of(lines[0]));
    sections_keep_every_line(lines);
    sections_text_is_their_lines(sections_spec(lines));
    let kept = all_lines(sections_spec(lines));
    let from = lines.len() - kept.len();
    assert(from == 0) by {
        if from > 0 {
            assert(!is_header(lines[0]));
        }
    }
    assert(lines.skip(0) =~= lines);
}

/// Whatever comes before the first header is all that splitting drops: the texts
/// of the sections, one after another, are the rest of the diff from there on.
pub proof fn sections_make_the_rest_again(diff: Seq<char>)
    requires
        bare_lines(diff),
    ensures
        exists|n: int|
            0 <= n <= diff.len() && one_after_another(split_spec(diff)) == #[trigger] diff.skip(n)
                && exists|before: Seq<Seq<char>>|
                #[trigger] with_line_feeds(before) == diff.take(n) && forall|i: int|
                    0 <= i < before.len() ==> !"diff --git "@.is_prefix_of(#[trigger] before[i]),
{
    let lines = lines_spec(diff);
    lines_make_the_text_again(diff);
    sections_keep_every_line(lines);
    sections_text_is_their_lines(sections_spec(lines));
    let kept = all_lines(sections_spec(lines));
    let from = lines.len() - kept.len();
    let before = lines.take(from);
    line_feeds_add_up(before, lines.skip(from));
    assert(before + lines.skip(from) =~= lines);
    let n = with_line_feeds(before).len() as int;
    assert(diff.take(n) =~= with_line_feeds(before));
    assert(diff.skip(n) =~= with_line_feeds(kept));
    assert forall|i: int| 0 <= i < before.len() implies !"diff --git "@.is_prefix_of(
        #[trigger] before[i],
    ) by {
        assert(!is_header(lines[i]));
    }
}

/// Every section is one file's: it starts with a header line and no other line of
/// it is one.
pub proof fn sections_start_at_headers(lines: Seq<Seq<char>>)
    ensures
        forall|i: int|
            0 <= i < sections_spec(lines).len() ==> (#[trigger] sections_spec(lines)[i]).len() > 0
                && "diff --git "@.is_prefix_of(sections_spec(lines)[i][0]),
        forall|i: int, k: int|
            0 <= i < sections_spec(lines).len() && 0 < k < sections_spec(lines)[i].len()
                ==> !"diff --git "@.is_prefix_of(#[trigger] sections_spec(lines)[i][k]),
    decreases lines.len(),
{
    sections_keep_every_line(lines);
    if lines.len() > 0 {
        sections_start_at_headers(lines.drop_last());
        let before = sections_spec(lines.drop_last());
        let now = sections_spec(lines);
        assert forall|i: int, k: int|
            0 <= i < now.len() && 0 < k < now[i].len() implies !"diff --git "@.is_prefix_of(
            #[trigger] now[i][k],
        ) by {
            if i < before.len() && k < before[i].len() {
                assert(now[i][k] == before[i][k]);
            }
        }
    }
}

/// A section is shown under the path of its `+++ b/` line, where its first `+++`
/// line names one.
pub proof fn changed_files_are_named_by_their_new_path(
    section: Seq<char>,
    at: int,
    path: Seq<char>,
)
    requires
        0 <= at < lines_spec(section).len(),
        lines_spec(section)[at] == "+++ b/"@ + path,
        path.len() > 0,
        path != "/dev/null"@,
        forall|i: int|
            0 <= i < at ==> !"+++ "@.is_prefix_of(#[trigger] lines_spec(section)[i]),
    ensures
        file_diff_spec(section) == (path, section),
{
    let lines = lines_spec(section);
    reveal_strlit("+++ b/");
    reveal_strlit("+++ ");
    reveal_strlit("b/");
    let rest = lines[at].skip("+++ "@.len() as int);
    assert("+++ "@.is_prefix_of(lines[at]));
    assert(rest =~= "b/"@ + path);
    assert(rest.skip("b/"@.len() as int) =~= path);
    assert("b/"@.is_prefix_of(rest));
    path_is_found(lines, "+++ "@, at);
}

/// A deleted file's section is shown under the path of its `--- a/` line.
pub proof fn deleted_files_are_named_by_their_old_path(
    section: Seq<char>,
    at: int,
    path: Seq<char>,
)
    requires
        0 <= at < lines_spec(section).len(),
        lines_spec(section)[at] == "--- a/"@ + path,
        path.len() > 0,
        path != "/dev/null"@,
        forall|i: int|
            0 <= i < at ==> !"--- "@.is_prefix_of(#[trigger] lines_spec(section)[i]),
        forall|i: int|
            0 <= i < lines_spec(section).len() && "+++ "@.is_prefix_of(
                #[trigger] lines_spec(section)[i],
            ) ==> lines_spec(section)[i] == "+++ /dev/null"@,
    ensures
        file_diff_spec(section) == (path, section),
{
    let lines = lines_spec(section);
    reveal_strlit("--- a/");
    reveal_strlit("--- ");
    reveal_strlit("+++ ");
    reveal_strlit("+++ /dev/null");
    reveal_strlit("/dev/null");
    reveal_strlit("a/");
    reveal_strlit("b/");
    let rest = lines[at].skip("--- "@.len() as int);
    assert("--- "@.is_prefix_of(lines[at]));
    assert(rest =~= "a/"@ + path);
    assert(rest.skip("a/"@.len() as int) =~= path);
    assert("a/"@.is_prefix_of(rest));
    assert(!"b/"@.is_prefix_of(rest)) by {
        assert(rest[0] == 'a');
        assert("b/"@[0] == 'b');
    }
    path_is_found(lines, "--- "@, at);
    assert("+++ /dev/null"@.skip("+++ "@.len() as int) =~= "/dev/null"@);
    assert(!"b/"@.is_prefix_of("/dev/null"@)) by {
        assert("/dev/null"@[0] == '/');
        assert("b/"@[0] == 'b');
    }
    assert(!"a/"@.is_prefix_of("/dev/null"@)) by {
        assert("/dev/null"@[0] == '/');
        assert("a/"@[0] == 'a');
    }
    no_path_is_found(lines, "+++ "@);
}

/// A section that names no file is shown under a question mark.
pub proof fn nameless_sections_are_marked(section: Seq<char>)
    requires
        forall|i: int|
            0 <= i < lines_spec(section).len() ==> !"+++ "@.is_prefix_of(
                #[trigger] lines_spec(section)[i],
            ) && !"--- "@.is_prefix_of(lines_spec(section)[i]),
    ensures
        file_diff_spec(section) == ("?"@, section),
{
    no_path_is_found(lines_spec(section), "+++ "@);
    no_path_is_found(lines_spec(section), "--- "@);
}

proof fn path_is_found(lines: Seq<Seq<char>>, marker: Seq<char>, at: int)
    requires
        0 <= at < lines.len(),
        marker.is_prefix_of(lines[at]),
        named_path(lines[at].skip(marker.len() as int)) is Some,
        forall|i: int| 0 <= i < at ==> !marker.is_prefix_of(#[trigger] lines[i]),
    ensures
        first_path(lines, marker) == named_path(lines[at].skip(marker.len() as int)),
    decreases at,
{
    if at > 0 {
        let rest = lines.skip(1);
        assert(!marker.is_prefix_of(lines[0]));
        assert(rest[at - 1] == lines[at]);
        assert forall|i: int| 0 <= i < at - 1 implies !marker.is_prefix_of(#[trigger] rest[i]) by {
            assert(rest[i] == lines[i + 1]);
        }
        path_is_found(rest, marker, at - 1);
    }
}

proof fn no_path_is_found(lines: Seq<Seq<char>>, marker: Seq<char>)
    requires
        forall|i: int|
            0 <= i < lines.len() ==> !marker.is_prefix_of(#[trigger] lines[i]) || named_path(
                lines[i].skip(marker.len() as int),
            ) is None,
    ensures
        first_path(lines, marker) is None,
    decreases lines.len(),
{
    if lines.len() > 0 {
        let rest = lines.skip(1);
        assert(!marker.is_prefix_of(lines[0]) || named_path(lines[0].skip(marker.len() as int))
            is None);
        assert forall|i: int| 0 <= i < rest.len() implies !marker.is_prefix_of(#[trigger] rest[i])
            || named_path(rest[i].skip(marker.len() as int)) is None by {
            assert(rest[i] == lines[i + 1]);
        }
        no_path_is_found(rest, marker);
    }
}

/// A diff without headers still reaches the operators, whole and under the other
/// path; one with headers is shown by its sections alone.
pub proof fn a_diff_without_headers_is_shown_whole(diff: Seq<char>, fallback_path: Seq<char>)
    ensures
        diff.len() > 0 && (forall|i: int|
            0 <= i < lines_spec(diff).len() ==> !"diff --git "@.is_prefix_of(
                #[trigger] lines_spec(diff)[i],
            )) ==> split_or_whole_spec(diff, fallback_path) == seq![(fallback_path, diff)],
        (exists|i: int|
            0 <= i < lines_spec(diff).len() && "diff --git "@.is_prefix_of(
                #[trigger] lines_spec(diff)[i],
            )) ==> split_or_whole_spec(diff, fallback_path) == split_spec(diff)
            && split_spec(diff).len() > 0,
        diff.len() == 0 ==> split_or_whole_spec(diff, fallback_path).len() == 0,
{
    let lines = lines_spec(diff);
    sections_keep_every_line(lines);
    let kept = all_lines(sections_spec(lines));
    let from = lines.len() - kept.len();
    if forall|i: int| 0 <= i < lines.len() ==> !"diff --git "@.is_prefix_of(#[trigger] lines[i]) {
        if sections_spec(lines).len() > 0 {
            let last = sections_spec(lines).len() - 1;
            assert(sections_spec(lines)[last].len() > 0);
            sections_start_at_headers(lines);
            first_line_is_kept(sections_spec(lines));
            assert(kept[0] == lines[from]);
        }
    }
    if exists|i: int| 0 <= i < lines.len() && "diff --git "@.is_prefix_of(#[trigger] lines[i]) {
        let i = choose|i: int|
            0 <= i < lines.len() && "diff --git "@.is_prefix_of(#[trigger] lines[i]);
        assert(is_header(lines[i]));
        assert(kept.len() > 0);
    }
}

proof fn first_line_is_kept(sections: Seq<Seq<Seq<char>>>)
    requires
        sections.len() > 0,
        sections[0].len() > 0,
    ensures
        all_lines(sections).len() > 0,
        all_lines(sections)[0] == sections[0][0],
    decreases sections.len(),
{
    if sections.len() > 1 {
        first_line_is_kept(sections.drop_last());
    } else {
        assert(all_lines(sections.drop_last()) =~= seq![]);
    }
}

/// A file line names its path without the side before it; `/dev/null` names none,
/// and nor does nothing.
pub proof fn paths_are_named_without_their_side(path: Seq<char>)
    requires
        path.len() > 0,
        path != "/dev/null"@,
    ensures
        named_path("b/"@ + path) == Some(path),
        named_path("a/"@ + path) == Some(path),
        !"a/"@.is_prefix_of(path) && !"b/"@.is_prefix_of(path) ==> named_path(path) == Some(path),
        named_path("/dev/null"@) is None,
        named_path(Seq::empty()) is None,
        named_path("a/"@) is None,
        named_path("b/"@) is None,
{
    reveal_strlit("a/");
    reveal_strlit("b/");
    reveal_strlit("/dev/null");
    assert("a/"@[0] == 'a' && "b/"@[0] == 'b' && "/dev/null"@[0] == '/');
    let a = "a/"@ + path;
    let b = "b/"@ + path;
    assert(a[0] == 'a' && b[0] == 'b');
    assert(a.skip("a/"@.len() as int) =~= path);
    assert(b.skip("b/"@.len() as int) =~= path);
    assert("a/"@.is_prefix_of(a));
    assert("b/"@.is_prefix_of(b));
    assert(!"b/"@.is_prefix_of(a));
    assert(!"a/"@.is_prefix_of("/dev/null"@) && !"b/"@.is_prefix_of("/dev/null"@));
    assert(!"b/"@.is_prefix_of("a/"@));
    assert("a/"@.is_prefix_of("a/"@) && "b/"@.is_prefix_of("b/"@));
    assert("a/"@.skip(2) =~= seq![] && "b/"@.skip(2) =~= seq![]);
}

/// Of the lines with a marker the first that names a path counts.
pub proof fn first_naming_line_counts(lines: Seq<Seq<char>>, marker: Seq<char>, at: int)
    requires
        0 <= at <= lines.len(),
        at < lines.len() ==> marker.is_prefix_of(lines[at]) && named_path(
            lines[at].skip(marker.len() as int),
        ) is Some,
        forall|i: int|
            0 <= i < at ==> !marker.is_prefix_of(#[trigger] lines[i]) || named_path(
                lines[i].skip(marker.len() as int),
            ) is None,
    ensures
        at < lines.len() ==> first_path(lines, marker) == named_path(
            lines[at].skip(marker.len() as int),
        ),
        at == lines.len() ==> first_path(lines, marker) is None,
    decreases at,
{
    if at > 0 {
        let rest = lines.skip(1);
        assert(!marker.is_prefix_of(lines[0]) || named_path(lines[0].skip(marker.len() as int))
            is None);
        assert forall|i: int| 0 <= i < at - 1 implies !marker.is_prefix_of(#[trigger] rest[i])
            || named_path(rest[i].skip(marker.len() as int)) is None by {
            assert(rest[i] == lines[i + 1]);
        }
        if at < lines.len() {
            assert(rest[at - 1] == lines[at]);
        }
        first_naming_line_counts(rest, marker, at - 1);
    }
}

/// Every section is shown under the path that its own lines name: the new path
/// where one is named, else the old one, else a question mark.
pub proof fn sections_are_shown_under_their_own_path(diff: Seq<char>, i: int)
    requires
        0 <= i < split_spec(diff).len(),
    ensures
        ({
            let (path, section) = split_spec(diff)[i];
            let new = first_path(lines_spec(section), "+++ "@);
            let old = first_path(lines_spec(section), "--- "@);
            &&& new is Some ==> path == new->Some_0
            &&& new is None && old is Some ==> path == old->Some_0
            &&& new is None && old is None ==> path == "?"@
        }),
{
}

/// However its lines end, a diff is shown from its first header on, line by line:
/// the texts of the sections, one after another, are those lines, each with a line
/// feed. `from` is where the first header stands.
pub proof fn sections_hold_every_line_from_the_first_header(diff: Seq<char>, from: int)
    requires
        0 <= from <= lines_spec(diff).len(),
        from < lines_spec(diff).len() ==> "diff --git "@.is_prefix_of(lines_spec(diff)[from]),
        forall|i: int|
            0 <= i < from ==> !"diff --git "@.is_prefix_of(#[trigger] lines_spec(diff)[i]),
    ensures
        one_after_another(split_spec(diff)) == with_line_feeds(lines_spec(diff).skip(from)),
{
    let lines = lines_spec(diff);
    sections_keep_every_line(lines);
    sections_text_is_their_lines(sections_spec(lines));
    sections_start_at_headers(lines);
    let sections = sections_spec(lines);
    let kept = all_lines(sections);
    let n = lines.len() - kept.len();
    assert(n == from) by {
        if from < n {
            assert(!is_header(lines[from]));
        }
        if n < from {
            if sections.len() > 0 {
                first_line_is_kept(sections);
                assert(kept[0] == lines[n]);
                assert(is_header(sections[0][0]));
                assert(is_header(lines[n]));
            } else {
                assert(kept.len() == 0);
            }
        }
    }
}

/// The texts of file diffs, one after another.
pub open spec fn diffs_text(v: Seq<FileDiff>) -> Seq<char>
    decreases v.len(),
{
    if v.len() == 0 {
        seq![]
    } else {
        diffs_text(v.drop_last()) + v.last().diff@
    }
}

proof fn diffs_text_is_theirs(v: Seq<FileDiff>)
    ensures
        diffs_text(v) == one_after_another(file_diff_views(v)),
    decreases v.len(),
{
    if v.len() > 0 {
        diffs_text_is_theirs(v.drop_last());
        assert(file_diff_views(v).drop_last() =~= file_diff_views(v.drop_last()));
    }
}

/// What a diff is split into loses no character of it: where it starts with a
/// header and its lines end in bare line feeds, the diffs of the files, one after
/// another, are the diff.
pub proof fn split_diffs_make_the_diff_again(v: Seq<FileDiff>, diff: Seq<char>)
    requires
        file_diff_views(v) == split_spec(diff),
        "diff --git "@.is_prefix_of(diff),
        bare_lines(diff),
    ensures
        diffs_text(v) == diff,
        v.len() == split_spec(diff).len(),
        forall|i: int| 0 <= i < v.len() ==> (#[trigger] v[i]).path@ == split_spec(diff)[i].0,
{
    diffs_text_is_theirs(v);
    sections_make_the_diff_again(diff);
    assert forall|i: int| 0 <= i < v.len() implies (#[trigger] v[i]).path@ == split_spec(
        diff,
    )[i].0 by {
        assert(file_diff_views(v)[i] == (v[i].path@, v[i].diff@));
    }
}

} // verus!

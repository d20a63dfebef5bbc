use kontur::clarify::{Choice, Clarify, Question};
use kontur::client::{stamp, SystemClock};
use kontur::codec::{frame, unframe, Line, MAX_LINE};
use kontur::difftext::{split_file_diffs, split_file_diffs_or_whole, FileDiff};
use kontur::error::WorkspaceError;
use kontur::fleet::FleetWorkspace;
use kontur::ids::{OperatorId, TaskId, Timestamp};
use kontur::provenance::build_provenance;
use kontur::server::wire::{cap_file_diff, wire_diffs};
use kontur::session::SessionContext;
use kontur::sign::Clock;
use kontur::tls::{check_pin, fingerprint, fingerprint16, fp16_hex, fp_hex, parse_fp_hex};
use kontur::workspace::{contained_join, diff_hash, FileWrite, InMemoryWorkspace, Workspace};
use kontur::worktree::{
    agent_session, branch_name, nothing_to_land, parse_numstat, preflight, revision_range,
    staged_diff, task_commit, worktree_name, written_diff, TaskOwners, TrackedPaths,
};

// ---------------------------------------------------------------------------
// Clarification
// ---------------------------------------------------------------------------

fn q(prompt: &str, options: &[&str]) -> Question {
    Question {
        prompt: prompt.into(),
        options: options.iter().map(|s| s.to_string()).collect(),
    }
}

#[test]
fn agreement_resolves_directly() {
    let mut c = Clarify::new(vec![q("target db?", &["postgres", "sqlite"])]);
    assert!(!c.is_resolved());
    c.answer(0, 0, Choice::Option(0));
    assert!(c.awaiting(1, 0));
    assert!(!c.awaiting(0, 0));
    c.answer(1, 0, Choice::Option(0));
    assert!(c.is_resolved());
    assert_eq!(c.resolved(), Some(vec![vec!["postgres".to_string()]]));
}

#[test]
fn custom_answer_is_used() {
    let mut c = Clarify::new(vec![q("target db?", &["postgres", "sqlite"])]);
    c.answer(0, 0, Choice::Custom("  mysql  ".into()));
    c.answer(1, 0, Choice::Custom("mysql".into()));
    assert_eq!(c.resolved(), Some(vec![vec!["mysql".to_string()]]));
}

#[test]
fn divergence_forces_reconciliation() {
    let mut c = Clarify::new(vec![q("target db?", &["postgres", "sqlite"])]);
    c.answer(0, 0, Choice::Option(0)); // postgres
    c.answer(1, 0, Choice::Option(1)); // sqlite
    assert!(!c.is_resolved());
    // Now reconciling: options are [postgres, sqlite, accept both].
    assert_eq!(c.options(0), vec!["postgres", "sqlite", "accept both"]);
    assert!(c.prompt(0).contains("operators differ"));
    assert!(!c.allows_custom(0));
    assert!(c.awaiting(0, 0) && c.awaiting(1, 0));

    // Both pick A's answer: resolved to postgres.
    c.answer(0, 0, Choice::Option(0));
    c.answer(1, 0, Choice::Option(0));
    assert_eq!(c.resolved(), Some(vec![vec!["postgres".to_string()]]));
}

#[test]
fn accept_both_yields_two_answers() {
    let mut c = Clarify::new(vec![q("which linters?", &["clippy", "rustfmt"])]);
    c.answer(0, 0, Choice::Option(0));
    c.answer(1, 0, Choice::Option(1));
    // Reconcile option 2 = accept both.
    c.answer(0, 0, Choice::Option(2));
    c.answer(1, 0, Choice::Option(2));
    assert_eq!(
        c.resolved(),
        Some(vec![vec!["clippy".to_string(), "rustfmt".to_string()]])
    );
}

#[test]
fn reconciliation_re_asks_on_continued_divergence() {
    let mut c = Clarify::new(vec![q("db?", &["pg", "sqlite"])]);
    c.answer(0, 0, Choice::Option(0));
    c.answer(1, 0, Choice::Option(1));
    // Reconcile but still disagree (A wants A's, B wants B's).
    c.answer(0, 0, Choice::Option(0));
    c.answer(1, 0, Choice::Option(1));
    assert!(!c.is_resolved(), "still diverging must re-ask, not resolve");
    assert!(c.awaiting(0, 0) && c.awaiting(1, 0));
    // Finally converge on accept-both.
    c.answer(0, 0, Choice::Option(2));
    c.answer(1, 0, Choice::Option(2));
    assert_eq!(
        c.resolved(),
        Some(vec![vec!["pg".to_string(), "sqlite".to_string()]])
    );
}

#[test]
fn multiple_questions_resolve_independently() {
    let mut c = Clarify::new(vec![
        q("db?", &["pg", "sqlite"]),
        q("auth?", &["oauth", "basic"]),
    ]);
    // Q0 agrees immediately; Q1 diverges then reconciles.
    c.answer(0, 0, Choice::Option(0));
    c.answer(1, 0, Choice::Option(0));
    c.answer(0, 1, Choice::Option(0));
    c.answer(1, 1, Choice::Option(1));
    assert!(!c.is_resolved(), "Q1 still reconciling");
    c.answer(0, 1, Choice::Option(1));
    c.answer(1, 1, Choice::Option(1));
    assert_eq!(
        c.resolved(),
        Some(vec![vec!["pg".to_string()], vec!["basic".to_string()],])
    );
}

#[test]
fn custom_texts_that_match_resolve_even_across_seats() {
    // A picks the "sqlite" option, B types "sqlite": same text, resolved.
    let mut c = Clarify::new(vec![q("db?", &["pg", "sqlite"])]);
    c.answer(0, 0, Choice::Option(1));
    c.answer(1, 0, Choice::Custom("sqlite".into()));
    assert_eq!(c.resolved(), Some(vec![vec!["sqlite".to_string()]]));
}

#[test]
fn a_settled_question_takes_no_more_answers() {
    let mut c = Clarify::new(vec![q("db?", &["pg", "sqlite"])]);
    assert_eq!((c.len(), c.is_empty()), (1, false));
    c.answer(0, 0, Choice::Option(1));
    assert_eq!(c.pick(0, 0), Some("sqlite".to_string()));
    assert_eq!(c.pick(1, 0), None);
    c.answer(1, 0, Choice::Option(1));
    c.answer(0, 0, Choice::Option(0));
    c.answer(1, 0, Choice::Option(0));
    assert_eq!(c.resolved_answer(0), Some(vec!["sqlite".to_string()]));
    // A question that is not there is nobody's to answer.
    c.answer(0, 7, Choice::Option(0));
    assert_eq!(c.resolved(), Some(vec![vec!["sqlite".to_string()]]));
    assert_eq!(c.resolved_answer(7), None);
}

// ---------------------------------------------------------------------------
// Diff text
// ---------------------------------------------------------------------------

const TWO_FILES: &str = "diff --git a/src/a.rs b/src/a.rs\n\
index 111..222 100644\n\
--- a/src/a.rs\n\
+++ b/src/a.rs\n\
@@ -1 +1 @@\n\
-old\n\
+new\n\
diff --git a/package-lock.json b/package-lock.json\n\
index 333..444 100644\n\
--- a/package-lock.json\n\
+++ b/package-lock.json\n\
@@ -1 +1,2 @@\n\
 {}\n\
+bulk\n";

#[test]
fn splits_into_one_section_per_file() {
    let sections = split_file_diffs(TWO_FILES);
    assert_eq!(sections.len(), 2);
    assert_eq!(sections[0].path, "src/a.rs");
    assert_eq!(sections[1].path, "package-lock.json");
    assert!(sections[0].diff.starts_with("diff --git a/src/a.rs"));
    assert!(sections[0].diff.contains("+new"));
    assert!(!sections[0].diff.contains("bulk"));
    assert!(sections[1].diff.contains("+bulk"));
}

#[test]
fn sections_give_back_the_diff() {
    let sections = split_file_diffs(TWO_FILES);
    assert_eq!(format!("{}{}", sections[0].diff, sections[1].diff), TWO_FILES);
}

#[test]
fn deletion_falls_back_to_pre_image_path() {
    let d = "diff --git a/gone.rs b/gone.rs\n\
deleted file mode 100644\n\
--- a/gone.rs\n\
+++ /dev/null\n\
@@ -1 +0,0 @@\n\
-fn gone() {}\n";
    let sections = split_file_diffs(d);
    assert_eq!(sections.len(), 1);
    assert_eq!(sections[0].path, "gone.rs");
}

#[test]
fn empty_diff_yields_no_sections() {
    assert!(split_file_diffs("").is_empty());
    assert!(split_file_diffs_or_whole("", "x").is_empty());
}

#[test]
fn non_unified_text_falls_back_to_one_whole_section() {
    let sections = split_file_diffs_or_whole("src/guard.rs\0contents\n", "src/guard.rs");
    assert_eq!(sections.len(), 1);
    assert_eq!(sections[0].path, "src/guard.rs");
    assert!(sections[0].diff.contains("contents"));
}

#[test]
fn new_file_uses_post_image_path() {
    let d = "diff --git a/fresh.rs b/fresh.rs\n\
new file mode 100644\n\
--- /dev/null\n\
+++ b/fresh.rs\n\
@@ -0,0 +1 @@\n\
+fn fresh() {}\n";
    let sections = split_file_diffs(d);
    assert_eq!(sections.len(), 1);
    assert_eq!(sections[0].path, "fresh.rs");
}

// A huge file truncates only itself; small files ride alongside untouched.
#[test]
fn cap_applies_per_file_not_across_files() {
    let small = FileDiff {
        path: "src/a.rs".into(),
        diff: "diff --git a/src/a.rs b/src/a.rs\n+small\n".into(),
    };
    let huge = FileDiff {
        path: "package-lock.json".into(),
        diff: format!("diff --git a/p b/p\n{}", "x".repeat(200)),
    };
    let capped_small = cap_file_diff(small, 100);
    let capped_huge = cap_file_diff(huge, 100);
    assert!(!capped_small.truncated);
    assert!(capped_small.diff.contains("+small"));
    assert!(capped_huge.truncated);
    assert!(capped_huge.diff.ends_with("… (diff truncated)"));
    assert!(capped_huge.diff.chars().count() < 200);
}

#[test]
fn a_cap_keeps_exactly_what_fits() {
    let fd = |diff: &str| FileDiff { path: "p".into(), diff: diff.into() };
    let at = cap_file_diff(fd("abcd"), 4);
    assert_eq!((at.diff.as_str(), at.truncated), ("abcd", false));
    let over = cap_file_diff(fd("abcde"), 4);
    assert_eq!((over.diff.as_str(), over.truncated), ("abcd\n… (diff truncated)", true));
}

#[test]
fn a_cap_counts_bytes_and_splits_no_character() {
    let fd = |diff: &str| FileDiff { path: "p".into(), diff: diff.into() };
    // Five bytes in two characters.
    let at = cap_file_diff(fd("é…"), 5);
    assert_eq!((at.diff.as_str(), at.truncated), ("é…", false));
    let over = cap_file_diff(fd("é…"), 4);
    assert_eq!((over.diff.as_str(), over.truncated), ("é\n… (diff truncated)", true));
    let wide = cap_file_diff(fd("😀"), 3);
    assert_eq!((wide.diff.as_str(), wide.truncated), ("\n… (diff truncated)", true));
}

#[test]
fn a_station_is_shown_64_kib_of_a_file() {
    let files = vec!["a.rs".to_string()];
    let whole = wire_diffs(Some("x".repeat(65_536).into_bytes()), &files);
    assert!(!whole[0].truncated);
    assert_eq!(whole[0].diff.len(), 65_536);
    // Fewer characters than that, but more bytes.
    let cut = wire_diffs(Some("é".repeat(40_000).into_bytes()), &files);
    assert!(cut[0].truncated);
    assert_eq!(cut[0].diff, format!("{}\n… (diff truncated)", "é".repeat(32_768)));
}

#[test]
fn wire_diffs_name_the_only_file() {
    let one = wire_diffs(Some(b"a.rs\0x\n".to_vec()), &vec!["a.rs".to_string()]);
    assert_eq!(one.len(), 1);
    assert_eq!(one[0].path, "a.rs");
    assert_eq!(one[0].diff, "a.rs\0x\n");
    assert!(wire_diffs(None, &vec![]).is_empty());
    let two = wire_diffs(Some(TWO_FILES.as_bytes().to_vec()), &vec![]);
    assert_eq!(two.len(), 2);
    assert_eq!(two[1].path, "package-lock.json");
}

// ---------------------------------------------------------------------------
// Workspace
// ---------------------------------------------------------------------------

fn tid() -> TaskId {
    TaskId("t1".into())
}

#[test]
fn records_writes_and_freezes_deterministically() {
    let mut ws = InMemoryWorkspace::new();
    ws.apply_write(&tid(), "a.rs", b"line1\nline2\n").unwrap();
    ws.apply_write(&tid(), "b.rs", b"x\n").unwrap();
    let f1 = ws.freeze_task_diff(&tid()).unwrap();
    let f2 = ws.freeze_task_diff(&tid()).unwrap();
    assert_eq!(f1, f2);
    assert_eq!(f1.files, vec!["a.rs".to_string(), "b.rs".to_string()]);
    assert_eq!(f1.loc, 3);
    assert_eq!(diff_hash(&f1), diff_hash(&f2));
}

#[test]
fn a_frozen_diff_is_paths_and_contents() {
    let mut ws = InMemoryWorkspace::new();
    ws.apply_write(&tid(), "a.rs", b"x\n").unwrap();
    ws.apply_write(&tid(), "b.rs", b"y").unwrap();
    let f = ws.freeze_task_diff(&tid()).unwrap();
    assert_eq!(f.bytes, b"a.rs\0x\n\nb.rs\0y\n".to_vec());
    assert_eq!(diff_hash(&f), kontur::canonical::sha256(b"a.rs\0x\n\nb.rs\0y\n"));
}

#[test]
fn accept_and_discard_are_observable() {
    let mut ws = InMemoryWorkspace::new();
    ws.apply_write(&tid(), "a.rs", b"x").unwrap();
    ws.accept_task(&tid()).unwrap();
    assert_eq!(ws.accepted_tasks(), vec![tid()]);
    assert!(ws.discarded_tasks().is_empty());
    assert_eq!(ws.file_contents(&tid(), "a.rs"), Some(b"x".to_vec()));
}

#[test]
fn freeze_uses_last_write_per_path() {
    let mut ws = InMemoryWorkspace::new();
    let t = TaskId("t1".into());
    ws.apply_write(&t, "a.rs", b"old\n").unwrap();
    ws.apply_write(&t, "a.rs", b"new\nnew2\n").unwrap();
    let f = ws.freeze_task_diff(&t).unwrap();
    assert_eq!(f.files, vec!["a.rs".to_string()]);
    assert_eq!(f.loc, 2); // last write's newline count; old write ignored
}

#[test]
fn freeze_unknown_task_errors() {
    let mut ws = InMemoryWorkspace::new();
    assert_eq!(
        ws.freeze_task_diff(&TaskId("nope".into())).unwrap_err(),
        WorkspaceError::UnknownTask("nope".into())
    );
}

#[test]
fn merge_session_records_message() {
    let mut ws = InMemoryWorkspace::new();
    assert!(ws.merged_message().is_none());
    ws.merge_session("session end\n\nReviewed-by: A").unwrap();
    assert_eq!(
        ws.merged_message(),
        Some("session end\n\nReviewed-by: A".to_string())
    );
}

#[test]
fn read_file_returns_last_write() {
    let mut ws = InMemoryWorkspace::new();
    let t = TaskId("t1".into());
    ws.apply_write(&t, "a.rs", b"v1\n").unwrap();
    ws.apply_write(&t, "a.rs", b"v2\n").unwrap();
    assert_eq!(ws.read_file(&t, "a.rs").unwrap(), Some(b"v2\n".to_vec()));
}

#[test]
fn read_file_returns_none_for_unknown_path() {
    let mut ws = InMemoryWorkspace::new();
    let t = TaskId("t1".into());
    ws.apply_write(&t, "a.rs", b"x\n").unwrap();
    assert_eq!(ws.read_file(&t, "b.rs").unwrap(), None);
}

#[test]
fn read_file_returns_none_for_unknown_task() {
    let mut ws = InMemoryWorkspace::new();
    // No writes at all: the task doesn't exist.
    assert_eq!(ws.read_file(&TaskId("ghost".into()), "x.rs").unwrap(), None);
}

#[test]
fn contained_join_accepts_normal_paths() {
    let root = "/repo";
    assert!(contained_join(root, "a/b.rs").is_ok());
    assert!(contained_join(root, "src/x/y.txt").is_ok());
    assert!(contained_join(root, "file.rs").is_ok());
}

#[test]
fn contained_join_rejects_parent_traversal() {
    let root = "/repo";
    assert!(contained_join(root, "../x").is_err());
    assert!(contained_join(root, "a/../../x").is_err());
    assert!(contained_join(root, "a/../b").is_err());
}

#[test]
fn contained_join_rejects_absolute_path() {
    let root = "/repo";
    assert!(contained_join(root, "/etc/passwd").is_err());
}

#[test]
fn contained_join_rejects_empty() {
    let root = "/repo";
    assert!(contained_join(root, "").is_err());
}

#[test]
fn contained_join_joins_and_names_what_it_refuses() {
    assert_eq!(contained_join("/repo", "a/b.rs").unwrap(), "/repo/a/b.rs");
    assert_eq!(contained_join("/repo", "a..b/..c").unwrap(), "/repo/a..b/..c");
    for bad in ["", "/etc/passwd", "../x", ".."] {
        match contained_join("/repo", bad) {
            Err(WorkspaceError::Io(m)) => assert!(m.contains(bad)),
            other => panic!("{bad}: {other:?}"),
        }
    }
}

#[test]
fn workspace_errors_have_words() {
    assert_eq!(WorkspaceError::Io("full".into()).message(), "workspace io error: full");
    assert_eq!(WorkspaceError::UnknownTask("t9".into()).message(), "unknown task: t9");
}

#[test]
fn maps_session_and_diff_fields() {
    let mut ws = InMemoryWorkspace::new();
    let task = TaskId("t1".into());
    ws.apply_write(&task, "a.rs", b"x\n").unwrap();
    let frozen = ws.freeze_task_diff(&task).unwrap();
    let dh = diff_hash(&frozen);

    let ctx = SessionContext::new(
        "do it",
        OperatorId([1; 32]),
        "agent-01",
        "model",
        "1.0",
        vec![OperatorId([1; 32])],
    );
    let p = build_provenance(&ctx, &task, dh, &frozen, 6400);

    assert_eq!(p.task_id, task);
    assert_eq!(p.prompt, "do it");
    assert_eq!(p.agent_id, "agent-01");
    assert_eq!(p.diff_hash, dh);
    assert_eq!(p.files, vec!["a.rs".to_string()]);
    assert_eq!(p.loc, 1);
    assert_eq!(p.tokens, 6400);
}

// ---------------------------------------------------------------------------
// Worktrees
// ---------------------------------------------------------------------------

#[test]
fn worktree_names() {
    assert_eq!(branch_name("s1"), "kontur/s1");
    assert_eq!(worktree_name("s1", 42), "kontur-wt-s1-42");
    assert_eq!(agent_session("s1", "agent-02"), "s1-agent-02");
    assert_eq!(task_commit(&tid()), "kontur: task t1");
    assert_eq!(revision_range("main", "kontur/s1"), "main..kontur/s1");
    assert_ne!(
        branch_name(&agent_session("s", "a")),
        branch_name(&agent_session("s", "b"))
    );
}

#[test]
fn a_dirty_tree_is_refused() {
    assert!(preflight("").is_ok());
    assert!(preflight(" M src/a.rs\n").is_err());
}

#[test]
fn an_empty_branch_does_not_land() {
    assert!(nothing_to_land("0\n"));
    assert!(!nothing_to_land("3\n"));
}

#[test]
fn numstat_counts_lines_and_skips_binaries() {
    let (files, loc) = parse_numstat("3\t1\tsrc/a.rs\n-\t-\tlogo.png\n");
    assert_eq!(files, vec!["src/a.rs".to_string(), "logo.png".to_string()]);
    assert_eq!(loc, 3); // additions only
    assert_eq!(parse_numstat(""), (vec![], 0));
}

#[test]
fn an_empty_staged_diff_is_an_error() {
    assert!(staged_diff(&tid(), vec![], "").is_err());
    let f = staged_diff(&tid(), b"diff".to_vec(), "2\t0\ta.rs\n").unwrap();
    assert_eq!(f.bytes, b"diff".to_vec());
    assert_eq!(f.files, vec!["a.rs".to_string()]);
    assert_eq!(f.loc, 2);
}

#[test]
fn a_task_that_wrote_nothing_has_no_diff() {
    assert_eq!(
        written_diff(&tid(), &vec![]).unwrap_err(),
        WorkspaceError::UnknownTask("t1".into())
    );
    let files = vec![FileWrite { path: "a.rs".into(), contents: b"x\n".to_vec() }];
    let f = written_diff(&tid(), &files).unwrap();
    assert_eq!(f.bytes, b"a.rs\0x\n\n".to_vec());
    assert_eq!(f.loc, 1);
}

fn fleet() -> FleetWorkspace<InMemoryWorkspace> {
    FleetWorkspace::create("s", "agent-01", InMemoryWorkspace::new())
}

// Two agents' uncommitted work stays in their own frozen diffs.
#[test]
fn a_fleet_keeps_its_agents_apart() {
    let mut f = fleet();
    let (ta, tb) = (TaskId("ta".into()), TaskId("tb".into()));
    f.assign_task(&ta, "agent-01");
    f.assign_task(&tb, "agent-02");
    assert_eq!(f.missing(&ta), None);
    assert_eq!(f.missing(&tb), Some("s-agent-02".to_string()));
    f.add(&tb, InMemoryWorkspace::new());
    assert_eq!(f.missing(&tb), None);
    f.apply_write(&ta, "a.rs", b"A\n").unwrap();
    f.apply_write(&tb, "b.rs", b"B\n").unwrap();
    assert_eq!(f.freeze_task_diff(&ta).unwrap().files, vec!["a.rs".to_string()]);
    assert_eq!(f.freeze_task_diff(&tb).unwrap().files, vec!["b.rs".to_string()]);
    assert_eq!(f.read_file(&ta, "b.rs").unwrap(), None);
    assert_eq!(f.read_file(&tb, "b.rs").unwrap(), Some(b"B\n".to_vec()));

    f.discard_task(&tb).unwrap();
    f.accept_task(&ta).unwrap();
    assert_eq!(f.tree(0).accepted_tasks(), vec![ta]);
    assert!(f.tree(0).discarded_tasks().is_empty());
    assert_eq!(f.tree(1).discarded_tasks(), vec![tb]);
}

#[test]
fn an_unassigned_task_goes_to_the_default_agent() {
    let mut f = fleet();
    assert_eq!(f.missing(&tid()), None);
    f.apply_write(&tid(), "a.rs", b"x\n").unwrap();
    assert_eq!(f.tree(0).file_contents(&tid(), "a.rs"), Some(b"x\n".to_vec()));
    assert_eq!(f.run_command(&tid(), "true", "").unwrap().exit_code, 0);
    // The first assignment stands.
    f.assign_task(&tid(), "agent-02");
    f.assign_task(&tid(), "agent-03");
    assert_eq!(f.missing(&tid()), Some("s-agent-02".to_string()));
}

#[test]
fn a_fleet_lands_what_there_is() {
    let mut f = fleet();
    let tb = TaskId("tb".into());
    f.assign_task(&tb, "agent-02");
    f.add(&tb, InMemoryWorkspace::new());
    assert_eq!(f.agents(), vec!["agent-01".to_string(), "agent-02".to_string()]);
    assert_eq!(f.len(), 2);
    f.land(0, "0\n", "m").unwrap();
    f.land(1, "2\n", "m").unwrap();
    assert_eq!(f.tree(0).merged_message(), None);
    assert_eq!(f.tree(1).merged_message(), Some("m".to_string()));
}

#[test]
fn tasks_go_to_their_agent() {
    let mut owners = TaskOwners::new();
    owners.assign("t1", "agent-02");
    assert_eq!(owners.owner("t1", "agent-01"), "agent-02");
    assert_eq!(owners.owner("t2", "agent-01"), "agent-01");
}

#[test]
fn tracked_paths_are_kept_once() {
    let mut t = TrackedPaths::new();
    t.track("t1", "a.rs");
    t.track("t1", "b.rs");
    t.track("t1", "a.rs");
    t.track("t2", "c.rs");
    assert_eq!(t.paths_for("t1"), vec!["a.rs".to_string(), "b.rs".to_string()]);
    assert_eq!(t.paths_for("t2"), vec!["c.rs".to_string()]);
    assert!(t.paths_for("t3").is_empty());
}

// ---------------------------------------------------------------------------
// Certificate pins
// ---------------------------------------------------------------------------

#[test]
fn fp_hex_roundtrip() {
    let fp: [u8; 32] = [
        0x01, 0x23, 0x45, 0x67, 0x89, 0xab, 0xcd, 0xef, 0xfe, 0xdc, 0xba, 0x98, 0x76, 0x54, 0x32,
        0x10, 0x00, 0x11, 0x22, 0x33, 0x44, 0x55, 0x66, 0x77, 0x88, 0x99, 0xaa, 0xbb, 0xcc, 0xdd,
        0xee, 0xff,
    ];
    let hex = fp_hex(&fp);
    assert_eq!(hex.len(), 64);
    let parsed = parse_fp_hex(&hex).expect("parse_fp_hex failed");
    assert_eq!(parsed, fp);
    assert_eq!(
        hex,
        "0123456789abcdeffedcba987654321000112233445566778899aabbccddeeff"
    );
    assert_eq!(fp16_hex(&fingerprint16(&fp)), "0123456789abcdeffedcba9876543210");
}

#[test]
fn parse_fp_hex_rejects_short() {
    assert!(parse_fp_hex("abcd").is_none());
}

#[test]
fn parse_fp_hex_rejects_non_hex() {
    let bad = "z".repeat(64);
    assert!(parse_fp_hex(&bad).is_none());
}

#[test]
fn parse_fp_hex_takes_capitals() {
    assert_eq!(parse_fp_hex(&"AF".repeat(32)), Some([0xaf; 32]));
}

#[test]
fn only_the_pinned_certificate_passes() {
    let pin = fingerprint16(&fingerprint(b"abc"));
    // The first half of SHA-256("abc").
    assert_eq!(fp16_hex(&pin), "ba7816bf8f01cfea414140de5dae2223");
    assert!(check_pin(b"abc", &pin).is_ok());
    let refused = check_pin(b"abd", &pin).unwrap_err();
    assert!(refused.contains("ba7816bf8f01cfea414140de5dae2223"), "{refused}");
}

// ---------------------------------------------------------------------------
// Clock and lines
// ---------------------------------------------------------------------------

#[test]
fn system_clock_is_positive() {
    let ts = SystemClock.now();
    // 2020-01-01 in millis is ~1_577_836_800_000
    assert!(ts.0 > 1_577_836_800_000, "timestamp looks too small: {}", ts.0);
}

#[test]
fn a_clock_before_the_epoch_reads_zero() {
    assert_eq!(stamp(None), Timestamp(0));
    assert_eq!(stamp(Some(1_577_836_800_000)), Timestamp(1_577_836_800_000));
}

#[test]
fn a_line_of_one_mebibyte_is_read() {
    assert_eq!(MAX_LINE, 1_048_576);
    let line = "x".repeat(1_048_576);
    assert_eq!(unframe(&line), Line::Text(line.clone()));
    assert_eq!(
        unframe(&"x".repeat(1_048_577)),
        Line::TooLarge("message too large".to_string())
    );
    // The cap counts bytes.
    assert_eq!(
        unframe(&"é".repeat(524_289)),
        Line::TooLarge("message too large".to_string())
    );
}

#[test]
fn framed_lines_are_read_back() {
    assert_eq!(frame("{\"a\":1}".to_string()), "{\"a\":1}\n");
    assert_eq!(unframe("{\"a\":1}\n"), Line::Text("{\"a\":1}".to_string()));
    assert_eq!(unframe(""), Line::End);
    assert_eq!(unframe(&"x".repeat(MAX_LINE)), Line::Text("x".repeat(MAX_LINE)));
    assert_eq!(
        unframe(&"x".repeat(MAX_LINE + 1)),
        Line::TooLarge("message too large".to_string())
    );
}

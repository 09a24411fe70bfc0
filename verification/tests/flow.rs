use worktree_tool::engine::commit::{after_edit, editor_spawn, template, AfterEdit, CommitOutcome};
use worktree_tool::engine::flow::{
    cherry_pick_flow, merge_flow, rebase_flow, revert_flow, rewrite_flow, stage_flow, FlowStep,
};
use worktree_tool::engine::history::{log_if_born, PlaceStep, Placement};
use worktree_tool::engine::rewrite::{run_rewrite_plan, TodoAction, TodoStep};
use worktree_tool::engine::GitError;

const A: &str = "aaaaaaaaaaaaaaaaaaaaaaaaaaaaaaaaaaaaaaaa";
const B: &str = "bbbbbbbbbbbbbbbbbbbbbbbbbbbbbbbbbbbbbbbb";
const BASE: &str = "0000000000000000000000000000000000000000";

fn argv(a: &[&str]) -> Vec<String> {
    a.iter().map(|s| s.to_string()).collect()
}

fn err(m: &str) -> GitError {
    GitError { message: m.to_string() }
}

fn git_args(s: &FlowStep) -> Vec<String> {
    match s {
        FlowStep::Git(a) => a.clone(),
        FlowStep::Finished(_) => panic!("expected a git command"),
    }
}

fn finished(s: FlowStep) -> Result<Vec<String>, GitError> {
    match s {
        FlowStep::Finished(r) => r,
        FlowStep::Git(a) => panic!("expected the end, got {a:?}"),
    }
}

const PROBE: [&str; 4] = ["--no-optional-locks", "diff", "--name-only", "--diff-filter=U"];

#[test]
fn a_conflicted_merge_is_aborted_and_reports_its_paths() {
    let (mut f, s) = merge_flow("feat").unwrap();
    assert_eq!(git_args(&s), argv(&["merge", "--no-edit", "--", "feat"]));
    let s = f.next(Err(err("CONFLICT")));
    assert_eq!(git_args(&s), argv(&PROBE));
    let s = f.next(Ok(b"a.txt\nb.txt\n".to_vec()));
    assert_eq!(git_args(&s), argv(&["merge", "--abort"]));
    let r = finished(f.next(Ok(Vec::new())));
    assert_eq!(r.unwrap(), argv(&["a.txt", "b.txt"]));
    assert!(f.is_done());
}

#[test]
fn a_merge_without_conflicts_keeps_its_error_and_aborts_nothing() {
    let (mut f, _) = merge_flow("feat").unwrap();
    f.next(Err(err("not something we can merge")));
    let r = finished(f.next(Ok(Vec::new())));
    assert_eq!(r.unwrap_err().message, "not something we can merge");
    let (mut f, _) = merge_flow("feat").unwrap();
    assert_eq!(finished(f.next(Ok(b"Merge made".to_vec()))).unwrap(), Vec::<String>::new());
    assert!(merge_flow("-x").is_err());
}

#[test]
fn a_rebase_aborts_only_after_found_conflicts() {
    let (mut f, s) = rebase_flow("main").unwrap();
    assert_eq!(git_args(&s), argv(&["rebase", "--", "main"]));
    f.next(Err(err("could not apply")));
    // the conflict query itself failed: the rebase's error, no abort
    let r = finished(f.next(Err(err("query failed"))));
    assert_eq!(r.unwrap_err().message, "could not apply");
    let (mut f, _) = rebase_flow("main").unwrap();
    f.next(Err(err("could not apply")));
    assert_eq!(git_args(&f.next(Ok(b"x.rs\n".to_vec()))), argv(&["rebase", "--abort"]));
    assert_eq!(finished(f.next(Err(err("abort failed")))).unwrap(), argv(&["x.rs"]));
}

#[test]
fn a_conflicted_revert_stays_paused() {
    let (mut f, s) = revert_flow(A).unwrap();
    assert_eq!(git_args(&s), argv(&["revert", "--no-edit", A]));
    f.next(Err(err("conflict")));
    // no abort: the run ends right after the probe
    assert_eq!(finished(f.next(Ok(b"c.txt\n".to_vec()))).unwrap(), argv(&["c.txt"]));
    let (mut f, _) = cherry_pick_flow(A).unwrap();
    f.next(Err(err("bad")));
    assert_eq!(finished(f.next(Ok(Vec::new()))).unwrap_err().message, "bad");
    assert!(revert_flow("xyz").is_err());
}

#[test]
fn staging_stops_at_the_first_failing_chunk() {
    let paths: Vec<String> = (0..450).map(|i| format!("f{i}.txt")).collect();
    let (mut f, s) = stage_flow(&paths);
    let first = git_args(&s);
    assert_eq!(first[0], "add");
    assert_eq!(first.len(), 2 + 200);
    let s = f.next(Ok(Vec::new()));
    assert_eq!(git_args(&s)[2], ":(literal)f200.txt");
    let r = finished(f.next(Err(err("index.lock exists"))));
    assert_eq!(r.unwrap_err().message, "index.lock exists");
    assert!(f.is_done());
    // nothing to stage: nothing runs
    let (_, s) = stage_flow(&Vec::new());
    assert!(finished(s).unwrap().is_empty());
}

fn step(action: TodoAction, oid: &str) -> TodoStep {
    TodoStep { action, oid: oid.to_string(), subject: String::new() }
}

#[test]
fn a_failed_replay_unwinds_to_the_tip() {
    let steps = vec![step(TodoAction::Pick, A), step(TodoAction::Pick, B)];
    let script = run_rewrite_plan(BASE, &steps, "", B).unwrap();
    let (mut f, s) = rewrite_flow(script, B);
    assert_eq!(git_args(&s), argv(&["reset", "--hard", BASE]));
    assert_eq!(git_args(&f.next(Ok(Vec::new()))), argv(&["cherry-pick", A]));
    // the pick conflicts: probe, then abort and reset back to the tip
    assert_eq!(git_args(&f.next(Err(err("conflict")))), argv(&PROBE));
    assert_eq!(git_args(&f.next(Ok(b"m.txt\n".to_vec()))), argv(&["cherry-pick", "--abort"]));
    assert_eq!(git_args(&f.next(Ok(Vec::new()))), argv(&["reset", "--hard", B]));
    assert_eq!(finished(f.next(Ok(Vec::new()))).unwrap(), argv(&["m.txt"]));
}

#[test]
fn an_unwind_without_conflicts_ends_with_the_error() {
    let steps = vec![step(TodoAction::Pick, A), step(TodoAction::Pick, B)];
    let script = run_rewrite_plan(BASE, &steps, "", B).unwrap();
    let (mut f, _) = rewrite_flow(script, B);
    f.next(Ok(Vec::new()));
    f.next(Err(err("bad object")));
    // the probe failed: the unwind still runs
    assert_eq!(git_args(&f.next(Err(err("probe"))) ), argv(&["cherry-pick", "--abort"]));
    f.next(Ok(Vec::new()));
    assert_eq!(finished(f.next(Ok(Vec::new()))).unwrap_err().message, "bad object");
    // a leading fixup: the branch is put back, then the plan is refused
    let steps = vec![step(TodoAction::Fixup, A), step(TodoAction::Pick, B)];
    let script = run_rewrite_plan(BASE, &steps, "", B).unwrap();
    let (mut f, _) = rewrite_flow(script, B);
    assert_eq!(git_args(&f.next(Ok(Vec::new()))), argv(&["reset", "--hard", B]));
    assert_eq!(
        finished(f.next(Ok(Vec::new()))).unwrap_err().message,
        "the first commit of a plan cannot be a fixup — pick it instead"
    );
}

#[test]
fn an_unborn_head_has_an_empty_history() {
    assert!(log_if_born(false, 0, 50).is_none());
    let args = log_if_born(true, 0, 50).unwrap();
    assert_eq!(args[1], "log");
}

#[test]
fn a_worktree_goes_to_the_least_free_candidate() {
    let (mut p, first) = Placement::start("/r/repo", A, "aaaaaaa").unwrap();
    assert_eq!(first, "/r/repo-aaaaaaa");
    let PlaceStep::Probe(second) = p.next(true) else { panic!("probe") };
    assert_eq!(second, "/r/repo-aaaaaaa-2");
    let PlaceStep::Probe(third) = p.next(true) else { panic!("probe") };
    assert_eq!(third, "/r/repo-aaaaaaa-3");
    let PlaceStep::Create(path, args) = p.next(false) else { panic!("create") };
    assert_eq!(path, "/r/repo-aaaaaaa-3");
    assert_eq!(args, argv(&["worktree", "add", "-q", "--detach", "/r/repo-aaaaaaa-3", A]));
    assert_eq!(p.tried(), 2);
    assert!(Placement::start("/", A, "aaaaaaa").is_err());
}

#[test]
fn a_colon_editor_commits_nothing_and_drops_the_file() {
    assert!(editor_spawn(&argv(&[":"]), "/t/m.msg").is_none());
    assert_eq!(editor_spawn(&argv(&["vim"]), "/t/m.msg").unwrap(), argv(&["vim", "/t/m.msg"]));
    let t = template('#', "1 file staged");
    match after_edit('#', &t, &t, "/t/m.msg") {
        AfterEdit::Aborted { outcome, remove_file } => {
            assert!(remove_file);
            assert_eq!(outcome, CommitOutcome::AbortedEmpty { draft: None });
        }
        AfterEdit::Commit { .. } => panic!("nothing to commit"),
    }
    let typed = format!("fix it\n{t}");
    match after_edit('#', &typed, &t, "/t/m.msg") {
        AfterEdit::Commit { message, args } => {
            assert_eq!(message, "fix it");
            assert_eq!(args, argv(&["commit", "-q", "-F", "/t/m.msg"]));
        }
        AfterEdit::Aborted { .. } => panic!("a message was typed"),
    }
    match after_edit('#', "# only a comment\n", &t, "/t/m.msg") {
        AfterEdit::Aborted { outcome, remove_file } => {
            assert!(!remove_file);
            assert_eq!(outcome, CommitOutcome::AbortedEmpty { draft: Some("/t/m.msg".into()) });
        }
        AfterEdit::Commit { .. } => panic!("nothing to commit"),
    }
}

use worktree_tool::engine::rewrite::{
    check_clean, check_plan, cherry_pick, revert, run_rewrite_plan, unwind_commands, OnFailure,
    TodoAction, TodoStep,
};
use worktree_tool::engine::sequence::{
    abort_op, continue_op, finish_with_conflicts, operation_state, rebase_progress,
    resolve_git_path, skip_op, InProgress,
};
use worktree_tool::engine::GitError;

const A: &str = "aaaaaaaaaaaaaaaaaaaaaaaaaaaaaaaaaaaaaaaa";
const B: &str = "bbbbbbbbbbbbbbbbbbbbbbbbbbbbbbbbbbbbbbbb";
const C: &str = "cccccccccccccccccccccccccccccccccccccccc";
const BASE: &str = "0123456789abcdef0123456789abcdef01234567";

fn step(action: TodoAction, oid: &str) -> TodoStep {
    TodoStep { action, oid: oid.into(), subject: "s".into() }
}

fn argv(cmd: &[&str]) -> Vec<String> {
    cmd.iter().map(|s| s.to_string()).collect()
}

#[test]
fn rebase_markers_take_precedence() {
    assert_eq!(operation_state(false, true, true, false, true), Some(InProgress::Rebase));
    assert_eq!(operation_state(false, false, true, true, true), Some(InProgress::CherryPick));
    assert_eq!(operation_state(false, false, false, true, true), Some(InProgress::Revert));
    assert_eq!(operation_state(false, false, false, false, true), Some(InProgress::Merge));
    assert_eq!(operation_state(false, false, false, false, false), None);
}

#[test]
fn sequence_commands() {
    assert_eq!(
        continue_op(Some(InProgress::CherryPick)).unwrap(),
        argv(&["-c", "core.editor=true", "cherry-pick", "--continue"])
    );
    assert_eq!(abort_op(Some(InProgress::Merge)).unwrap(), argv(&["merge", "--abort"]));
    assert_eq!(continue_op(None).unwrap_err().message, "no operation in progress");
    assert_eq!(
        skip_op(Some(InProgress::Merge)).unwrap_err().message,
        "merge has no current step to skip"
    );
    assert_eq!(
        skip_op(Some(InProgress::Rebase)).unwrap(),
        argv(&["-c", "core.editor=true", "rebase", "--skip"])
    );
    assert!(InProgress::CherryPick.skippable());
    assert!(!InProgress::Revert.skippable());
    assert_eq!(InProgress::CherryPick.label(), "cherry-pick");
}

#[test]
fn progress_and_git_paths() {
    assert_eq!(
        rebase_progress(Some(InProgress::Rebase), Some("2\n"), Some(" 5 ")),
        Some((2, 5))
    );
    assert_eq!(rebase_progress(Some(InProgress::Rebase), Some("x"), Some("5")), None);
    assert_eq!(rebase_progress(Some(InProgress::Merge), Some("2"), Some("5")), None);
    assert_eq!(resolve_git_path("/w", ".git/rebase-merge\n"), "/w/.git/rebase-merge");
    assert_eq!(resolve_git_path("/w", "/r/.git/worktrees/w/MERGE_HEAD"), "/r/.git/worktrees/w/MERGE_HEAD");
}

#[test]
fn paused_steps_report_conflicts() {
    let e = || Err(GitError { message: "fail".into() });
    assert_eq!(finish_with_conflicts(Ok(()), vec!["x".into()]).unwrap(), Vec::<String>::new());
    assert_eq!(finish_with_conflicts(e(), vec!["x".into()]).unwrap(), vec!["x".to_string()]);
    assert_eq!(finish_with_conflicts(e(), vec![]).unwrap_err().message, "fail");
}

#[test]
fn oids_are_validated() {
    assert_eq!(cherry_pick(A).unwrap(), argv(&["cherry-pick", A]));
    assert_eq!(revert(B).unwrap(), argv(&["revert", "--no-edit", B]));
    assert_eq!(cherry_pick("-x").unwrap_err().message, "invalid commit id: \"-x\"");
    assert!(cherry_pick(&"g".repeat(40)).is_err());
    assert!(cherry_pick(&"A".repeat(64)).is_ok());
}

#[test]
fn rewrite_script_resets_then_replays() {
    let steps = vec![
        step(TodoAction::Pick, A),
        step(TodoAction::Drop, B),
        step(TodoAction::Fixup, C),
    ];
    let s = run_rewrite_plan(BASE, &steps, "", C).unwrap();
    assert!(!s.fixup_first);
    let cmds: Vec<(Vec<String>, OnFailure)> =
        s.commands.iter().map(|c| (c.args.clone(), c.on_failure)).collect();
    assert_eq!(
        cmds,
        vec![
            (argv(&["reset", "--hard", BASE]), OnFailure::Propagate),
            (argv(&["cherry-pick", A]), OnFailure::Unwind),
            (argv(&["cherry-pick", "-n", C]), OnFailure::Unwind),
            (argv(&["commit", "--amend", "--no-edit"]), OnFailure::Unwind),
        ]
    );
    assert!(s.finish().unwrap().is_empty());
}

#[test]
fn a_leading_fixup_is_refused_after_putting_the_branch_back() {
    let steps = vec![step(TodoAction::Drop, A), step(TodoAction::Fixup, B), step(TodoAction::Pick, C)];
    let s = run_rewrite_plan(BASE, &steps, "", C).unwrap();
    assert!(s.fixup_first);
    assert_eq!(s.commands.len(), 2);
    assert_eq!(s.commands[1].args, argv(&["reset", "--hard", C]));
    assert_eq!(s.commands[1].on_failure, OnFailure::Ignore);
    assert_eq!(
        s.finish().unwrap_err().message,
        "the first commit of a plan cannot be a fixup — pick it instead"
    );
}

#[test]
fn plans_are_checked() {
    assert_eq!(check_plan(BASE, &vec![]).unwrap_err().message, "empty rewrite plan");
    assert!(check_plan("nope", &vec![step(TodoAction::Pick, A)]).is_err());
    assert_eq!(
        check_plan(BASE, &vec![step(TodoAction::Pick, A), step(TodoAction::Pick, "x")])
            .unwrap_err()
            .message,
        "invalid commit id: \"x\""
    );
    assert_eq!(
        run_rewrite_plan(BASE, &vec![step(TodoAction::Pick, A)], "", B).err().unwrap().message,
        "history changed since this plan was opened — reopen it"
    );
    // a dirty working copy refuses the plan before the tip is looked at
    assert!(run_rewrite_plan(BASE, &vec![step(TodoAction::Pick, A)], "M a.txt", B)
        .err()
        .unwrap()
        .message
        .starts_with("working copy has uncommitted changes"));
    assert!(check_clean("").is_ok());
    assert!(check_clean("M a.txt").unwrap_err().message.starts_with("working copy has uncommitted changes"));
    let u = unwind_commands(A);
    assert_eq!(u[0], argv(&["cherry-pick", "--abort"]));
    assert_eq!(u[1], argv(&["reset", "--hard", A]));
}

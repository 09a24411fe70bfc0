use worktree_tool::engine::{run, run_bytes, run_trimmed, stderr_error, GitError};
use worktree_tool::git::{
    add_worktree, default_branch, git_result, local_branches, prune, remove_worktree, status_one,
};
use worktree_tool::model::WorktreeStatus;

#[test]
fn git_results() {
    assert_eq!(git_result(true, b"out\n\n", b"").unwrap(), "out");
    assert_eq!(
        git_result(false, b"", b"warning: x\nfatal: not a git repository\n").unwrap_err().message,
        "fatal: not a git repository"
    );
    assert_eq!(git_result(false, b"", b"  ").unwrap_err().message, "git failed");
}

#[test]
fn engine_runs() {
    assert_eq!(run(true, b"a\0b\n", b"").unwrap(), "a\0b\n");
    assert_eq!(run_trimmed(true, b"x \n", b"").unwrap(), "x");
    assert_eq!(run_bytes(true, vec![0xff, 0], b"").unwrap(), vec![0xff, 0]);
    let e = run(false, b"", b"fatal: Unable to create '/r/.git/index.lock': File exists.\n\nAnother git process seems to be running.\nremove the file manually to continue.\n").unwrap_err();
    assert!(e.is_lock_error());
    assert!(!stderr_error(b"fatal: nope\n").is_lock_error());
    assert_eq!(stderr_error(b"").message, "git failed");
}

#[test]
fn worktree_commands() {
    assert_eq!(add_worktree("/w", Some("feat"), "main"), vec!["worktree", "add", "/w", "-b", "feat", "main"]);
    assert_eq!(add_worktree("/w", None, "main"), vec!["worktree", "add", "/w", "main"]);
    assert_eq!(remove_worktree("/w", true), vec!["worktree", "remove", "--force", "/w"]);
    assert_eq!(remove_worktree("/w", false), vec!["worktree", "remove", "/w"]);
    assert_eq!(prune(), vec!["worktree", "prune"]);
}

#[test]
fn default_branch_choice() {
    let b = |v: &[&str]| v.iter().map(|s| s.to_string()).collect::<Vec<_>>();
    assert_eq!(default_branch(Some("origin/develop"), &b(&["main"])), "develop");
    assert_eq!(default_branch(Some("origin/release/v1"), &b(&["main"])), "release/v1");
    assert_eq!(default_branch(Some("origin/"), &b(&["master"])), "master");
    assert_eq!(default_branch(None, &b(&["x", "main", "master"])), "main");
    assert_eq!(default_branch(None, &b(&[])), "main");
    assert_eq!(local_branches("main\n  feat \n\n"), b(&["main", "feat"]));
}

#[test]
fn status_of_each_worktree() {
    let e = GitError { message: "gone".into() };
    match status_one(Err(&worktree_tool::git::GitError { message: e.message.clone() })) {
        WorktreeStatus::Unavailable(m) => assert_eq!(m, "gone"),
        _ => panic!("expected unavailable"),
    }
    match status_one(Ok("# branch.ab +1 -2\n")) {
        WorktreeStatus::Clean { ahead, behind } => assert_eq!((ahead, behind), (1, 2)),
        _ => panic!("expected clean"),
    }
}

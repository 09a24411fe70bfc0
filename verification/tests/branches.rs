use worktree_tool::engine::branches::{
    conflict_outcome, conflicted_files, create, delete, list, merge, rebase, rename, switch,
};
use worktree_tool::engine::GitError;

#[test]
fn lists_locals_then_remotes_with_tracking() {
    let out = "*\u{1}refs/heads/main\u{1}[ahead 1, behind 3]\n \u{1}refs/heads/feat\u{1}\n \u{1}refs/remotes/origin/HEAD\u{1}\n \u{1}refs/remotes/origin/main\u{1}[ahead 9]\n\n \u{1}refs/tags/v1\u{1}\n";
    let b = list(out);
    assert_eq!(b.len(), 3);
    assert_eq!(b[0].short, "main");
    assert!(b[0].is_current);
    assert_eq!((b[0].ahead, b[0].behind), (1, 3));
    assert_eq!(b[1].short, "feat");
    assert!(!b[1].is_current);
    assert_eq!(b[2].short, "origin/main");
    assert_eq!(b[2].ref_name, "refs/remotes/origin/main");
    assert!(b[2].is_remote);
    assert_eq!((b[2].ahead, b[2].behind), (0, 0));
}

#[test]
fn track_counts_tolerate_junk() {
    let b = list(" \u{1}refs/heads/x\u{1}[behind  x, ahead 4]\n");
    assert_eq!((b[0].ahead, b[0].behind), (4, 0));
    let b = list(" \u{1}refs/heads/x\u{1}[gone]\n");
    assert_eq!((b[0].ahead, b[0].behind), (0, 0));
}

#[test]
fn invalid_names_are_refused_before_git_runs() {
    assert_eq!(create("-x").unwrap_err().message, "invalid branch name: \"-x\"");
    assert_eq!(create("").unwrap_err().message, "invalid branch name: \"\"");
    assert!(switch("a b").is_err());
    assert!(switch("a\tb").is_err());
    assert_eq!(
        rename("ok", "-bad").unwrap_err().message,
        "invalid branch name: \"-bad\""
    );
    assert!(merge("x\u{7f}").is_err());
    assert!(rebase("feat/x").is_ok());
}

#[test]
fn argv_of_branch_commands() {
    assert_eq!(create("feat").unwrap(), vec!["branch", "--", "feat"]);
    assert_eq!(switch("feat").unwrap(), vec!["checkout", "-q", "feat"]);
    assert_eq!(rename("a", "b").unwrap(), vec!["branch", "-m", "--", "a", "b"]);
    assert_eq!(delete("a", "main").unwrap(), vec!["branch", "-d", "--", "a"]);
    assert_eq!(merge("a").unwrap(), vec!["merge", "--no-edit", "--", "a"]);
    assert_eq!(rebase("a").unwrap(), vec!["rebase", "--", "a"]);
}

#[test]
fn deleting_the_current_branch_is_refused() {
    assert_eq!(
        delete("main", "main").unwrap_err().message,
        "cannot delete the current branch — switch to another branch first"
    );
}

#[test]
fn conflicts_become_the_payload() {
    let paths = conflicted_files(b"a.txt\n\nb c.txt\n");
    assert_eq!(paths, vec!["a.txt".to_string(), "b c.txt".to_string()]);
    let e = || GitError { message: "boom".into() };
    assert_eq!(conflict_outcome(e(), Some(paths.clone())).unwrap(), paths);
    assert_eq!(conflict_outcome(e(), Some(vec![])).unwrap_err().message, "boom");
    assert_eq!(conflict_outcome(e(), None).unwrap_err().message, "boom");
}

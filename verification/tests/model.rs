use worktree_tool::model::{
    matches_filter, parse_status_porcelain_v2, parse_worktree_porcelain, sanitize_branch,
    WorktreeEntry, WorktreeStatus,
};

const LIST: &str = "worktree /Users/greg/git/myrepo\nHEAD abc123\nbranch refs/heads/main\n\nworktree /Users/greg/git/myrepo-worktrees/feature-x\nHEAD def456\nbranch refs/heads/feature-x\n\nworktree /Users/greg/git/myrepo-worktrees/det\nHEAD 789abc\ndetached\n";

fn entry(path: &str, branch: Option<&str>) -> WorktreeEntry {
    WorktreeEntry {
        path: path.into(),
        head: None,
        branch: branch.map(String::from),
        is_main: false,
        status: WorktreeStatus::Pending,
    }
}

#[test]
fn parses_main_linked_and_detached() {
    let entries = parse_worktree_porcelain(LIST);
    assert_eq!(entries.len(), 3);
    assert!(entries[0].is_main);
    assert_eq!(entries[0].branch.as_deref(), Some("main"));
    assert_eq!(entries[0].head.as_deref(), Some("abc123"));
    assert_eq!(entries[1].branch.as_deref(), Some("feature-x"));
    assert!(!entries[1].is_main);
    assert_eq!(entries[2].branch, None); // detached
    assert!(entries
        .iter()
        .all(|e| matches!(e.status, WorktreeStatus::Pending)));
}

#[test]
fn ignores_unknown_lines_and_trailing_blank() {
    let entries = parse_worktree_porcelain(&format!(
        "{LIST}\nworktree /x\nlocked reason\nprunable gitdir is gone\n"
    ));
    assert_eq!(entries.len(), 4);
}

#[test]
fn empty_input_yields_no_entries() {
    assert!(parse_worktree_porcelain("").is_empty());
}

#[test]
fn sanitizes_slashes_in_branch_names() {
    assert_eq!(sanitize_branch("feature/x-y"), "feature-x-y");
}

#[test]
fn filter_matches_branch_and_path_case_insensitively() {
    let e = entry("/a/b/Feature-X", Some("feat"));
    assert!(matches_filter(&e, "FEAT"));
    assert!(matches_filter(&e, "/a/b/"));
    assert!(!matches_filter(&e, "zzz"));
    assert!(matches_filter(&e, ""));
}

const STATUS: &str = "# branch.oid abc (initial)\n# branch.head main\n# branch.upstream origin/main\n# branch.ab +1 -2\n1 .M N... 100100 100100 100100 a1b2c3 a1b2c3 f.txt\n1 M. N... 100100 100100 100100 a1b2c3 a1b2c3 staged.txt\n2 R. N... 100100 100100 100100 a1b2c3 a1b2c3 R100 renamed\ntree new/old\n? untracked.txt\n";

#[test]
fn status_parses_counts_and_divergence() {
    assert_eq!(
        parse_status_porcelain_v2(STATUS),
        WorktreeStatus::Dirty {
            staged: 2,    // M. + R.
            unstaged: 1,  // .M
            untracked: 1, // ?
            ahead: 1,
            behind: 2,
        }
    );
}

#[test]
fn status_clean_when_no_changes() {
    let input = "# branch.head main\n# branch.ab +1 -2\n";
    assert_eq!(
        parse_status_porcelain_v2(input),
        WorktreeStatus::Clean {
            ahead: 1,
            behind: 2
        }
    );
}

#[test]
fn status_defaults_and_detached() {
    assert_eq!(
        parse_status_porcelain_v2(""),
        WorktreeStatus::Clean {
            ahead: 0,
            behind: 0
        }
    );
    assert_eq!(
        parse_status_porcelain_v2("# branch.head (detached)\n"),
        WorktreeStatus::Clean {
            ahead: 0,
            behind: 0
        }
    );
}

#[test]
fn sanitize_keeps_length_and_other_characters() {
    assert_eq!(sanitize_branch("a/b/c"), "a-b-c");
    assert_eq!(sanitize_branch("plain"), "plain");
    assert_eq!(sanitize_branch(""), "");
}

#[test]
fn porcelain_strips_repeated_heads_prefix_and_carriage_returns() {
    let entries = parse_worktree_porcelain("worktree /r\r\nbranch refs/heads/refs/heads/x\r\n");
    assert_eq!(entries.len(), 1);
    assert_eq!(entries[0].path, "/r");
    assert_eq!(entries[0].branch.as_deref(), Some("x"));
    assert!(entries[0].is_main);
}

#[test]
fn status_counts_unmerged_and_bad_divergence_numbers() {
    assert_eq!(
        parse_status_porcelain_v2("# branch.ab +x -3\nu UU N... 1 1 1 1 a b c f\n"),
        WorktreeStatus::Dirty {
            staged: 1,
            unstaged: 1,
            untracked: 0,
            ahead: 0,
            behind: 3,
        }
    );
}

#[test]
fn derives_default_path_next_to_repo() {
    let p = worktree_tool::model::default_worktree_path("/Users/greg/git/myrepo", "feature/x");
    assert_eq!(p, String::from("/Users/greg/git/myrepo-worktrees/feature-x"));
}

use worktree_tool::model::{WorktreeEntry, WorktreeStatus};
use worktree_tool::git::GitError;
use worktree_tool::store::{apply_filter, HomeAction, WorktreeStore};

fn entry(path: &str, branch: &str) -> WorktreeEntry {
    WorktreeEntry {
        path: path.into(),
        head: None,
        branch: Some(branch.into()),
        is_main: false,
        status: WorktreeStatus::Pending,
    }
}

#[test]
fn empty_filter_selects_first_row() {
    let entries = vec![entry("/a", "main"), entry("/b", "feat")];
    let (idx, sel) = apply_filter(&entries, "", None);
    assert_eq!(idx, vec![0, 1]);
    assert_eq!(sel, Some(0));
}

#[test]
fn filter_narrows_and_keeps_selection_by_path() {
    let entries = vec![entry("/a", "main"), entry("/b/feat-x", "feat-x")];
    let (idx, sel) = apply_filter(&entries, "feat", Some("/b/feat-x"));
    assert_eq!(idx, vec![1]);
    assert_eq!(sel, Some(0)); // position within filtered
}

#[test]
fn selection_resets_when_kept_path_filtered_out() {
    let entries = vec![entry("/a", "main"), entry("/b", "feat")];
    let (idx, sel) = apply_filter(&entries, "main", Some("/b"));
    assert_eq!(idx, vec![0]);
    assert_eq!(sel, Some(0)); // falls back to first match
}

#[test]
fn empty_result_clears_selection() {
    let entries = vec![entry("/a", "main")];
    let (idx, sel) = apply_filter(&entries, "zzz", None);
    assert!(idx.is_empty());
    assert_eq!(sel, None);
}

#[test]
fn store_keeps_selected_worktree_across_filter_changes() {
    let mut s = WorktreeStore::new();
    s.set_entries(vec![
        entry("/a", "main"),
        entry("/b", "feat-x"),
        entry("/c", "feat-y"),
    ]);
    assert_eq!(s.selected, Some(0));
    s.select_next();
    s.select_next();
    assert_eq!(s.selected_entry().map(|e| e.path.clone()), Some("/c".to_string()));
    s.set_filter("feat".to_string());
    assert_eq!(s.filtered, vec![1, 2]);
    assert_eq!(s.selected_entry().map(|e| e.path.clone()), Some("/c".to_string()));
    s.set_filter("zzz".to_string());
    assert_eq!(s.selected, None);
    assert!(s.selected_entry().is_none());
    s.set_filter(String::new());
    assert_eq!(s.selected, Some(0));
}

#[test]
fn select_clamps_and_moves_within_rows() {
    let mut s = WorktreeStore::new();
    s.set_entries(vec![entry("/a", "main"), entry("/b", "feat")]);
    s.select(Some(5));
    assert_eq!(s.selected, None);
    s.select_next();
    assert_eq!(s.selected, Some(0));
    s.select_next();
    s.select_next();
    assert_eq!(s.selected, Some(1));
    s.select_prev();
    s.select_prev();
    assert_eq!(s.selected, Some(0));
}

#[test]
fn refresh_keeps_selection_by_path() {
    let mut s = WorktreeStore::new();
    s.set_entries(vec![entry("/a", "main"), entry("/b", "feat")]);
    s.select(Some(1));
    s.set_entries(vec![entry("/z", "zeta"), entry("/a", "main"), entry("/b", "feat")]);
    assert_eq!(s.selected, Some(2));
    s.load_repo("/repo".to_string());
    assert_eq!(s.repo_root.as_deref(), Some("/repo"));
    assert_eq!(s.filter, "");
}

#[test]
fn home_repo_detection_and_reload() {
    let mut s = WorktreeStore::new();
    assert_eq!(s.refresh(), None);
    s.detect_repo();
    assert!(s.busy);
    assert_eq!(s.repo_detected(Err(GitError { message: "nope".into() })), None);
    assert!(!s.busy);
    assert_eq!(s.status_message.as_deref(), Some("Not inside a git repository — enter a path below."));
    s.load_repo_from_user_path();
    assert_eq!(s.status_message.as_deref(), Some("Opening repository…"));
    assert_eq!(s.user_path_checked(Err(GitError { message: "not a repo".into() })), None);
    assert_eq!(s.status_message.as_deref(), Some("Not a git repository: not a repo"));
    s.load_repo_from_user_path();
    assert_eq!(s.user_path_checked(Ok("/r".into())).as_deref(), Some("/r"));
    assert_eq!(s.status_message.as_deref(), Some("Refreshing…"));
    assert!(s.busy);
    s.refreshed(Ok(vec![entry("/r", "main"), entry("/r-feat", "feat")]));
    assert!(!s.busy);
    assert_eq!(s.status_message, None);
    assert_eq!(s.selected, Some(0));
    s.select(Some(1));
    s.refresh();
    s.refreshed(Ok(vec![entry("/r-feat", "feat"), entry("/r", "main")]));
    assert_eq!(s.selected_entry().map(|e| e.path.clone()), Some("/r-feat".to_string()));
    s.refresh();
    s.refreshed(Err(GitError { message: "fatal: bad".into() }));
    assert_eq!(s.status_message.as_deref(), Some("fatal: bad"));
    assert_eq!(s.entries.len(), 2);
    s.branch_metadata_loaded("develop".into(), vec!["develop".into(), "x".into()]);
    assert_eq!(s.default_base, "develop");
}

#[test]
fn home_operations_report_then_reload() {
    let mut s = WorktreeStore::new();
    assert!(s.prune().is_none());
    s.repo_detected(Ok("/r".into()));
    let act = s.add("/r-x".into(), Some("x".into()), "main".into()).unwrap();
    assert!(matches!(&act, HomeAction::Add { root, path, branch: Some(b), base } if root == "/r" && path == "/r-x" && b == "x" && base == "main"));
    assert_eq!(s.status_message.as_deref(), Some("Creating worktree…"));
    assert_eq!(s.operation_finished(&act, Ok(())).as_deref(), Some("/r"));
    assert_eq!(s.status_message.as_deref(), Some("Refreshing…"));
    let act = s.remove("/r-x".into(), true).unwrap();
    assert!(matches!(&act, HomeAction::Remove { force: true, .. }));
    assert_eq!(s.status_message.as_deref(), Some("Removing worktree…"));
    let act = s.prune().unwrap();
    assert_eq!(s.status_message.as_deref(), Some("Pruning…"));
    s.operation_finished(&act, Err(GitError { message: "locked".into() }));
    assert!(s.busy);
}

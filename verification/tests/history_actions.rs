use worktree_tool::engine::diff::parse_unified_diff;
use worktree_tool::engine::history::{parse_commit_files, parse_log, LogCommit};
use worktree_tool::engine::GitError;
use worktree_tool::history_actions::HistoryAction;
use worktree_tool::history_store::HistoryStore;

fn rec(hash: &str, parents: &str) -> String {
    format!("\u{0}{hash}\u{1}{}\u{1}{parents}\u{1}A\u{1}1\u{1}\u{1}s {hash}\n", &hash[..1])
}

fn log(hashes: &[(&str, &str)]) -> Vec<LogCommit> {
    let text: String = hashes.iter().map(|(h, p)| rec(h, p)).collect();
    parse_log(text.as_bytes())
}

fn err(m: &str) -> GitError {
    GitError { message: m.to_string() }
}

#[test]
fn history_first_load_selects_the_newest_and_loads_its_files() {
    let mut h = HistoryStore::new_with_batch("/w".into(), 2);
    let load = h.refresh();
    assert_eq!((load.skip, load.max_count), (0, 3));
    let files = h.refreshed(&load, Ok(log(&[("ccc", "bbb"), ("bbb", "aaa"), ("aaa", "")]))).unwrap();
    assert!(h.has_more);
    assert_eq!(h.commits.len(), 2);
    assert_eq!(h.rows.len(), 2);
    assert_eq!(h.selected, Some(0));
    assert_eq!(files.sha, "ccc");
    assert!(!files.first_parent);
    let diff = h.files_loaded(&files, Ok(parse_commit_files(b"M\0a.txt\0A\0b.txt\0"))).unwrap();
    assert_eq!(h.selected_file, Some(0));
    assert_eq!((diff.sha.as_str(), diff.path.as_str()), ("ccc", "a.txt"));
    let d = parse_unified_diff(b"diff --git a/a.txt b/a.txt\n@@ -1 +1 @@\n-x\n+y\n");
    h.file_diff_loaded(&diff, Ok(d));
    assert!(h.file_diff.is_ok());
    // a stale diff completion is dropped
    h.select_file(Some(1));
    let newer = h.load_file_diff().unwrap();
    h.file_diff_loaded(&diff, Err(err("late")));
    assert!(matches!(&h.file_diff, Err(e) if e.is_empty()));
    h.file_diff_loaded(&newer, Err(err("bad object")));
    assert!(matches!(&h.file_diff, Err(e) if e == "bad object"));
}

#[test]
fn history_reload_keeps_the_selected_commit() {
    let mut h = HistoryStore::new_with_batch("/w".into(), 5);
    let load = h.refresh();
    h.refreshed(&load, Ok(log(&[("bbb", "aaa"), ("aaa", "")])));
    h.select(Some(1));
    let load = h.refresh();
    let files = h.refreshed(&load, Ok(log(&[("ccc", "bbb"), ("bbb", "aaa"), ("aaa", "")]))).unwrap();
    assert_eq!(h.selected, Some(2));
    assert_eq!(files.sha, "aaa");
    assert!(!h.has_more);
    // a merge's files are diffed against its first parent
    let load = h.refresh();
    h.refreshed(&load, Ok(log(&[("mmm", "ccc bbb"), ("ccc", "aaa"), ("bbb", "aaa"), ("aaa", "")])));
    h.select(Some(0));
    assert!(h.load_commit_files().unwrap().first_parent);
}

#[test]
fn history_load_failures() {
    let mut h = HistoryStore::new("/w".into());
    let load = h.refresh();
    assert!(h.refreshed(&load, Err(err("fatal: not a git repository"))).is_none());
    assert!(h.load_failed);
    assert_eq!(h.load_error.as_deref(), Some("fatal: not a git repository"));
    assert_eq!(h.action_blocker().as_deref(), Some("history failed to load — press r to retry"));
    // a retry shows that it runs
    let load = h.refresh();
    assert!(h.retrying);
    assert_eq!(h.message.as_deref(), Some("Retrying…"));
    assert_eq!(h.action_blocker().as_deref(), Some("Retrying…"));
    h.refreshed(&load, Ok(log(&[("aaa", "")])));
    assert!(!h.retrying);
    assert!(!h.load_failed);
    // a later failure keeps the list
    let load = h.refresh();
    h.refreshed(&load, Err(err("index.lock exists")));
    assert!(!h.load_failed);
    assert_eq!(h.commits.len(), 1);
    assert_eq!(h.message.as_deref(), Some("another git process may be using this worktree — retry"));
    // a files failure is shown in the pane and the footer
    let files = h.load_commit_files().unwrap();
    h.files_loaded(&files, Err(err("bad tree")));
    assert_eq!(h.files_error.as_deref(), Some("bad tree"));
    assert!(h.files.is_none());
}

#[test]
fn history_load_more_appends_or_reloads_from_the_tip() {
    let mut h = HistoryStore::new_with_batch("/w".into(), 2);
    let load = h.refresh();
    h.refreshed(&load, Ok(log(&[("eee", "ddd"), ("ddd", "ccc"), ("ccc", "bbb")])));
    let more = h.load_more().unwrap();
    assert_eq!((more.skip, more.max_count), (2, 3));
    assert_eq!(h.message.as_deref(), Some("Loading 2 older commits…"));
    assert!(h.load_more().is_none());
    assert_eq!(h.message.as_deref(), Some("Already loading older commits…"));
    assert!(h.more_loaded(&more, Ok(log(&[("ccc", "bbb"), ("bbb", "aaa")]))).is_none());
    assert_eq!(h.commits.len(), 4);
    assert_eq!(h.max_count, 4);
    assert_eq!(h.rows.len(), 4);
    assert!(!h.has_more);
    assert!(h.load_more().is_none());
    assert_eq!(h.message.as_deref(), Some("No older commits to load"));
    // the repository gained commits above the window: reload from the tip
    h.has_more = true;
    let more = h.load_more().unwrap();
    let reload = h.more_loaded(&more, Ok(log(&[("bbb", "aaa"), ("aaa", "")]))).unwrap();
    assert_eq!(h.max_count, 6);
    assert_eq!((reload.skip, reload.max_count), (0, 7));
    assert_eq!(h.commits.len(), 4);
}

#[test]
fn history_actions_start_and_finish() {
    let mut h = HistoryStore::new("/w".into());
    assert!(h.copy_hash().is_none());
    assert!(h.checkout().is_none());
    let load = h.refresh();
    h.refreshed(&load, Ok(log(&[("bbb", "aaa"), ("aaa", "")])));
    assert_eq!(h.copy_hash().as_deref(), Some("bbb"));
    assert_eq!(h.message.as_deref(), Some("Copied b to the clipboard"));
    let act = h.checkout().unwrap();
    assert!(matches!(&act, HistoryAction::Checkout { sha, short } if sha == "bbb" && short == "b"));
    assert_eq!(h.message.as_deref(), Some("Checking out b…"));
    assert_eq!(h.action_name(), Some("checkout"));
    assert!(h.open_worktree().is_none());
    assert_eq!(h.message.as_deref(), Some("Busy — wait for the current operation"));
    let reload = h.checked_out("b", Ok(()));
    assert!(reload.is_some());
    assert_eq!(h.message.as_deref(), Some("Checked out b (detached HEAD)"));
    assert!(h.take_worktree_files_changed());
    assert!(h.take_mutated());
    let act = h.open_worktree().unwrap();
    assert!(matches!(&act, HistoryAction::OpenWorktree { sha, .. } if sha == "bbb"));
    assert_eq!(h.message.as_deref(), Some("Creating worktree at b…"));
    assert_eq!(h.action_name(), Some("worktree add"));
    h.worktree_opened(Ok("/w-b".into()));
    assert_eq!(h.message.as_deref(), Some("Worktree created at /w-b"));
    assert!(!h.take_worktree_files_changed());
    assert!(h.take_mutated());
    h.checkout().unwrap();
    assert!(h.checked_out("b", Err(err("dirty"))).is_none());
    assert_eq!(h.message.as_deref(), Some("dirty"));
    assert!(!h.busy());
}

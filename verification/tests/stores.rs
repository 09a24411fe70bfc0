use worktree_tool::branch_store::{ActionReply, BranchAction, BranchStore, Pane as BranchPane};
use worktree_tool::dialogs::{rebase_key, rebase_summary, RebaseEntry, RebaseKey};
use worktree_tool::engine::branches::{list as list_branches, BranchInfo};
use worktree_tool::engine::diff::parse_unified_diff;
use worktree_tool::engine::history::{assign_lanes, parse_log};
use worktree_tool::engine::rewrite::TodoAction;
use worktree_tool::engine::stash::list as list_stashes;
use worktree_tool::engine::working_copy::{parse_status_z, Group};
use worktree_tool::history_store::{HistoryStore, Pane as HistoryPane, HISTORY_BATCH};
use worktree_tool::sections::Section;
use worktree_tool::wc_store::{staged_summary, DetailKind, FileDetail, WorkingCopyStore};

fn branches() -> Vec<BranchInfo> {
    list_branches(" \u{1}refs/heads/a\u{1}\n*\u{1}refs/heads/b\u{1}\n \u{1}refs/remotes/o/c\u{1}\n")
}

#[test]
fn branch_refresh_starts_at_the_current_branch_and_clamps() {
    let mut s = BranchStore::new("/w".into());
    let g = s.refresh();
    s.refreshed(g, Ok(branches()), list_stashes("\u{0}stash@{0}\u{1}m"));
    assert_eq!(s.selected, Some(1));
    assert_eq!(s.selected_stash, Some(0));
    assert_eq!(s.selected_branch().map(|b| b.short.clone()), Some("b".to_string()));
    // a stale completion is dropped
    s.refreshed(g - 1, Err("old".into()), vec![]);
    assert!(!s.load_failed);
    s.selected = Some(9);
    let g = s.refresh();
    s.refreshed(g, Ok(branches()), vec![]);
    assert_eq!(s.selected, Some(2));
    assert_eq!(s.selected_stash, None);
    let g = s.refresh();
    s.refreshed(g, Err("boom".into()), vec![]);
    assert!(s.load_failed);
    assert_eq!(s.message.as_deref(), Some("boom"));
}

#[test]
fn branch_cursor_moves_per_pane() {
    let mut s = BranchStore::new("/w".into());
    let g = s.refresh();
    s.refreshed(g, Ok(branches()), list_stashes("\u{0}stash@{0}\u{1}m\u{0}stash@{1}\u{1}n"));
    s.select_next();
    s.select_next();
    assert_eq!(s.active_selected(), Some(2));
    s.toggle_pane();
    assert_eq!(s.pane, BranchPane::Stashes);
    s.select_next();
    assert_eq!(s.selected_stash, Some(1));
    s.select_prev();
    s.select_prev();
    assert_eq!(s.selected_stash_entry().map(|e| e.index), Some(0));
    assert_eq!(s.selected, Some(2));
}

#[test]
fn branch_actions_refuse_with_reasons() {
    let mut s = BranchStore::new("/w".into());
    assert!(s.selected_local_branch("Switch").is_none());
    assert_eq!(s.message.as_deref(), Some("Nothing selected"));
    let g = s.refresh();
    s.refreshed(g, Ok(branches()), vec![]);
    s.select(Some(2));
    assert!(s.selected_local_branch("Delete").is_none());
    assert_eq!(s.message.as_deref(), Some("Delete needs a local branch — 'o/c' is remote-tracking"));
    s.select(Some(0));
    assert_eq!(s.selected_local_branch("Switch").map(|b| b.short), Some("a".to_string()));
    s.wc_mutating = true;
    assert!(!s.ready_for_action());
    assert_eq!(s.message.as_deref(), Some("Busy — another section is changing this worktree"));
    s.busy = true;
    assert!(!s.ready_for_action());
    assert_eq!(s.message.as_deref(), Some("Busy — wait for the current operation"));
    s.mutated = true;
    assert!(s.take_mutated());
    assert!(!s.take_mutated());
}

fn rec(hash: &str, parents: &str) -> String {
    format!("\u{0}{hash}\u{1}{hash}\u{1}{parents}\u{1}A\u{1}1\u{1}\u{1}s\n")
}

#[test]
fn history_store_blockers_and_selection() {
    let mut h = HistoryStore::new("/w".into());
    assert_eq!(h.max_count, HISTORY_BATCH);
    assert_eq!(h.action_blocker().as_deref(), Some("Loading history…"));
    h.initial_load_done = true;
    h.load_failed = true;
    assert_eq!(h.action_blocker().as_deref(), Some("history failed to load — press r to retry"));
    h.load_failed = false;
    assert_eq!(h.action_blocker().as_deref(), Some("No commits yet"));
    let mut commits = parse_log(format!("{}{}{}", rec("c", "a b"), rec("b", "a"), rec("a", "")).as_bytes());
    h.rows = assign_lanes(&mut commits);
    h.commits = commits;
    assert_eq!(h.action_blocker(), None);
    assert_eq!(h.graph_width(), 2);
    assert!(h.select_next());
    assert_eq!(h.selected, Some(0));
    assert!(!h.select_prev());
    assert!(h.select_next() && h.select_next());
    assert!(!h.select_next());
    assert_eq!(h.selected, Some(2));
    h.toggle_pane();
    assert_eq!(h.pane, HistoryPane::Files);
    h.action_in_flight = true;
    h.action_kind = Some("checkout");
    assert!(h.busy());
    assert_eq!(h.action_name(), Some("checkout"));
    assert_eq!(h.action_blocker().as_deref(), Some("Busy — wait for the current operation"));
    h.worktree_files_changed = true;
    assert!(h.take_worktree_files_changed());
    assert!(!h.take_mutated());
}

const STATUS: &str = "# branch.head main\u{0}1 M. N... 100644 100644 100644 a b s1.txt\u{0}1 MM N... 100644 100644 100644 a b both.txt\u{0}? new.txt\u{0}";

#[test]
fn working_copy_store_rows_and_hunks() {
    let mut w = WorkingCopyStore::new("/w".into());
    assert!(w.rows().is_empty());
    w.wc = Some(parse_status_z(STATUS));
    let rows = w.rows();
    assert_eq!(rows.len(), 4);
    assert_eq!(w.staged_count(), 2);
    w.select_next();
    w.select_next();
    w.select_next();
    let (g, e) = w.selected_row().unwrap();
    assert_eq!((g, e.path.clone()), (Group::Unstaged, "both.txt".to_string()));
    let diff = parse_unified_diff(b"diff --git a/both.txt b/both.txt\n--- a/both.txt\n+++ b/both.txt\n@@ -1 +1 @@\n-a\n+b\n@@ -5 +5 @@\n-c\n+d\n");
    w.detail = Some(FileDetail::Diff(diff));
    assert_eq!(w.hunk_count(), Some(2));
    assert_eq!(w.hunk_bound(), 2);
    assert!(!w.hunk_stageable());
    w.detail_of = Some(("both.txt".into(), DetailKind::Unstaged));
    assert!(w.hunk_stageable());
    assert_eq!(w.detail_key().as_deref(), Some("Unstaged:both.txt"));
    assert!(w.hunk_next());
    assert!(!w.hunk_next());
    assert_eq!(w.hunk_cursor(), 1);
    assert!(w.hunk_prev());
    assert_eq!(w.hunk_cursor(), 0);
    w.editor_active = true;
    w.busy_message();
    assert_eq!(
        w.message.as_deref(),
        Some("Busy — the commit editor is open (esc abandons the commit)")
    );
    assert!(w.commit_editor_active());
}

#[test]
fn staged_summary_counts_and_quotes() {
    let wc = parse_status_z(STATUS);
    assert_eq!(staged_summary(&wc), "2 staged files: s1.txt, both.txt");
    let one = parse_status_z("1 M. N... 100644 100644 100644 a b x\ny\u{0}");
    assert_eq!(staged_summary(&one), "1 staged file: \"x\\ny\"");
    let mut many = String::new();
    for i in 0..10 {
        many.push_str(&format!("1 A. N... 000000 100644 100644 a b f{i}\u{0}"));
    }
    assert_eq!(
        staged_summary(&parse_status_z(&many)),
        "10 staged files: f0, f1, f2, f3, f4, f5, f6, f7, …"
    );
}

#[test]
fn rebase_dialog_keys() {
    let mut entries: Vec<RebaseEntry> = ["a", "b", "c"]
        .iter()
        .map(|o| RebaseEntry { oid: o.to_string(), short: o.to_string(), subject: String::new(), action: TodoAction::Pick })
        .collect();
    let mut sel = 0usize;
    assert_eq!(rebase_key(&mut entries, &mut sel, "up"), RebaseKey::Stay);
    assert_eq!(sel, 0);
    rebase_key(&mut entries, &mut sel, "down");
    rebase_key(&mut entries, &mut sel, "d");
    rebase_key(&mut entries, &mut sel, "down");
    rebase_key(&mut entries, &mut sel, "down");
    assert_eq!(sel, 2);
    rebase_key(&mut entries, &mut sel, "f");
    assert_eq!(entries.iter().map(|e| e.action).collect::<Vec<_>>(), vec![TodoAction::Pick, TodoAction::Drop, TodoAction::Fixup]);
    assert_eq!(rebase_summary(&entries), "3 commits, 1 dropped, 1 fixupped");
    rebase_key(&mut entries, &mut sel, "f");
    assert_eq!(entries[2].action, TodoAction::Pick);
    assert_eq!(rebase_key(&mut entries, &mut sel, "enter"), RebaseKey::Confirm);
    assert_eq!(rebase_key(&mut entries, &mut sel, "escape"), RebaseKey::Cancel);
    assert_eq!(rebase_key(&mut entries, &mut sel, "x"), RebaseKey::Stay);
    assert_eq!(Section::History, Section::History);
}

fn loaded_branch_store() -> BranchStore {
    let mut s = BranchStore::new("/w".into());
    let g = s.refresh();
    s.refreshed(g, Ok(branches()), list_stashes("\u{0}stash@{0}\u{1}m\u{0}stash@{1}\u{1}n"));
    s
}

#[test]
fn branch_switch_runs_and_reports() {
    let mut s = loaded_branch_store();
    // the cursor starts on the current branch
    assert!(s.switch().is_none());
    assert_eq!(s.message.as_deref(), Some("Already on this branch"));
    s.selected = Some(0);
    let act = s.switch().expect("switch starts");
    assert!(matches!(&act, BranchAction::Switch { name } if name == "a"));
    assert!(s.busy);
    assert_eq!(s.message.as_deref(), Some("Switching to a…"));
    // a second action is refused while the first runs
    assert!(s.merge().is_none());
    assert_eq!(s.message.as_deref(), Some("Busy — wait for the current operation"));
    let g = s.load_generation;
    let gen = s.finished(&act, Ok(ActionReply::Done));
    assert_eq!(gen, Some(g + 1));
    assert!(!s.busy);
    assert!(s.take_mutated());
    assert_eq!(s.message.as_deref(), Some("Switched to a"));
    // a remote-tracking row cannot be switched to
    s.selected = Some(2);
    assert!(s.switch().is_none());
    assert_eq!(s.message.as_deref(), Some("Switch needs a local branch — 'o/c' is remote-tracking"));
}

#[test]
fn branch_merge_conflicts_and_failures() {
    let mut s = loaded_branch_store();
    s.selected = Some(0);
    let act = s.merge().expect("merge starts");
    assert_eq!(s.message.as_deref(), Some("Merging a…"));
    s.finished(&act, Ok(ActionReply::Conflicts(vec!["x.rs".into(), "y.rs".into()])));
    assert_eq!(
        s.message.as_deref(),
        Some("Merge conflicts in x.rs, y.rs — resolve in the Working Copy section, then g to continue (A aborts)")
    );
    assert!(s.take_mutated());
    let act = s.rebase_onto().expect("rebase starts");
    assert_eq!(s.message.as_deref(), Some("Rebasing onto a…"));
    s.finished(&act, Ok(ActionReply::Conflicts(vec!["x.rs".into()])));
    assert_eq!(
        s.message.as_deref(),
        Some("Rebase onto a paused on conflicts — resolve in the Working Copy section, then g (A aborts)")
    );
    assert!(s.busy_hint);
    let act = s.fetch_remotes().expect("fetch starts");
    assert_eq!(s.finished(&act, Err("network down".into())), None);
    assert_eq!(s.message.as_deref(), Some("network down"));
    assert!(!s.busy);
    s.selected = Some(1);
    assert!(s.merge().is_none());
    assert_eq!(s.message.as_deref(), Some("Cannot merge a branch into itself"));
    assert!(s.rebase_onto().is_none());
    assert_eq!(s.message.as_deref(), Some("Cannot rebase onto the current branch"));
}

#[test]
fn branch_create_rename_delete_messages() {
    let mut s = loaded_branch_store();
    let act = s.create_branch("feat").expect("create starts");
    assert_eq!(s.message.as_deref(), Some("Creating feat…"));
    s.finished(&act, Ok(ActionReply::Done));
    assert_eq!(s.message.as_deref(), Some("Created feat"));
    assert!(!s.take_mutated());
    s.selected = Some(0);
    let act = s.rename_branch("b2").expect("rename starts");
    assert!(matches!(&act, BranchAction::Rename { old, new_name } if old == "a" && new_name == "b2"));
    assert_eq!(s.message.as_deref(), Some("Renaming a to b2…"));
    s.finished(&act, Ok(ActionReply::Done));
    assert_eq!(s.message.as_deref(), Some("Renamed to b2"));
    let act = s.delete_branch().expect("delete starts");
    assert!(matches!(&act, BranchAction::Delete { name, current } if name == "a" && current == "b"));
    s.finished(&act, Ok(ActionReply::Done));
    assert_eq!(s.message.as_deref(), Some("Deleted a"));
    // a remote-tracking row is refused as nothing selected
    s.selected = Some(2);
    assert!(s.delete_branch().is_none());
    assert_eq!(s.message.as_deref(), Some("Nothing selected"));
    // another section holding the worktree refuses every action
    s.wc_mutating = true;
    assert!(s.create_branch("x").is_none());
    assert_eq!(s.message.as_deref(), Some("Busy — another section is changing this worktree"));
}

#[test]
fn branch_stash_actions() {
    let mut s = loaded_branch_store();
    let act = s.stash_push().expect("stash starts");
    assert!(matches!(act, BranchAction::StashPush { before: 2 }));
    assert_eq!(s.message.as_deref(), Some("Stashing changes…"));
    s.finished(&act, Ok(ActionReply::StashCount(2)));
    assert_eq!(s.message.as_deref(), Some("Nothing to stash — working copy is clean"));
    assert!(!s.take_mutated());
    let act = s.stash_push().expect("stash starts");
    s.finished(&act, Ok(ActionReply::StashCount(3)));
    assert_eq!(s.message.as_deref(), Some("Stashed working copy"));
    assert!(s.take_mutated());
    s.selected_stash = Some(1);
    let act = s.stash_pop().expect("pop starts");
    assert_eq!(s.message.as_deref(), Some("Popping stash@{1}…"));
    assert!(s.finished(&act, Err("conflict".into())).is_some());
    assert_eq!(s.message.as_deref(), Some("conflict — resolve in the Working Copy section"));
    let act = s.stash_apply().expect("apply starts");
    assert_eq!(s.message.as_deref(), Some("Applying stash@{1}…"));
    s.finished(&act, Ok(ActionReply::Done));
    assert_eq!(s.message.as_deref(), Some("Applied stash@{1}"));
    let act = s.stash_drop().expect("drop starts");
    assert_eq!(s.message.as_deref(), Some("Dropping stash@{1}…"));
    s.finished(&act, Ok(ActionReply::Done));
    assert_eq!(s.message.as_deref(), Some("Dropped stash@{1}"));
    s.selected_stash = None;
    assert!(s.stash_apply().is_none());
    assert_eq!(s.message.as_deref(), Some("No stash selected"));
    assert!(s.stash_drop().is_none());
    assert_eq!(s.message.as_deref(), Some("Nothing selected"));
}

#[test]
fn branch_push_and_force_push_confirmation() {
    let mut s = loaded_branch_store();
    let act = s.push_current().expect("push starts");
    assert!(matches!(&act, BranchAction::Push { branch } if branch == "b"));
    assert_eq!(s.message.as_deref(), Some("Pushing b…"));
    s.finished(&act, Ok(ActionReply::Done));
    assert_eq!(s.message.as_deref(), Some("Pushed b"));
    // first press arms, second runs
    assert!(s.force_push_current().is_none());
    assert_eq!(s.message.as_deref(), Some("Force-push b (with lease)? Press F again to confirm"));
    let act = s.force_push_current().expect("second press runs");
    assert_eq!(s.message.as_deref(), Some("Force-pushing b…"));
    s.finished(&act, Ok(ActionReply::Done));
    assert_eq!(s.message.as_deref(), Some("Force-pushed b"));
    let act = s.pull_current().expect("pull starts");
    s.finished(&act, Ok(ActionReply::Done));
    assert_eq!(s.message.as_deref(), Some("Pulled"));
    assert!(s.take_mutated());
    assert_eq!(s.copy_name(), Some("refs/heads/b".to_string()));
    assert_eq!(s.message.as_deref(), Some("Copied refs/heads/b"));
    // detached HEAD: nothing to push
    let mut d = BranchStore::new("/w".into());
    assert!(d.push_current().is_none());
    assert_eq!(d.message.as_deref(), Some("No current branch to push (detached HEAD?)"));
}

use worktree_tool::engine::commit::CommitOutcome;
use worktree_tool::engine::diff::parse_unified_diff;
use worktree_tool::engine::mutate::ApplyError;
use worktree_tool::engine::sequence::InProgress;
use worktree_tool::engine::working_copy::{parse_status_z, Group};
use worktree_tool::engine::GitError;
use worktree_tool::wc_actions::{
    capitalize, discard_step, tracked_probe_args, DiscardStep, SequenceStep, WcMutation,
};
use worktree_tool::wc_store::{DetailKind, FileDetail, WorkingCopyStore};
use worktree_tool::dialogs::{dialog_key, DialogKey};
use worktree_tool::shell::{wc_command, Focus, WcCommand};

const STATUS: &str = "# branch.head main\u{0}1 M. N... 100644 100644 100644 a b s1.txt\u{0}1 MM N... 100644 100644 100644 a b both.txt\u{0}? new.txt\u{0}";

fn err(m: &str) -> GitError {
    GitError { message: m.to_string() }
}

fn loaded() -> WorkingCopyStore {
    let mut w = WorkingCopyStore::new("/w".into());
    let t = w.refresh().expect("idle store reloads");
    let load = w.refreshed(&t, Ok(parse_status_z(STATUS)), None, None);
    assert_eq!(w.selected, Some(0));
    let load = load.expect("first row's detail loads");
    assert_eq!(load.path, "s1.txt");
    assert_eq!(load.kind, DetailKind::Staged);
    w
}

#[test]
fn refresh_keeps_the_selected_surface_of_a_dual_group_file() {
    let mut w = loaded();
    // select both.txt's unstaged row
    w.select(Some(2));
    let t = w.refresh().unwrap();
    assert_eq!(t.keep_path.as_deref(), Some("both.txt"));
    let load = w.refreshed(&t, Ok(parse_status_z(STATUS)), Some(InProgress::Merge), None).unwrap();
    assert_eq!(w.selected, Some(2));
    assert_eq!(load.kind, DetailKind::Unstaged);
    assert_eq!(w.in_progress, Some(InProgress::Merge));
    // the unstaged surface is gone: the staged row of the path is taken
    let t = w.refresh().unwrap();
    let only_staged = "1 M. N... 100644 100644 100644 a b s1.txt\u{0}1 M. N... 100644 100644 100644 a b both.txt\u{0}";
    w.refreshed(&t, Ok(parse_status_z(only_staged)), None, None);
    assert_eq!(w.selected, Some(1));
    // a stale completion is dropped
    let old = w.refresh().unwrap();
    let _newer = w.refresh().unwrap();
    assert!(w.refreshed(&old, Err(err("late")), None, None).is_none());
    assert!(!w.load_failed);
}

#[test]
fn wc_refresh_failure_and_lock_hint() {
    let mut w = WorkingCopyStore::new("/w".into());
    let t = w.refresh().unwrap();
    w.refreshed(&t, Err(err("fatal: Unable to create '/r/.git/index.lock': File exists.")), None, None);
    assert!(w.load_failed);
    assert_eq!(w.message.as_deref(), Some("another git process may be using this worktree — retry"));
    // a failed first load keeps its error: stage keys say nothing more
    assert!(w.toggle_stage().is_none());
    assert_eq!(w.message.as_deref(), Some("another git process may be using this worktree — retry"));
    let t = w.refresh().unwrap();
    w.refreshed(&t, Ok(parse_status_z(STATUS)), None, None);
    assert!(!w.load_failed);
    assert_eq!(w.message, None);
}

#[test]
fn wc_detail_loads_land_and_clamp_the_hunk_cursor() {
    let mut w = loaded();
    w.select(Some(2));
    let load = w.load_detail().unwrap();
    assert_eq!(w.detail_of, None);
    w.hunk_cursor = 7;
    let diff = parse_unified_diff(b"diff --git a/both.txt b/both.txt\n--- a/both.txt\n+++ b/both.txt\n@@ -1 +1 @@\n-a\n+b\n@@ -5 +5 @@\n-c\n+d\n");
    let g = w.detail_generation();
    w.detail_loaded(&load, Ok(FileDetail::Diff(diff)));
    assert_eq!(w.detail_generation(), g + 1);
    assert_eq!(w.detail_key().as_deref(), Some("Unstaged:both.txt"));
    assert_eq!(w.hunk_cursor, 1);
    // a load superseded by a newer one is dropped
    let stale = w.load_detail().unwrap();
    let _newer = w.load_detail().unwrap();
    w.detail_loaded(&stale, Err(err("gone")));
    assert_eq!(w.detail_of, None);
    w.author_loaded("Ann".into(), "ann@example.com".into());
    assert_eq!(w.author, Some(("Ann".to_string(), "ann@example.com".to_string())));
}

#[test]
fn wc_toggle_stage_picks_the_direction_and_paths() {
    let mut w = loaded();
    let rename = "1 M. N... 100644 100644 100644 a b x\u{0}2 R. N... 100644 100644 100644 a b R100 new.txt\u{0}old.txt\u{0}";
    w.wc = Some(parse_status_z(rename));
    w.selected = Some(1);
    match w.toggle_stage() {
        Some(WcMutation::Unstage { paths }) => assert_eq!(paths, vec!["new.txt".to_string(), "old.txt".to_string()]),
        _ => panic!("a staged rename unstages both paths"),
    }
    assert!(w.mutating);
    assert!(w.toggle_stage().is_none());
    assert_eq!(w.message.as_deref(), Some("Busy — wait for the current operation"));
    let t = w.after_mutation(Ok(()));
    assert!(!w.mutating);
    assert!(w.take_mutated());
    assert_eq!(t.keep_path.as_deref(), Some("new.txt"));
    w.wc = Some(parse_status_z(STATUS));
    w.selected = Some(3);
    match w.toggle_stage() {
        Some(WcMutation::Stage { paths }) => assert_eq!(paths, vec!["new.txt".to_string()]),
        _ => panic!("an untracked row stages"),
    }
}

#[test]
fn wc_stage_all_skips_conflicts_with_a_notice() {
    let mut w = loaded();
    assert!(matches!(w.stage_all(), Some(WcMutation::Stage { paths }) if paths == vec!["both.txt".to_string(), "new.txt".to_string()]));
    w.after_mutation(Ok(()));
    let mixed = "u UU N... 100644 100644 100644 100644 a b c c.txt\u{0}? n.txt\u{0}";
    w.wc = Some(parse_status_z(mixed));
    assert!(matches!(w.stage_all(), Some(WcMutation::Stage { paths }) if paths == vec!["n.txt".to_string()]));
    w.after_mutation(Ok(()));
    assert_eq!(w.message.as_deref(), Some("Conflicts were skipped — resolve them, then stage with s"));
    w.wc = Some(parse_status_z("u UU N... 100644 100644 100644 100644 a b c c.txt\u{0}"));
    assert!(w.stage_all().is_none());
    assert_eq!(w.message.as_deref(), Some("Conflicts must be resolved before they can be staged"));
    w.wc = Some(parse_status_z("1 M. N... 100644 100644 100644 a b s.txt\u{0}"));
    assert!(w.stage_all().is_none());
    assert_eq!(w.message.as_deref(), Some("Nothing to stage"));
}

#[test]
fn wc_stage_hunk_refusals_and_patch() {
    let mut w = loaded();
    assert!(w.stage_hunk().is_none());
    assert_eq!(w.message.as_deref(), Some("hunk staging applies to unstaged changes — select the file's unstaged row"));
    w.select(Some(3));
    assert!(w.stage_hunk().is_none());
    assert_eq!(w.message.as_deref(), Some("no hunks here — stage it with s on the file row"));
    w.select(Some(2));
    assert!(w.stage_hunk().is_none());
    assert_eq!(w.message.as_deref(), Some("diff is loading — try again"));
    let input: &[u8] = b"diff --git a/both.txt b/both.txt\n--- a/both.txt\n+++ b/both.txt\n@@ -1 +1 @@\n-a\n+b\n@@ -5 +5 @@\n-c\n+d\n";
    w.detail = Some(FileDetail::Diff(parse_unified_diff(input)));
    w.detail_of = Some(("both.txt".into(), DetailKind::Unstaged));
    w.hunk_cursor = 1;
    match w.stage_hunk() {
        Some(WcMutation::ApplyHunk { path, patch }) => {
            assert_eq!(path, "both.txt");
            assert_eq!(patch, b"diff --git a/both.txt b/both.txt\n--- a/both.txt\n+++ b/both.txt\n@@ -5 +5 @@\n-c\n+d\n".to_vec());
        }
        _ => panic!("the hovered hunk stages"),
    }
    w.hunk_applied(Err(ApplyError::Git(err("patch does not apply"))));
    assert_eq!(w.message.as_deref(), Some("patch does not apply — stage the whole file instead (s on the file row)"));
    w.detail = Some(FileDetail::Failed("boom".into()));
    w.detail_of = Some(("both.txt".into(), DetailKind::Unstaged));
    assert!(w.stage_hunk().is_none());
    assert_eq!(w.message.as_deref(), Some("the diff failed to load — press r to retry"));
    w.history_busy = true;
    assert!(w.stage_hunk().is_none());
    assert_eq!(w.message.as_deref(), Some("Busy — a history action is finishing in this worktree"));
}

#[test]
fn wc_stale_index_refusal_keeps_its_own_remedy() {
    let mut w = loaded();
    w.mutating = true;
    w.hunk_applied(Err(ApplyError::StaleIndex));
    assert_eq!(
        w.message.as_deref(),
        Some("the file's staged state changed since this diff was loaded — press r and try again")
    );
    assert!(!w.take_mutated());
}

#[test]
fn discard_refuses_when_live_state_contradicts_the_dialog() {
    let mut w = loaded();
    assert!(w.discard_path(false, "gone.txt".into()).is_none());
    assert_eq!(w.message.as_deref(), Some("That file is no longer in the working copy — reopen the dialog"));
    w.wc = Some(parse_status_z("? dir/\u{0}? f.txt\u{0}"));
    assert!(w.discard_path(true, "dir/".into()).is_none());
    assert!(!w.mutating);
    assert!(matches!(w.discard_path(true, "f.txt".into()), Some(WcMutation::Discard { path, untracked_at_confirm: true }) if path == "f.txt"));
    assert_eq!(tracked_probe_args("f.txt"), vec!["ls-files", "--", ":(literal)f.txt"]);
    assert_eq!(discard_step(true, &Ok(String::new())), DiscardStep::DeleteFile);
    assert_eq!(discard_step(true, &Ok("f.txt".into())), DiscardStep::Refuse);
    assert_eq!(discard_step(false, &Ok("f.txt".into())), DiscardStep::RestoreFromIndex);
    assert_eq!(discard_step(false, &Err(err("x"))), DiscardStep::Refuse);
    w.discard_refused();
    assert!(!w.mutating);
    assert_eq!(w.message.as_deref(), Some("That file's state changed — reopen the dialog to try again"));
}

#[test]
fn wc_sequence_steps_and_outcomes() {
    let mut w = loaded();
    assert!(w.continue_op().is_none());
    assert_eq!(w.message.as_deref(), Some("No operation in progress"));
    w.in_progress = Some(InProgress::Merge);
    assert!(w.skip_op().is_none());
    assert_eq!(w.message.as_deref(), Some("A paused merge has no step to skip"));
    let step = w.continue_op().unwrap();
    assert_eq!(step, SequenceStep::Continue(InProgress::Merge));
    assert_eq!(w.message.as_deref(), Some("Continuing merge…"));
    assert!(w.abort_op().is_none());
    assert_eq!(w.message.as_deref(), Some("Busy — wait for the current operation"));
    w.sequence_finished(step, Ok(vec!["a.rs".into(), "b.rs".into()]));
    assert_eq!(w.message.as_deref(), Some("Still unresolved: a.rs, b.rs — resolve, stage with s, then g"));
    let step = w.continue_op().unwrap();
    w.sequence_finished(step, Ok(vec![]));
    assert_eq!(w.message.as_deref(), Some("Merge completed"));
    assert!(w.take_history_changed());
    w.in_progress = Some(InProgress::CherryPick);
    let step = w.skip_op().unwrap();
    assert_eq!(w.message.as_deref(), Some("Skipping…"));
    w.sequence_finished(step, Ok(vec!["c.rs".into()]));
    assert_eq!(w.message.as_deref(), Some("Next step conflicts in c.rs — resolve, stage with s, then g"));
    let step = w.abort_op().unwrap();
    assert_eq!(w.message.as_deref(), Some("Aborting cherry-pick…"));
    w.sequence_finished(step, Ok(vec![]));
    assert_eq!(w.message.as_deref(), Some("Cherry-pick aborted"));
    assert!(!w.take_history_changed());
    assert_eq!(capitalize("rebase"), "Rebase");
    assert_eq!(capitalize(""), "");
}

#[test]
fn wc_commit_session_outcomes() {
    let mut w = loaded();
    match w.commit_with_editor() {
        Some(WcMutation::Commit { summary }) => assert_eq!(summary, "2 staged files: s1.txt, both.txt"),
        _ => panic!("staged changes commit"),
    }
    assert!(w.commit_editor_active());
    assert_eq!(w.message.as_deref(), Some("Waiting for commit editor — esc abandons the commit"));
    assert!(w.abandon_commit());
    assert_eq!(w.message.as_deref(), Some("Abandoning commit — closing the editor…"));
    w.commit_finished(Ok(CommitOutcome::Abandoned { draft: Some("/tmp/m".into()) }));
    assert_eq!(
        w.message.as_deref(),
        Some("Commit abandoned — staged changes kept; your message draft is preserved at /tmp/m")
    );
    assert!(!w.abandon_commit());
    w.commit_with_editor().unwrap();
    w.commit_finished(Ok(CommitOutcome::AbortedEmpty { draft: None }));
    assert_eq!(w.message.as_deref(), Some("Commit aborted — empty message"));
    w.commit_with_editor().unwrap();
    w.commit_finished(Err(err("fatal: index.lock exists")));
    assert_eq!(
        w.message.as_deref(),
        Some("fatal: index.lock exists — another git process may be using this worktree; retry")
    );
    w.commit_with_editor().unwrap();
    w.commit_finished(Ok(CommitOutcome::Committed));
    assert_eq!(w.message.as_deref(), Some("Committed"));
    assert!(w.take_history_changed());
    w.wc = Some(parse_status_z("? n.txt\u{0}"));
    assert!(w.commit_with_editor().is_none());
    assert_eq!(w.message.as_deref(), Some("Nothing staged — press s on files to stage them first"));
    let _ = Group::Staged;
}

#[test]
fn discard_opens_confirm_dialog_and_esc_cancels() {
    let mut w = WorkingCopyStore::new("/w".into());
    let t = w.refresh().unwrap();
    w.refreshed(&t, Ok(parse_status_z("# branch.head main\u{0}1 .M N... 100644 100644 100644 a b f.txt\u{0}")), None, None);
    // f.txt is modified-unstaged: the only row
    assert_eq!(wc_command("d", false, Focus::List, false), WcCommand::OpenDiscard);
    assert_eq!(w.discard_target(), Some(("f.txt".to_string(), false)), "discard needs confirmation");
    assert_eq!(dialog_key("escape"), DialogKey::Cancel);
    assert_eq!(w.wc.as_ref().unwrap().entries.len(), 1, "nothing discarded");
    assert!(!w.mutating);
}

#[test]
fn discard_confirms_the_dialog_path_not_the_current_selection() {
    let mut w = WorkingCopyStore::new("/w".into());
    let t = w.refresh().unwrap();
    w.refreshed(
        &t,
        Ok(parse_status_z("# branch.head main\u{0}1 .M N... 100644 100644 100644 a b f.txt\u{0}1 .M N... 100644 100644 100644 a b h.txt\u{0}")),
        None,
        None,
    );
    // Open the dialog for h.txt…
    w.select(Some(1));
    let (path, untracked) = w.discard_target().unwrap();
    assert_eq!(path, "h.txt");
    // …then the selection moves back to f.txt, the way a refresh landing
    // mid-dialog could.
    w.select(Some(0));
    assert_eq!(dialog_key("enter"), DialogKey::Confirm);
    let m = w.discard_path(untracked, path).unwrap();
    assert!(
        matches!(m, WcMutation::Discard { ref path, untracked_at_confirm: false } if path == "h.txt"),
        "the dialog's path is discarded, not the newly selected f.txt"
    );
}

#[test]
fn stage_keys_toggle_files() {
    let mut w = WorkingCopyStore::new("/w".into());
    let t = w.refresh().unwrap();
    w.refreshed(
        &t,
        Ok(parse_status_z("# branch.head main\u{0}1 .M N... 100644 100644 100644 a b f.txt\u{0}? new.txt\u{0}")),
        None,
        None,
    );
    // navigate to the untracked row and stage it
    assert_eq!(wc_command("down", false, Focus::List, false), WcCommand::SelectNext);
    w.select_next();
    assert_eq!(wc_command("s", false, Focus::List, false), WcCommand::ToggleStage);
    let m = w.toggle_stage().unwrap();
    assert!(matches!(m, WcMutation::Stage { ref paths } if paths == &vec!["new.txt".to_string()]));
    let t = w.after_mutation(Ok(()));
    assert!(w.take_mutated(), "staging flags the home refresh");
    w.refreshed(
        &t,
        Ok(parse_status_z("# branch.head main\u{0}1 .M N... 100644 100644 100644 a b f.txt\u{0}1 A. N... 000000 100644 100644 0 b new.txt\u{0}")),
        None,
        None,
    );
    assert_eq!(w.staged_count(), 1, "s stages the selected untracked file");
    // shift+s stages everything, including untracked rows
    let t = w.refresh().unwrap();
    w.refreshed(
        &t,
        Ok(parse_status_z("# branch.head main\u{0}1 .M N... 100644 100644 100644 a b f.txt\u{0}1 A. N... 000000 100644 100644 0 b new.txt\u{0}? another.txt\u{0}")),
        None,
        None,
    );
    assert_eq!(wc_command("s", true, Focus::List, false), WcCommand::StageAll);
    assert!(w.stage_all().is_some());
    let t = w.after_mutation(Ok(()));
    w.refreshed(
        &t,
        Ok(parse_status_z("# branch.head main\u{0}1 M. N... 100644 100644 100644 a b f.txt\u{0}1 A. N... 000000 100644 100644 0 b new.txt\u{0}1 A. N... 000000 100644 100644 0 b another.txt\u{0}")),
        None,
        None,
    );
    let groups: Vec<Group> = w.rows().iter().map(|(g, _)| *g).collect();
    assert!(!groups.contains(&Group::Untracked));
    assert!(matches!(w.selected_row(), Some((Group::Staged, _))), "selection stays on a staged row after stage-all");
}

const TWO_HUNKS: &[u8] = b"diff --git a/h.txt b/h.txt\nindex 1..2 100644\n--- a/h.txt\n+++ b/h.txt\n@@ -1,4 +1,4 @@\n-line 1\n+line 1 edited\n line 2\n line 3\n line 4\n@@ -7,6 +7,6 @@\n line 7\n line 8\n line 9\n-line 10\n+line 10 edited\n line 11\n line 12\n";

const ONE_HUNK: &[u8] = b"diff --git a/h.txt b/h.txt\nindex 3..2 100644\n--- a/h.txt\n+++ b/h.txt\n@@ -1,4 +1,4 @@\n-line 1\n+line 1 edited\n line 2\n line 3\n line 4\n";

#[test]
fn diff_pane_hunk_keys_stage_the_hovered_hunk() {
    let mut w = WorkingCopyStore::new("/w".into());
    let t = w.refresh().unwrap();
    let load = w
        .refreshed(
            &t,
            Ok(parse_status_z("# branch.head main\u{0}1 .M N... 100644 100644 100644 a b h.txt\u{0}? u.txt\u{0}")),
            None,
            None,
        )
        .unwrap();
    assert_eq!(load.kind, DetailKind::Unstaged);
    w.detail_loaded(&load, Ok(FileDetail::Diff(parse_unified_diff(TWO_HUNKS))));
    // Row 0 is the unstaged h.txt. Tab to the diff pane, hover the second
    // hunk, stage it.
    assert_eq!(wc_command("tab", false, Focus::List, false), WcCommand::FocusDiff);
    assert_eq!(w.hunk_count(), Some(2));
    assert_eq!(wc_command("down", false, Focus::Detail, false), WcCommand::HunkNext);
    assert!(w.hunk_next());
    assert_eq!(wc_command("s", false, Focus::Detail, false), WcCommand::StageHunk);
    let m = w.stage_hunk().unwrap();
    let WcMutation::ApplyHunk { path, patch } = m else { panic!("a hunk is staged") };
    assert_eq!(path, "h.txt");
    let patch = String::from_utf8_lossy(&patch);
    assert!(patch.contains("line 10 edited"), "staged: {patch}");
    assert!(!patch.contains("line 1 edited"), "staged: {patch}");
    let t = w.hunk_applied(Ok(()));
    let load = w
        .refreshed(
            &t,
            Ok(parse_status_z("# branch.head main\u{0}1 MM N... 100644 100644 100644 a b h.txt\u{0}? u.txt\u{0}")),
            None,
            None,
        )
        .unwrap();
    assert_eq!(load.kind, DetailKind::Unstaged, "the unstaged surface stays selected");
    w.detail_loaded(&load, Ok(FileDetail::Diff(parse_unified_diff(ONE_HUNK))));
    assert_eq!(w.hunk_count(), Some(1), "unstaged diff shrank to one hunk");
    assert_eq!(w.hunk_cursor(), 0, "cursor clamped after the stage");
    assert_eq!(w.staged_count(), 1, "h.txt gained a Staged row");
}

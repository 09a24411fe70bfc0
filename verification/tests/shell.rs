use worktree_tool::engine::history::parse_log;
use worktree_tool::engine::working_copy::parse_status_z;
use worktree_tool::history_store::HistoryStore;
use worktree_tool::model::{WorktreeEntry, WorktreeStatus};
use worktree_tool::sections::Section;
use worktree_tool::create_form::CreateForm;
use worktree_tool::model::parse_worktree_porcelain;
use worktree_tool::shell::{
    close_step, create_request, history_command, list_window_command, remove_dialog_of, root_command,
    search_focusable,
    wc_command, CloseStep, DetailSync, Focus, HistoryCommand, Reloads, RootCommand, RootFocus,
    WcCommand,
};
use worktree_tool::store::WorktreeStore;
use worktree_tool::text_input::TextField;
use worktree_tool::wc_store::WorkingCopyStore;

#[test]
fn wc_keys_route_by_focus() {
    assert_eq!(wc_command("escape", false, Focus::List, false), WcCommand::CloseDetail);
    assert_eq!(wc_command("s", true, Focus::List, false), WcCommand::StageAll);
    assert_eq!(wc_command("s", false, Focus::List, false), WcCommand::ToggleStage);
    assert_eq!(wc_command("s", false, Focus::Detail, false), WcCommand::StageHunk);
    assert_eq!(wc_command("s", true, Focus::Detail, false), WcCommand::StageAll);
    assert_eq!(wc_command("up", false, Focus::Detail, false), WcCommand::HunkPrev);
    assert_eq!(wc_command("down", false, Focus::List, false), WcCommand::SelectNext);
    assert_eq!(wc_command("tab", false, Focus::List, false), WcCommand::FocusDiff);
    assert_eq!(wc_command("tab", false, Focus::Detail, false), WcCommand::FocusFiles);
    assert_eq!(wc_command("tab", false, Focus::Container, false), WcCommand::Nothing);
    assert_eq!(wc_command("c", false, Focus::Detail, false), WcCommand::Nothing);
    assert_eq!(wc_command("n", false, Focus::Detail, false), WcCommand::OpenCreate);
    assert_eq!(wc_command("2", false, Focus::Container, false), WcCommand::OpenHistory);
    assert_eq!(wc_command("1", false, Focus::List, false), WcCommand::Nothing);
    assert_eq!(wc_command("s", false, Focus::Elsewhere, false), WcCommand::Nothing);
}

#[test]
fn history_action_keeps_mutating_keys_refused() {
    // a history action in the worktree refuses mutating keys but keeps
    // navigation, the terminal and the History section live
    assert_eq!(wc_command("s", false, Focus::List, true), WcCommand::RefuseHistoryBusy);
    assert_eq!(wc_command("r", false, Focus::List, true), WcCommand::RefuseHistoryBusy);
    assert_eq!(wc_command("t", false, Focus::Elsewhere, true), WcCommand::OpenTerminal);
    assert_eq!(wc_command("2", false, Focus::Elsewhere, true), WcCommand::OpenHistory);
    assert_eq!(wc_command("down", false, Focus::List, true), WcCommand::SelectNext);
    assert_eq!(wc_command("escape", false, Focus::List, true), WcCommand::CloseDetail);
    // esc then keeps the view while the action finishes
    match close_step(Section::WorkingCopy, Some(Some("checkout")), false, false) {
        CloseStep::TellBusy { text: Some(t), in_history: false } => {
            assert_eq!(t, "Busy — checkout is finishing in this worktree")
        }
        _ => panic!("a running history action keeps the view"),
    }
    match close_step(Section::History, Some(None), true, true) {
        CloseStep::TellBusy { text: Some(t), in_history: true } => {
            assert_eq!(t, "Busy — history action is finishing in this worktree")
        }
        _ => panic!("a running history action keeps the view"),
    }
}

#[test]
fn esc_is_ignored_while_an_operation_is_in_flight() {
    let mut w = WorkingCopyStore::new("/w".into());
    w.wc = Some(parse_status_z("1 .M N... 100644 100644 100644 a b f.txt\u{0}"));
    w.selected = Some(0);
    assert!(w.toggle_stage().is_some());
    // a busy detail must not close: the section shows its busy hint
    match close_step(Section::WorkingCopy, None, w.mutating, w.commit_editor_active()) {
        CloseStep::TellBusy { text: None, in_history: false } => w.busy_message(),
        _ => panic!("busy detail must not close"),
    }
    assert_eq!(w.message.as_deref(), Some("Busy — wait for the current operation"));
    // a commit editor session is abandoned instead
    assert!(matches!(close_step(Section::History, None, true, true), CloseStep::AbandonCommit));
    assert!(matches!(
        close_step(Section::History, None, true, false),
        CloseStep::TellBusy { text: None, in_history: true }
    ));
    // idle detail closes normally
    w.after_mutation(Ok(()));
    assert!(matches!(close_step(Section::WorkingCopy, None, w.mutating, false), CloseStep::Close));
}

#[test]
fn diff_pane_shift_s_still_stages_all() {
    assert_eq!(wc_command("s", true, Focus::Detail, false), WcCommand::StageAll);
}

#[test]
fn d_on_a_staged_row_explains_instead_of_no_op() {
    let mut w = WorkingCopyStore::new("/w".into());
    w.wc = Some(parse_status_z("1 M. N... 100644 100644 100644 a b f.txt\u{0}"));
    w.selected = Some(0);
    assert_eq!(wc_command("d", false, Focus::List, false), WcCommand::OpenDiscard);
    assert!(w.discard_target().is_none(), "no dialog for staged rows");
    assert!(w.message.as_deref().unwrap().contains("unstage first"));
}

#[test]
fn commit_key_requires_staged_changes() {
    let mut w = WorkingCopyStore::new("/w".into());
    w.wc = Some(parse_status_z("1 .M N... 100644 100644 100644 a b f.txt\u{0}"));
    w.selected = Some(0);
    assert_eq!(wc_command("c", false, Focus::List, false), WcCommand::Commit);
    assert!(w.commit_with_editor().is_none(), "no editor spawned");
    assert!(w.message.as_deref().unwrap().contains("Nothing staged"));
    assert!(!w.commit_editor_active());
}

#[test]
fn history_keys_route_by_focus() {
    assert_eq!(history_command("1", false, Focus::Detail, false), HistoryCommand::ToWorkingCopy);
    assert_eq!(history_command("up", false, Focus::List, false), HistoryCommand::CommitPrev);
    assert_eq!(history_command("down", false, Focus::Detail, false), HistoryCommand::FileNext);
    assert_eq!(history_command("tab", false, Focus::Detail, false), HistoryCommand::FocusCommits);
    assert_eq!(history_command("y", false, Focus::Container, false), HistoryCommand::CopyHash);
    assert_eq!(history_command("l", true, Focus::List, false), HistoryCommand::LoadMore);
    assert_eq!(history_command("l", false, Focus::List, false), HistoryCommand::Nothing);
    assert_eq!(history_command("x", false, Focus::List, true), HistoryCommand::Nothing);
    assert_eq!(history_command("x", false, Focus::Elsewhere, false), HistoryCommand::Nothing);
}

#[test]
fn history_keys_explain_blocked_actions() {
    let mut h = HistoryStore::new("/w".into());
    assert!(!h.guard_action());
    assert_eq!(h.message.as_deref(), Some("Loading history…"));
    assert!(h.list_key(true).is_none());
    assert_eq!(h.message.as_deref(), Some("Loading history…"));
    let load = h.refresh_key().unwrap();
    let log = "\u{0}bbb\u{1}b\u{1}aaa\u{1}A\u{1}1\u{1}\u{1}s\n\u{0}aaa\u{1}a\u{1}\u{1}A\u{1}1\u{1}\u{1}s\n";
    h.refreshed(&load, Ok(parse_log(log.as_bytes())));
    let (pos, files) = h.list_key(true).unwrap();
    assert_eq!(pos, Some(1));
    assert_eq!(files.unwrap().sha, "aaa");
    let (pos, files) = h.list_key(true).unwrap();
    assert_eq!(pos, Some(1));
    assert!(files.is_none());
    assert!(h.load_more_key().is_none());
    assert_eq!(h.message.as_deref(), Some("No older commits to load"));
    h.checkout().unwrap();
    assert!(h.refresh_key().is_none());
    assert_eq!(h.message.as_deref(), Some("Busy — wait for the current operation"));
}

#[test]
fn discard_opens_only_for_unstaged_and_untracked_files() {
    let mut w = WorkingCopyStore::new("/w".into());
    assert!(w.discard_target().is_none());
    assert_eq!(w.message.as_deref(), Some("Loading working copy…"));
    w.wc = Some(parse_status_z("1 MM N... 100644 100644 100644 a b both.txt\u{0}? d/\u{0}? n.txt\u{0}"));
    w.selected = Some(0);
    assert!(w.discard_target().is_none());
    assert_eq!(w.message.as_deref(), Some("staged changes — press s to unstage first, then discard if needed"));
    w.selected = Some(1);
    assert_eq!(w.discard_target(), Some(("both.txt".to_string(), false)));
    w.selected = Some(2);
    assert!(w.discard_target().is_none());
    assert_eq!(
        w.message.as_deref(),
        Some("directories can't be discarded — stage with S, then remove the path in a terminal")
    );
    w.selected = Some(3);
    assert_eq!(w.discard_target(), Some(("n.txt".to_string(), true)));
    w.mutating = true;
    assert!(w.discard_target().is_none());
    assert_eq!(w.message.as_deref(), Some("Busy — wait for the current operation"));
    w.history_busy_message();
    assert_eq!(w.message.as_deref(), Some("Busy — a history action is finishing in this worktree"));
}

#[test]
fn create_dialog_confirm() {
    assert!(matches!(create_request(" ", "main", "/d", true, "main"), Ok(None)));
    assert!(matches!(create_request("feat", "main", "  ", true, "main"), Ok(None)));
    match create_request("-x", "main", "/d", true, "main") {
        Err(m) => assert_eq!(m, "Names may not start with '-'"),
        _ => panic!("dash names are refused"),
    }
    assert!(create_request("feat", "--base", "/d", true, "main").is_err());
    let q = create_request(" feat ", "", " /r-feat ", true, "develop").unwrap().unwrap();
    assert_eq!((q.path.as_str(), q.branch.as_deref(), q.base.as_str()), ("/r-feat", Some("feat"), "develop"));
    let q = create_request("feat", "dev", "/r-feat", false, "main").unwrap().unwrap();
    assert_eq!((q.branch, q.base.as_str()), (None, "feat"));
}

#[test]
fn remove_dialog_warns_only_for_dirty_worktrees() {
    let e = WorktreeEntry {
        path: "/r-x".into(),
        head: Some("abc123".into()),
        branch: None,
        is_main: false,
        status: WorktreeStatus::Dirty { staged: 1, unstaged: 0, untracked: 0, ahead: 0, behind: 0 },
    };
    let d = remove_dialog_of(&e);
    assert_eq!((d.path.as_str(), d.branch_label.as_str(), d.dirty, d.force), ("/r-x", "abc123", true, false));
    let pending = WorktreeEntry { status: WorktreeStatus::Pending, head: None, ..e };
    let d = remove_dialog_of(&pending);
    assert_eq!((d.branch_label.as_str(), d.dirty), ("?", false));
}

#[test]
fn two_opens_history_one_returns_to_working_copy() {
    let mut d = DetailSync::open_detail();
    assert_eq!(wc_command("2", false, Focus::List, false), WcCommand::OpenHistory);
    assert!(!d.enter_history(false), "a fresh History store loads its own log");
    assert_eq!(d.section, Section::History);
    assert_eq!(history_command("down", false, Focus::List, false), HistoryCommand::CommitNext);
    assert_eq!(history_command("1", false, Focus::List, false), HistoryCommand::ToWorkingCopy);
    d.enter_working_copy();
    assert_eq!(d.section, Section::WorkingCopy);
    assert!(d.history_open);
}

#[test]
fn commits_make_the_history_stale_until_it_reloads() {
    let mut d = DetailSync::open_detail();
    d.enter_history(false);
    d.enter_working_copy();
    // staging changes nothing in history
    assert_eq!(d.working_copy_changed(true, false, false), Reloads { home: true, history: false, working_copy: false });
    assert!(!d.history_stale);
    // a commit with History hidden marks it stale
    d.working_copy_changed(true, true, false);
    assert!(d.history_stale);
    // entering while an action runs keeps it pending
    assert!(!d.enter_history(true));
    assert!(d.history_stale);
    assert!(d.enter_history(false));
    assert!(!d.history_stale);
    // a commit while History shows reloads it at once
    assert_eq!(d.working_copy_changed(true, true, false), Reloads { home: true, history: true, working_copy: false });
    // a checkout re-ran the log and rewrote the files
    d.working_copy_changed(true, true, true);
    assert!(d.history_stale);
    assert_eq!(d.history_changed(true, true), Reloads { home: true, history: false, working_copy: true });
    assert!(!d.history_stale);
    // a worktree add elsewhere leaves a pending reload pending
    d.working_copy_changed(true, true, true);
    d.history_changed(true, false);
    assert!(d.history_stale);
}

const LIST_FOCUSED: RootFocus =
    RootFocus { dialog_open: false, search_focused: false, detail_open: false, list_focused: true };

fn fixture_store() -> WorktreeStore {
    let mut store = WorktreeStore::new();
    store.load_repo("/tmp/t/fixture".to_string());
    let mut entries = parse_worktree_porcelain(
        "worktree /tmp/t/fixture\nHEAD 1111111111111111111111111111111111111111\nbranch refs/heads/main\n\nworktree /tmp/t/feat\nHEAD 1111111111111111111111111111111111111111\nbranch refs/heads/feat\n",
    );
    for e in entries.iter_mut() {
        e.status = WorktreeStatus::Clean { ahead: 0, behind: 0 };
    }
    store.set_entries(entries);
    store.branch_metadata_loaded("main".to_string(), vec!["feat".to_string(), "main".to_string()]);
    store
}

fn type_into(field: &mut TextField, keys: &str) {
    for k in keys.split(' ') {
        field.key(k, Some(k), false, false);
    }
}

fn lists_and_opens_create(store: &WorktreeStore) {
    assert_eq!(store.entries.len(), 2);
    assert!(store.entries[0].is_main);
    assert!(matches!(store.entries[0].status, WorktreeStatus::Clean { .. }));
    assert_eq!(store.entries[1].branch.as_deref(), Some("feat"));
    // "n" opens the create dialog pre-filled with the default base.
    assert_eq!(root_command("n", false, false, false, LIST_FOCUSED), RootCommand::OpenCreate);
    let form = CreateForm::new(&store.default_base);
    assert_eq!(form.base_field().value(), "main");
    // The open dialog takes the keys; the window leaves them alone.
    let in_dialog = RootFocus { dialog_open: true, ..LIST_FOCUSED };
    assert_eq!(root_command("escape", false, false, false, in_dialog), RootCommand::Ignore);
}

#[test]
fn app_lists_worktrees_and_opens_create_dialog() {
    lists_and_opens_create(&fixture_store());
}

#[test]
fn ui_lists_worktrees_and_opens_create_dialog() {
    let store = fixture_store();
    assert_eq!(store.entries.len(), 2);
    assert!(store.entries[0].is_main);
    assert!(matches!(store.entries[0].status, WorktreeStatus::Clean { .. }));
    assert_eq!(store.entries[1].branch.as_deref(), Some("feat"));
    assert_eq!(list_window_command("n", false, false, false, false, false), RootCommand::OpenCreate);
    let form = CreateForm::new(&store.default_base);
    assert_eq!(form.base_field().value(), "main");
    assert_eq!(list_window_command("escape", false, false, false, true, false), RootCommand::Ignore);
}

fn search_filters(mut store: WorktreeStore) {
    assert_eq!(root_command("/", false, false, false, LIST_FOCUSED), RootCommand::FocusSearch);
    let mut search = TextField::new("Search\u{2026} (branch or path)");
    let in_search = RootFocus { search_focused: true, list_focused: false, ..LIST_FOCUSED };
    for k in ["f", "e", "a", "t"] {
        assert_eq!(root_command(k, false, false, false, in_search), RootCommand::Ignore);
    }
    type_into(&mut search, "f e a t");
    store.set_filter(search.value());
    assert_eq!(store.filter, "feat");
    assert_eq!(store.filtered.len(), 1);
    assert_eq!(store.entries[store.filtered[0]].branch.as_deref(), Some("feat"));
    // escape clears the filter and refocuses the list.
    assert_eq!(root_command("escape", false, false, false, in_search), RootCommand::ClearSearch);
    search.set_value("");
    store.set_filter(search.value());
    assert!(store.filter.is_empty());
    assert_eq!(store.filtered.len(), 2);
}

#[test]
fn app_typing_in_search_filters_the_list() {
    search_filters(fixture_store());
}

#[test]
fn ui_typing_in_search_filters_the_list() {
    let mut store = fixture_store();
    assert_eq!(list_window_command("/", false, false, false, false, false), RootCommand::FocusSearch);
    let mut search = TextField::new("Search\u{2026} (branch or path)");
    assert_eq!(list_window_command("f", false, false, false, false, true), RootCommand::Ignore);
    type_into(&mut search, "f e a t");
    store.set_filter(search.value());
    assert_eq!(store.filter, "feat");
    assert_eq!(store.filtered.len(), 1);
    assert_eq!(store.entries[store.filtered[0]].branch.as_deref(), Some("feat"));
    assert_eq!(list_window_command("escape", false, false, false, false, true), RootCommand::ClearSearch);
    search.set_value("");
    store.set_filter(search.value());
    assert!(store.filter.is_empty());
    assert_eq!(store.filtered.len(), 2);
}

#[test]
fn list_window_shortcuts_follow_the_key_table() {
    let k = |key: &str| list_window_command(key, false, false, false, false, false);
    assert_eq!(k("n"), RootCommand::OpenCreate);
    assert_eq!(k("/"), RootCommand::FocusSearch);
    assert_eq!(k("r"), RootCommand::Refresh);
    assert_eq!(k("up"), RootCommand::SelectPrev);
    assert_eq!(k("down"), RootCommand::SelectNext);
    assert_eq!(k("enter"), RootCommand::OpenTerminal);
    assert_eq!(k("backspace"), RootCommand::OpenRemove);
    assert_eq!(k("delete"), RootCommand::OpenRemove);
    assert_eq!(list_window_command("escape", false, false, false, false, true), RootCommand::ClearSearch);
    assert_eq!(list_window_command("n", false, true, false, false, false), RootCommand::Ignore);
}

#[test]
fn enter_drills_into_detail_and_esc_returns() {
    assert_eq!(root_command("enter", false, false, false, LIST_FOCUSED), RootCommand::OpenDetail);
    let in_detail = RootFocus { detail_open: true, list_focused: false, ..LIST_FOCUSED };
    assert_eq!(root_command("escape", false, false, false, in_detail), RootCommand::Detail);
    assert_eq!(wc_command("escape", false, Focus::List, false), WcCommand::CloseDetail);
}

#[test]
fn t_still_opens_terminal_from_list() {
    let store = fixture_store();
    assert_eq!(root_command("t", false, false, false, LIST_FOCUSED), RootCommand::OpenTerminal);
    assert_eq!(store.selected_entry().map(|e| e.path.clone()), Some("/tmp/t/fixture".to_string()));
    // Drilled in, "t" opens a terminal at the same worktree via the
    // detail-context path.
    let in_detail = RootFocus { detail_open: true, list_focused: false, ..LIST_FOCUSED };
    assert_eq!(root_command("t", false, false, false, in_detail), RootCommand::Detail);
    assert_eq!(wc_command("t", false, Focus::List, false), WcCommand::OpenTerminal);
}

#[test]
fn empty_state_path_input_keeps_typing() {
    // The path input holds focus, not the list: "/" must reach the field
    // rather than focus the (unshown) search field.
    let in_input = RootFocus { list_focused: false, ..LIST_FOCUSED };
    let mut input = TextField::new("/path/to/repository");
    for k in "/ U s e r s / g r e g".split(' ') {
        assert_eq!(root_command(k, false, false, false, in_input), RootCommand::Ignore);
    }
    type_into(&mut input, "/ U s e r s / g r e g");
    assert_eq!(input.value(), "/Users/greg");
    assert!(!search_focusable(false, false, false), "no repository: the search field is not shown");
}

#[test]
fn modified_keys_and_dialogs_leave_the_window_alone() {
    assert_eq!(root_command("r", true, false, false, LIST_FOCUSED), RootCommand::Ignore);
    assert_eq!(root_command("r", false, false, true, LIST_FOCUSED), RootCommand::Ignore);
    assert_eq!(root_command("r", false, false, false, LIST_FOCUSED), RootCommand::Refresh);
    assert_eq!(root_command("delete", false, false, false, LIST_FOCUSED), RootCommand::OpenRemove);
    assert_eq!(root_command("backspace", false, false, false, LIST_FOCUSED), RootCommand::OpenRemove);
    assert_eq!(root_command("up", false, false, false, LIST_FOCUSED), RootCommand::SelectPrev);
    assert_eq!(root_command("down", false, false, false, LIST_FOCUSED), RootCommand::SelectNext);
    let in_search = RootFocus { search_focused: true, ..LIST_FOCUSED };
    assert_eq!(root_command("enter", true, false, false, in_search), RootCommand::LeaveSearch);
    assert!(search_focusable(false, false, true));
    assert!(!search_focusable(false, true, true));
    assert!(!search_focusable(true, false, true));
}

use worktree_tool::dialogs::{
    add_remote_ready, branch_name_state, commit_editor_key, commit_note, dialog_key,
    discard_lines, remote_row, remotes_key, remotes_notice, remove_lines, remove_remote_title,
    saved_note, settings_closes, settings_lines, todo_keyword, DialogKey, RemotesKey,
};
use worktree_tool::engine::remotes::RemoteInfo;
use worktree_tool::engine::rewrite::TodoAction;
use worktree_tool::shell::RemoveDialog;
use worktree_tool::terminal::{InstalledTerminal, Launch};

fn remote(name: &str, fetch: &str, push: &str) -> RemoteInfo {
    RemoteInfo { name: name.into(), fetch_url: fetch.into(), push_url: push.into() }
}

#[test]
fn confirm_dialogs_take_escape_and_enter() {
    assert_eq!(dialog_key("escape"), DialogKey::Cancel);
    assert_eq!(dialog_key("enter"), DialogKey::Confirm);
    assert_eq!(dialog_key("x"), DialogKey::Other);
    assert!(settings_closes("escape"));
    assert!(settings_closes("enter"));
    assert!(!settings_closes("down"));
}

#[test]
fn the_commit_editor_confirms_only_with_a_modifier() {
    assert_eq!(commit_editor_key("enter", false, false), DialogKey::Other);
    assert_eq!(commit_editor_key("enter", true, false), DialogKey::Confirm);
    assert_eq!(commit_editor_key("enter", false, true), DialogKey::Confirm);
    assert_eq!(commit_editor_key("escape", false, false), DialogKey::Cancel);
    assert_eq!(
        commit_note("2 files staged", "'#'"),
        "2 files staged \u{2014} lines starting with '#' are removed from the message"
    );
}

#[test]
fn branch_names_need_text_and_no_leading_dash() {
    let (ok, label) = branch_name_state("  feat ", false);
    assert!(ok);
    assert_eq!(label, "Create");
    assert!(!branch_name_state("   ", true).0);
    let (ok, label) = branch_name_state(" -x", true);
    assert!(!ok);
    assert_eq!(label, "Rename");
}

#[test]
fn remove_dialog_lines_show_the_force_switch_for_dirty_worktrees() {
    let d = RemoveDialog {
        path: "/r/wt".into(),
        branch_label: "feat".into(),
        dirty: true,
        force: false,
    };
    let l = remove_lines(&d);
    assert_eq!(l.branch, "Branch: feat");
    assert_eq!(l.path, "Path: /r/wt");
    assert_eq!(l.warning, "This worktree contains uncommitted changes.");
    assert_eq!(l.force.as_deref(), Some("[ ] Force removal (discards uncommitted changes)"));
    let forced = RemoveDialog { force: true, ..d };
    assert_eq!(
        remove_lines(&forced).force.as_deref(),
        Some("[x] Force removal (discards uncommitted changes)")
    );
    let clean = RemoveDialog { dirty: false, ..forced };
    let l = remove_lines(&clean);
    assert_eq!(l.warning, "This worktree is clean.");
    assert_eq!(l.force, None);
}

#[test]
fn discard_dialog_says_when_the_file_goes() {
    assert_eq!(discard_lines("a.txt", false), vec!["Path: a.txt", "This cannot be undone."]);
    assert_eq!(
        discard_lines("n.txt", true),
        vec!["Path: n.txt", "This cannot be undone.", "The file itself will be deleted."]
    );
}

#[test]
fn settings_highlight_the_saved_terminal_or_automatic() {
    let ts = vec![
        InstalledTerminal {
            id: "kitty".into(),
            name: "kitty".into(),
            launch: Launch::Cli("kitty".into(), vec!["--directory".into(), "{path}".into()]),
        },
        InstalledTerminal {
            id: "iterm".into(),
            name: "iTerm".into(),
            launch: Launch::OpenApp("iTerm".into()),
        },
    ];
    let l = settings_lines(&ts, Some("iterm"), "/home/u/.config/wt/settings.toml", None);
    assert!(!l.auto_selected);
    assert_eq!(l.rows.len(), 2);
    assert!(!l.rows[0].selected);
    assert!(l.rows[1].selected);
    assert_eq!(l.rows[1].name, "iTerm");
    assert_eq!(l.rows[1].detail, "open -a iTerm");
    assert_eq!(l.config, "Config file: /home/u/.config/wt/settings.toml");
    assert_eq!(l.saved, None);
    // A saved terminal that is no longer installed behaves as automatic.
    let l = settings_lines(&ts, Some("alacritty"), "c", Some("/x/settings.toml"));
    assert!(l.auto_selected);
    assert!(l.rows.iter().all(|r| !r.selected));
    assert_eq!(l.saved.as_deref(), Some("Saved: /x/settings.toml"));
    let l = settings_lines(&ts, None, "c", Some(""));
    assert!(l.auto_selected);
    assert_eq!(l.saved, None);
}

#[test]
fn saving_a_choice_leaves_a_note() {
    assert_eq!(saved_note(Ok("/x/settings.toml".into())), "/x/settings.toml");
    assert_eq!(saved_note(Err("denied".into())), "save failed: denied");
}

#[test]
fn remotes_keys_move_add_and_remove() {
    let rs = vec![remote("origin", "u1", "u1"), remote("up", "u2", "p2")];
    let mut sel = 0usize;
    assert_eq!(remotes_key(&rs, &mut sel, "up"), RemotesKey::Stay);
    assert_eq!(sel, 0);
    assert_eq!(remotes_key(&rs, &mut sel, "down"), RemotesKey::Stay);
    assert_eq!(sel, 1);
    assert_eq!(remotes_key(&rs, &mut sel, "down"), RemotesKey::Stay);
    assert_eq!(sel, 1);
    assert_eq!(remotes_key(&rs, &mut sel, "d"), RemotesKey::Remove("up".into()));
    assert_eq!(remotes_key(&rs, &mut sel, "delete"), RemotesKey::Remove("up".into()));
    assert_eq!(remotes_key(&rs, &mut sel, "a"), RemotesKey::Add);
    assert_eq!(remotes_key(&rs, &mut sel, "escape"), RemotesKey::Close);
    assert_eq!(remotes_key(&rs, &mut sel, "q"), RemotesKey::Stay);
    let mut none = 0usize;
    assert_eq!(remotes_key(&Vec::new(), &mut none, "d"), RemotesKey::Stay);
}

#[test]
fn remotes_rows_and_notices() {
    assert_eq!(remote_row(&remote("origin", "u1", "u1")), ("origin".into(), "u1".into()));
    assert_eq!(
        remote_row(&remote("up", "u2", "p2")),
        ("up".into(), "u2  (push: p2)".into())
    );
    assert_eq!(
        remotes_notice(Some("boom"), true, 0).as_deref(),
        Some("Loading remotes failed: boom")
    );
    assert_eq!(remotes_notice(None, true, 0).as_deref(), Some("Loading\u{2026}"));
    assert_eq!(remotes_notice(None, false, 0).as_deref(), Some("No remotes \u{2014} a adds one"));
    assert_eq!(remotes_notice(None, false, 2), None);
}

#[test]
fn remote_dialogs_text() {
    assert!(add_remote_ready(" origin ", "https://x"));
    assert!(!add_remote_ready("origin", "  "));
    assert!(!add_remote_ready("", "u"));
    assert_eq!(remove_remote_title("origin"), "Remove remote origin?");
}

#[test]
fn todo_rows_keep_their_keyword_width() {
    assert_eq!(todo_keyword(TodoAction::Pick), "pick ");
    assert_eq!(todo_keyword(TodoAction::Drop), "drop ");
    assert_eq!(todo_keyword(TodoAction::Fixup), "fixup");
}

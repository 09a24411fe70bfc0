use worktree_tool::engine::commit::{
    EditorOs,
    aborted_empty, author, check_terminal, comment_char, commit, commit_failed, draft_to_keep,
    editor_failed, msg_file_name, read_failed, resolve_editor, skips_editor, spawn_argv,
    strip_comments, template, CommitOutcome,
};
use worktree_tool::engine::GitError;

fn v(parts: &[&str]) -> Vec<String> {
    parts.iter().map(|s| s.to_string()).collect()
}

#[test]
fn editor_resolution_follows_git_order() {
    assert_eq!(resolve_editor(EditorOs::Other, Some("code -w"), Some("nano"), Some("vi"), None), (v(&["nano"]), false));
    assert_eq!(resolve_editor(EditorOs::Other, Some("code -w"), Some("  "), Some("vi"), None), (v(&["code", "-w"]), false));
    assert_eq!(resolve_editor(EditorOs::Other, None, None, Some(" "), Some("emacs -nw")), (v(&["emacs", "-nw"]), false));
    assert_eq!(resolve_editor(EditorOs::Other, Some(""), None, None, None), (v(&["vim"]), true));
    assert_eq!(resolve_editor(EditorOs::Windows, None, None, None, None), (v(&["notepad"]), true));
    assert_eq!(resolve_editor(EditorOs::FreeBsd, None, Some(" "), None, None), (v(&["ee"]), true));
}

#[test]
fn strip_comments_drops_comment_lines_and_trims() {
    assert_eq!(strip_comments('#', "\n# hi\nfix bug\n\n#x\nmore\n"), "fix bug\n\nmore");
    assert_eq!(strip_comments(';', "; a\n  b  \n"), "b");
    assert_eq!(strip_comments('#', "# only\n"), "");
}

#[test]
fn an_unedited_template_is_empty() {
    let t = template('#', "2 staged files: a, b");
    assert_eq!(
        t,
        "\n# Please enter the commit message for your changes. Lines starting\n# with '#' are ignored, and an empty message aborts the commit.\n#\n# 2 staged files: a, b\n"
    );
    assert_eq!(strip_comments('#', &t), "");
    assert_eq!(aborted_empty(&t, &t, "/tmp/m"), CommitOutcome::AbortedEmpty { draft: None });
    assert_eq!(
        aborted_empty("#typed\n", &t, "/tmp/m"),
        CommitOutcome::AbortedEmpty { draft: Some("/tmp/m".into()) }
    );
}

#[test]
fn the_message_file_replaces_the_first_placeholder() {
    assert_eq!(spawn_argv(&v(&["vim"]), "/m"), v(&["vim", "/m"]));
    assert_eq!(spawn_argv(&v(&["ed", "--f=%s", "%s"]), "/m"), v(&["ed", "--f=/m", "%s"]));
    assert_eq!(spawn_argv(&v(&["x%s%s"]), "/m"), v(&["x/m%s"]));
    assert!(skips_editor(&v(&[":"])));
    assert!(!skips_editor(&v(&[":", "x"])));
}

#[test]
fn comment_char_from_config() {
    assert_eq!(comment_char(None), '#');
    assert_eq!(comment_char(Some("auto")), '#');
    assert_eq!(comment_char(Some(" ; ")), ';');
    assert_eq!(comment_char(Some("")), '#');
}

#[test]
fn messages_name_the_kept_files() {
    assert_eq!(
        editor_failed(&v(&["vim", "-f"]), Some("/d"), "exit 1").message,
        "could not run editor vim -f — your draft is preserved at /d (recommit with: git commit -F \"/d\"): exit 1"
    );
    assert_eq!(editor_failed(&v(&["vim"]), None, "e").message, "could not run editor vim: e");
    assert!(read_failed(true, "/m", "e").message.contains("non-UTF-8"));
    assert!(read_failed(false, "/m", "e").message.starts_with("could not read the commit message file at /m"));
    assert_eq!(
        commit_failed(&GitError { message: "hook".into() }, "/m").message,
        "hook — your commit message is preserved at /m"
    );
    assert_eq!(commit("/m"), v(&["commit", "-q", "-F", "/m"]));
    assert_eq!(msg_file_name(42, 7), "worktree-tool-commit-42-7.msg");
}

#[test]
fn drafts_and_terminals() {
    assert_eq!(draft_to_keep('#', Some("# c\nkeep me\n")).as_deref(), Some("keep me"));
    assert_eq!(draft_to_keep('#', Some("# c\n")), None);
    assert_eq!(draft_to_keep('#', None), None);
    assert!(check_terminal(&v(&["vim"]), true, false).unwrap_err().message.contains("'vim'"));
    assert!(check_terminal(&v(&["vim"]), false, false).is_ok());
    assert!(check_terminal(&v(&["vim"]), true, true).is_ok());
    assert_eq!(author(Some("Ann"), None), ("Ann".to_string(), "(unset)".to_string()));
}

use worktree_tool::engine::stash::{apply, apply_at, drop, list, pop, pop_at, push};

#[test]
fn lists_entries_with_indices() {
    let out = "\u{0}stash@{0}\u{1}WIP on main: abc subject  \n\u{0}stash@{1}\u{1}On feat: x\n";
    let e = list(out);
    assert_eq!(e.len(), 2);
    assert_eq!(e[0].index, 0);
    assert_eq!(e[0].ref_name, "stash@{0}");
    assert_eq!(e[0].message, "WIP on main: abc subject");
    assert_eq!(e[1].index, 1);
}

#[test]
fn unreadable_index_falls_back_to_position() {
    let e = list("\u{0}weird\u{1}m\u{0}stash@{x}\u{1}n");
    assert_eq!(e[0].index, 0);
    assert_eq!(e[1].index, 1);
}

#[test]
fn stash_argv() {
    assert_eq!(push(None), vec!["stash", "push", "-q", "--include-untracked"]);
    assert_eq!(
        push(Some("msg")),
        vec!["stash", "push", "-q", "--include-untracked", "-m", "msg"]
    );
    assert_eq!(apply(), vec!["stash", "apply", "-q"]);
    assert_eq!(pop(), vec!["stash", "pop", "-q"]);
    assert_eq!(apply_at(3), vec!["stash", "apply", "-q", "stash@{3}"]);
    assert_eq!(pop_at(12), vec!["stash", "pop", "-q", "stash@{12}"]);
    assert_eq!(drop(0), vec!["stash", "drop", "-q", "stash@{0}"]);
}

#[test]
fn the_ref_of_an_entry_parses_back() {
    let out = format!("\u{0}{}\u{1}m\n", apply_at(42)[3]);
    assert_eq!(list(&out)[0].index, 42);
}

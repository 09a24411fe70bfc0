use worktree_tool::engine::working_copy::{group_rows, parse_numstat_z, parse_status_z, status, Group};

/// Status v2 -z: header chunk (LF-joined # lines), a `1` record staged,
/// a `2` rename record whose orig path rides in the NEXT NUL chunk, an
/// unmerged `u` record, an untracked `?` record, and an unstaged-only
/// `1` record so every group has a row.
const Z: &str = "# branch.oid abc\n# branch.head main\n# branch.upstream origin/main\n# branch.ab +2 -1\n\u{0}1 M. N... 100100 100100 100100 a1 a1 staged.txt\u{0}2 R. N... 100100 100100 100100 a1 a1 R100 new/name.txt\u{0}old/name.txt\u{0}u UU N... 100 100 100 100 h1 h2 h3 conflicted.txt\u{0}? untracked dir/file with spaces.txt\u{0}1 .M N... 100100 100100 100100 a1 a1 modified.txt\u{0}";

#[test]
fn parses_headers_records_renames_conflicts_untracked() {
    let wc = parse_status_z(Z);
    assert_eq!(wc.branch.head, "main");
    assert_eq!(wc.branch.upstream.as_deref(), Some("origin/main"));
    assert_eq!((wc.branch.ahead, wc.branch.behind), (2, 1));
    assert_eq!(wc.entries.len(), 5);

    assert_eq!(wc.entries[0].path, "staged.txt");
    assert_eq!(wc.entries[0].index_status, 'M');
    assert_eq!(wc.entries[0].wt_status, '.');

    assert_eq!(wc.entries[1].path, "new/name.txt");
    assert_eq!(wc.entries[1].orig_path.as_deref(), Some("old/name.txt"));

    assert_eq!(wc.entries[2].conflict.as_deref(), Some("UU"));
    assert_eq!(wc.entries[2].path, "conflicted.txt");

    let un = &wc.entries[3];
    assert!(un.untracked);
    assert_eq!(un.path, "untracked dir/file with spaces.txt");
}

#[test]
fn paths_with_spaces_survive_splitn() {
    let wc = parse_status_z("1 .M N... 1 1 1 a b my file.txt\u{0}");
    assert_eq!(wc.entries[0].path, "my file.txt");
}

#[test]
fn detached_head_and_empty_input() {
    let wc = parse_status_z("# branch.head (detached)\n\u{0}");
    assert_eq!(wc.branch.head, "(detached)");
    assert!(wc.entries.is_empty());
    let wc = parse_status_z("");
    assert_eq!(wc.branch.head, "");
    assert!(wc.entries.is_empty());
}

#[test]
fn group_rows_orders_conflicts_staged_unstaged_untracked() {
    let wc = parse_status_z(Z);
    let rows = group_rows(&wc);
    let groups: Vec<Group> = rows.iter().map(|(g, _)| *g).collect();
    assert_eq!(
        groups,
        vec![
            Group::Conflicts,
            Group::Staged,
            Group::Staged,
            Group::Unstaged,
            Group::Untracked
        ]
    );
    // same file staged+unstaged appears in both groups:
    let both = parse_status_z("1 MM N... 1 1 1 a b both.txt\u{0}");
    let groups: Vec<Group> = group_rows(&both).iter().map(|(g, _)| *g).collect();
    assert_eq!(groups, vec![Group::Staged, Group::Unstaged]);
}

#[test]
fn untracked_directory_row_is_detected() {
    let wc = parse_status_z("? vendor/\u{0}");
    assert!(wc.entries[0].is_dir());
}

#[test]
fn numstat_parses_counts_binary_and_skips_rename_sources() {
    let recs = parse_numstat_z("3\t1\ta.txt\u{0}-\t-\timg.png\u{0}0\t0\t\u{0}new.txt\u{0}old.txt\u{0}");
    assert_eq!(
        recs,
        vec![
            ("a.txt".to_string(), Some((3, 1))),
            ("img.png".to_string(), None),
            ("".to_string(), Some((0, 0))),
        ]
    );
}

#[test]
fn snapshot_merges_numstat_into_matching_entries() {
    let raw = b"1 MM N... 1 1 1 a b f.txt\x00? u.txt\x00";
    let wc = status(raw, b"2\t3\tf.txt\x00", b"5\t0\tf.txt\x00");
    assert_eq!(wc.entries[0].unstaged_lines, Some((2, 3)));
    assert_eq!(wc.entries[0].staged_lines, Some((5, 0)));
    assert_eq!(wc.entries[1].unstaged_lines, None);
    assert!(!wc.entries[0].unsupported);
}

#[test]
fn snapshot_flags_non_utf8_paths_as_unsupported() {
    let raw = b"? bad\xffname\x00? good\x00";
    let wc = status(raw, b"", b"");
    assert!(wc.entries[0].unsupported);
    assert!(wc.entries[0].path.contains('\u{FFFD}'));
    assert!(!wc.entries[1].unsupported);
}

#[test]
fn group_titles() {
    assert_eq!(Group::Conflicts.title(), "Conflicts");
    assert_eq!(Group::Untracked.title(), "Untracked");
}

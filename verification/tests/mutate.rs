use worktree_tool::engine::mutate::{
    apply_cached, chunks, content_patch, discard_unstaged, index_entry_args, literal_args, stage,
    unstage, ApplyError,
};

#[test]
fn paths_become_literal_pathspecs() {
    let paths = vec!["a b.txt".to_string(), "*.rs".to_string()];
    assert_eq!(
        literal_args(&["add"], &paths),
        vec!["add", "--", ":(literal)a b.txt", ":(literal)*.rs"]
    );
    assert_eq!(stage(&paths), vec![literal_args(&["add"], &paths)]);
    assert!(stage(&vec![]).is_empty());
    assert_eq!(
        unstage(&paths, true)[0][..4].to_vec(),
        vec!["reset", "-q", "HEAD", "--"]
    );
    assert_eq!(
        unstage(&paths, false)[0][..5].to_vec(),
        vec!["rm", "--cached", "-q", "--force", "--"]
    );
    assert_eq!(discard_unstaged("x"), vec!["checkout", "-q", "--", ":(literal)x"]);
    assert_eq!(index_entry_args("x")[3], ":(literal)x");
}

#[test]
fn long_path_lists_are_batched_by_count() {
    let paths: Vec<String> = (0..450).map(|i| format!("f{i}")).collect();
    let cs = chunks(&paths);
    assert_eq!(cs.iter().map(|c| c.len()).collect::<Vec<_>>(), vec![200, 200, 50]);
    assert_eq!(cs.concat(), paths);
}

#[test]
fn long_path_lists_are_batched_by_bytes() {
    let long = "x".repeat(5000);
    let paths = vec![long.clone(), long.clone(), long.clone(), long.clone(), "y".into()];
    let cs = chunks(&paths);
    // 3 * (5000 + 11) fits 16 KiB, a fourth does not
    assert_eq!(cs.iter().map(|c| c.len()).collect::<Vec<_>>(), vec![3, 2]);
    let huge = vec!["z".repeat(20000), "w".into()];
    assert_eq!(chunks(&huge).iter().map(|c| c.len()).collect::<Vec<_>>(), vec![1, 1]);
}

#[test]
fn content_patch_drops_mode_lines_only() {
    let header = b"diff --git a/f b/f\nold mode 100644\nnew mode 100755\nindex 1..2\n--- a/f\n+++ b/f\n";
    let hunk = b"@@ -1 +1 @@\n-a\n+b\n";
    let p = content_patch(header, hunk);
    assert_eq!(
        p,
        b"diff --git a/f b/f\nindex 1..2\n--- a/f\n+++ b/f\n@@ -1 +1 @@\n-a\n+b\n".to_vec()
    );
}

#[test]
fn stale_index_is_refused() {
    let entry = "100644 abcdef1234567890 0\tf.txt";
    assert_eq!(
        apply_cached(Some("abcdef1"), entry).unwrap(),
        vec!["apply", "--cached", "--whitespace=nowarn"]
    );
    let e = apply_cached(Some("999"), entry).unwrap_err();
    assert!(matches!(e, ApplyError::StaleIndex));
    assert!(e.message().starts_with("the file's staged state changed"));
    assert!(apply_cached(None, "").is_ok());
    assert!(apply_cached(Some("a"), "").is_err());
}

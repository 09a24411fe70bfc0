use worktree_tool::engine::diff::{preview_of, preview_of_kind, Preview, PREVIEW_MAX_BYTES};
use worktree_tool::engine::diff::{diff_staged, diff_unstaged, parse_unified_diff, DiffLineKind};

const PATCH: &str = "diff --git a/f.txt b/f.txt\nindex a1b2c3..d4e5f6 100644\n--- a/f.txt\n+++ b/f.txt\n@@ -1,2 +1,3 @@\n one\n+two\n three\n@@ -10,2 +11,2 @@\n four\n-five\n+six\n\\ No newline at end of file\n";

#[test]
fn parses_hunks_lines_and_no_newline_marker() {
    let d = parse_unified_diff(PATCH.as_bytes());
    assert_eq!(d.hunks.len(), 2);
    assert!(!d.binary);
    assert!(d.header.contains("diff --git a/f.txt"));
    let h0 = &d.hunks[0];
    assert!(h0.header.starts_with("@@ -1,2 +1,3 @@"));
    assert_eq!(h0.lines.len(), 3);
    assert_eq!(h0.lines[0].kind, DiffLineKind::Context);
    assert_eq!(h0.lines[0].content, "one");
    assert_eq!(h0.lines[1].kind, DiffLineKind::Add);
    assert_eq!(h0.lines[1].content, "two");
    let h1 = &d.hunks[1];
    assert_eq!(h1.lines.len(), 3);
    assert_eq!(h1.lines[2].kind, DiffLineKind::Add);
    assert!(h1.lines[2].no_newline, "marker annotates the last + line");
    assert!(!h1.lines.iter().any(|l| l.content.starts_with('\\')));
}

#[test]
fn raw_is_byte_exact_for_hunk_staging() {
    let d = parse_unified_diff(PATCH.as_bytes());
    let raw = &d.hunks[0].raw;
    assert!(raw.starts_with(b"@@ -1,2 +1,3 @@\n one\n+two\n three\n"));
    assert_eq!(
        d.hunks[1].raw,
        b"@@ -10,2 +11,2 @@\n four\n-five\n+six\n\\ No newline at end of file\n"
    );
}

#[test]
fn raw_preserves_non_utf8_bytes_exactly() {
    // 0xFF is not valid UTF-8: display text must lossy-decode, but the
    // hunk raw — the `git apply --cached` payload — must keep the
    // original bytes.
    let mut patch = b"diff --git a/b b/b\n@@ -1 +1 @@\n-old\xff\n".to_vec();
    patch.extend_from_slice(b"+new\xfe\n");
    let d = parse_unified_diff(&patch);
    assert_eq!(d.hunks.len(), 1);
    assert_eq!(d.hunks[0].raw, patch[b"diff --git a/b b/b\n".len()..]);
    assert!(d.hunks[0].lines[0].content.contains('\u{FFFD}'));
}

#[test]
fn detects_binary_and_mode_only_changes() {
    let d = parse_unified_diff("diff --git a/img.png b/img.png\nindex a..b 100644\nBinary files a/img.png and b/img.png differ\n".as_bytes());
    assert!(d.binary);
    assert!(d.hunks.is_empty());
    let d = parse_unified_diff(
        "diff --git a/s.sh b/s.sh\nold mode 100644\nnew mode 100755\n".as_bytes(),
    );
    assert!(!d.binary);
    assert!(d.hunks.is_empty());
}

#[test]
fn empty_input_is_empty_diff() {
    let d = parse_unified_diff(b"");
    assert!(d.hunks.is_empty());
    assert!(d.header.is_empty());
}

#[test]
fn header_and_hunks_concatenate_back_to_the_input() {
    let d = parse_unified_diff(PATCH.as_bytes());
    let mut all = d.header_raw.clone();
    for h in &d.hunks {
        all.extend_from_slice(&h.raw);
    }
    assert_eq!(all, PATCH.as_bytes());
    assert_eq!(d.header, "diff --git a/f.txt b/f.txt\nindex a1b2c3..d4e5f6 100644\n--- a/f.txt\n+++ b/f.txt\n");
}

#[test]
fn diff_commands_use_literal_pathspecs_after_the_separator() {
    assert_eq!(
        diff_unstaged("a b.txt"),
        vec!["--no-optional-locks", "diff", "--no-color", "--no-ext-diff", "-U3", "--", ":(literal)a b.txt"]
    );
    assert_eq!(
        diff_staged("x"),
        vec!["--no-optional-locks", "diff", "--cached", "--no-color", "--no-ext-diff", "-U3", "--", ":(literal)x"]
    );
}

#[test]
fn preview_sniffs_binary_and_caps_text() {
    assert_eq!(preview_of_kind(false, false, false), Some(Preview::Missing));
    assert_eq!(preview_of_kind(true, true, false), Some(Preview::Directory));
    assert_eq!(preview_of_kind(true, false, false), Some(Preview::Binary));
    assert_eq!(preview_of_kind(true, false, true), None);
    assert_eq!(preview_of(b"ab\0c"), Preview::Binary);
    assert_eq!(
        preview_of(b"hello\n"),
        Preview::Text { content: "hello\n".into(), truncated: false }
    );
    let mut big = vec![b'a'; PREVIEW_MAX_BYTES + 1];
    big[9000] = 0; // past the sniff window
    match preview_of(&big) {
        Preview::Text { content, truncated } => {
            assert!(truncated);
            assert_eq!(content.len(), PREVIEW_MAX_BYTES);
        }
        other => panic!("expected text, got {other:?}"),
    }
}

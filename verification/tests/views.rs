use worktree_tool::branch_store::{BranchStore, Pane};
use worktree_tool::engine::branches::BranchInfo;
use worktree_tool::engine::stash::StashEntry;
use worktree_tool::engine::diff::{parse_unified_diff, DiffLineKind, Preview};
use worktree_tool::engine::history::{parse_commit_files, parse_log};
use worktree_tool::engine::working_copy::{parse_status_z, Group};
use worktree_tool::history_store::HistoryStore;
use worktree_tool::model::{WorktreeEntry, WorktreeStatus};
use worktree_tool::shell::{wc_command, Focus, WcCommand};
use worktree_tool::views::badges::Tone;
use worktree_tool::views::branches::{branch_list, branches_chrome, BranchList};
use worktree_tool::views::diff_pane::{diff_body, header_summary_text, DiffItem};
use worktree_tool::views::history::{
    commit_detail, commit_list, history_footer, history_header, CommitDetail, CommitList,
};
use worktree_tool::views::home::{detail_title, home_row, status_left};
use worktree_tool::views::working_copy::{author_line, file_list, wc_header, wc_pane};
use worktree_tool::wc_store::{FileDetail, WorkingCopyStore};

fn branch(short: &str, current: bool, remote: bool, ahead: u32, behind: u32) -> BranchInfo {
    BranchInfo {
        ref_name: format!("refs/heads/{short}"),
        short: short.into(),
        is_current: current,
        is_remote: remote,
        ahead,
        behind,
    }
}

fn store() -> BranchStore {
    let mut s = BranchStore::new("/w".into());
    s.branches = vec![
        branch("main", false, false, 0, 0),
        branch("feat", true, false, 2, 1),
        branch("origin/main", false, true, 0, 0),
    ];
    s.stashes = vec![StashEntry {
        index: 0,
        message: "WIP on feat: abc subject".into(),
        ref_name: "stash@{0}".into(),
    }];
    s.selected = Some(1);
    s.selected_stash = Some(0);
    s
}

#[test]
fn branches_header_shows_the_current_branch_and_divergence() {
    let s = store();
    let c = branches_chrome(&s, true);
    assert_eq!(c.header, "feat ↑2 ↓1");
    assert_eq!(c.pane_title, "BRANCHES (3)");
    assert_eq!(c.tab_hint, "tab → stashes (1)");
    assert!(c.footer.starts_with("↑↓ branch · enter switch"));
    let c = branches_chrome(&s, false);
    assert_eq!(c.footer, "1/2/3 section · esc back");
    let empty = BranchStore::new("/w".into());
    assert_eq!(branches_chrome(&empty, true).header, "(no branch) ");
}

#[test]
fn stash_pane_titles_and_rows() {
    let mut s = store();
    s.pane = Pane::Stashes;
    let c = branches_chrome(&s, true);
    assert_eq!(c.pane_title, "STASHES (1)");
    assert_eq!(c.tab_hint, "tab → branches (3)");
    assert_eq!(c.footer, "↑↓ stash · p pop · a apply · D drop · tab branches · esc back");
    let BranchList::Rows(rows) = branch_list(&s) else { panic!("rows") };
    assert_eq!(rows.len(), 1);
    assert_eq!(rows[0].marker, "⋯");
    assert_eq!(rows[0].label, "stash@{0}");
    assert_eq!(rows[0].hint, "WIP on feat: abc subject");
    assert!(rows[0].selected);
}

#[test]
fn branch_rows_mark_current_selected_and_remote() {
    let s = store();
    let BranchList::Rows(rows) = branch_list(&s) else { panic!("rows") };
    assert_eq!(rows.len(), 3);
    assert_eq!(rows[1].marker, "●");
    assert_eq!(rows[0].marker, " ");
    assert!(rows[1].selected && !rows[0].selected);
    assert!(rows[2].remote);
    assert_eq!(rows[2].label, "origin/main");
}

#[test]
fn branch_list_failure_and_empty_panes() {
    let mut s = BranchStore::new("/w".into());
    assert!(matches!(branch_list(&s), BranchList::Empty(t) if t == "No branches"));
    s.pane = Pane::Stashes;
    assert!(
        matches!(branch_list(&s), BranchList::Empty(t) if t == "No stashes — z stashes the working copy")
    );
    s.load_failed = true;
    s.message = Some("git failed".into());
    assert!(matches!(branch_list(&s), BranchList::Failed(t) if t == "git failed"));
}

fn wc_with(status: &str) -> WorkingCopyStore {
    let mut w = WorkingCopyStore::new("/w".into());
    let t = w.refresh().unwrap();
    w.refreshed(&t, Ok(parse_status_z(status)), None, None);
    w
}

fn line_text(items: &[DiffItem], kind: DiffLineKind, text: &str) -> bool {
    items.iter().any(|i| matches!(i, DiffItem::Line(k, _, t) if *k == kind && t == text))
}

#[test]
fn diff_pane_renders_selected_file_and_caps_long_files() {
    let mut w = wc_with("# branch.head main\u{0}1 .M N... 100644 100644 100644 a b f.txt\u{0}");
    assert_eq!(w.selected, Some(0));
    w.detail = Some(FileDetail::Diff(parse_unified_diff(
        b"diff --git a/f.txt b/f.txt\nindex 1..2 100644\n--- a/f.txt\n+++ b/f.txt\n@@ -1 +1,2 @@\n one\n+two\n",
    )));
    let items = wc_pane(&w);
    assert!(matches!(&items[0], DiffItem::Header(h) if h == "diff --git a/f.txt b/f.txt  ·  index 1..2 100644  ·  --- a/f.txt  ·  +++ b/f.txt"));
    assert!(matches!(&items[1], DiffItem::Hunk(h) if h.starts_with("@@ -1 +1,2 @@")));
    assert!(line_text(&items, DiffLineKind::Add, "two"), "the +two modification line is in the rendered diff");
    assert!(matches!(&items[3], DiffItem::Line(DiffLineKind::Add, m, _) if m == "+"));
    // tab moves between the file list and the diff
    assert_eq!(wc_command("tab", false, Focus::List, false), WcCommand::FocusDiff);
    assert_eq!(wc_command("tab", false, Focus::Detail, false), WcCommand::FocusFiles);
    // a long file is capped with a trailer
    let mut long = String::from("diff --git a/l b/l\n@@ -0,0 +1,6000 @@\n");
    for i in 0..6000 {
        long.push_str(&format!("+l{i}\n"));
    }
    let body = diff_body(&parse_unified_diff(long.as_bytes()));
    assert_eq!(body.len(), 1 + 5000 + 1);
    assert!(matches!(body.last(), Some(DiffItem::Note(n)) if n == "… 1000 more lines — open the file in your editor"));
}

#[test]
fn diff_cap_spans_hunks() {
    let mut d = String::from("diff --git a/l b/l\n");
    for h in 0..3 {
        d.push_str(&format!("@@ -{0},0 +{0},2000 @@\n", h * 3000 + 1));
        for i in 0..2000 {
            d.push_str(&format!("+h{h}l{i}\n"));
        }
    }
    let body = diff_body(&parse_unified_diff(d.as_bytes()));
    // three hunk rows and exactly 5000 lines, then the trailer
    assert_eq!(body.iter().filter(|i| matches!(i, DiffItem::Hunk(_))).count(), 3);
    assert_eq!(body.iter().filter(|i| matches!(i, DiffItem::Line(..))).count(), 5000);
    assert!(matches!(body.last(), Some(DiffItem::Note(n)) if n == "… 1000 more lines — open the file in your editor"));
    let no_newline = diff_body(&parse_unified_diff(b"diff --git a/x b/x\n@@ -1 +1 @@\n-a\n\\ No newline at end of file\n+b\n"));
    assert!(matches!(&no_newline[1], DiffItem::Line(DiffLineKind::Del, m, t) if m == "\u{2212}" && t == "a\\ (no newline)"));
}

#[test]
fn header_summary_skips_blank_lines() {
    assert_eq!(header_summary_text("a\n\nb\r\nc\n"), "a  ·  b  ·  c");
    assert_eq!(header_summary_text(""), "");
}

#[test]
fn wc_pane_placeholders() {
    let mut w = wc_with("# branch.head main\u{0}? new.txt\u{0}");
    w.detail = None;
    assert!(matches!(&wc_pane(&w)[..], [DiffItem::Note(n)] if n == "No selection"));
    w.detail = Some(FileDetail::Preview(Preview::Text { content: "a\nb\n".into(), truncated: true }));
    let items = wc_pane(&w);
    assert!(matches!(&items[..], [DiffItem::Text(a), DiffItem::Text(b), DiffItem::Note(n)]
        if a == "a" && b == "b" && n == "… truncated — open the file in your editor"));
    w.detail = Some(FileDetail::Preview(Preview::Directory));
    assert!(matches!(&wc_pane(&w)[..], [DiffItem::Note(n)] if n == "Untracked directory — press S to stage its contents"));
    w.detail = Some(FileDetail::Preview(Preview::Missing));
    assert!(matches!(&wc_pane(&w)[..], [DiffItem::Note(n)] if n == "File missing on disk"));
    w.detail = Some(FileDetail::Failed("boom".into()));
    assert!(matches!(&wc_pane(&w)[..], [DiffItem::Failure(n)] if n == "boom"));
    let mut c = wc_with("# branch.head main\u{0}u UU N... 100644 100644 100644 100644 a b c c.txt\u{0}");
    c.detail = Some(FileDetail::Preview(Preview::Binary));
    assert!(matches!(&wc_pane(&c)[..], [DiffItem::Note(a), DiffItem::Note(b)]
        if a == "Resolve in your editor, then press s to mark resolved" && b == "Binary file — not shown"));
}

#[test]
fn file_list_rows_show_each_surface() {
    let w = wc_with("# branch.head main\u{0}# branch.ab +2 -1\u{0}1 MM N... 100644 100644 100644 a b both.txt\u{0}2 R. N... 100644 100644 100644 a b R100 new.txt\u{0}old.txt\u{0}? u.txt\u{0}");
    assert_eq!(wc_header(&w), "main ↑2 ↓1");
    let l = file_list(&w);
    let shown: Vec<(Group, char, &str, bool, bool)> = l
        .rows
        .iter()
        .map(|r| (r.group, r.letter, r.path.as_str(), r.starts_group, r.selected))
        .collect();
    assert_eq!(
        shown,
        vec![
            (Group::Staged, 'M', "both.txt", true, true),
            (Group::Staged, 'R', "old.txt → new.txt", false, false),
            (Group::Unstaged, 'M', "both.txt", true, false),
            (Group::Untracked, '?', "u.txt", true, false),
        ]
    );
    assert_eq!(l.end, None);
    let clean = wc_with("# branch.head main\u{0}");
    assert_eq!(file_list(&clean).end.as_deref(), Some("Working tree clean"));
    let loading = WorkingCopyStore::new("/w".into());
    assert_eq!(file_list(&loading).end.as_deref(), Some("Loading working copy…"));
    assert_eq!(wc_header(&loading), "… ");
    let mut many = String::from("# branch.head main\u{0}");
    for i in 0..1005 {
        many.push_str(&format!("? f{i}\u{0}"));
    }
    let l = file_list(&wc_with(&many));
    assert_eq!(l.rows.len(), 1000);
    assert_eq!(l.end.as_deref(), Some("… 5 more files — stage them from the terminal to narrow the list"));
    assert_eq!(author_line(&Some(("Ann".into(), "a@x".into()))).as_deref(), Some("Ann <a@x>"));
    assert_eq!(author_line(&None), None);
}

fn entry(branch: Option<&str>, status: WorktreeStatus) -> WorktreeEntry {
    WorktreeEntry {
        path: "/r/wt".into(),
        head: Some("abc1234".into()),
        branch: branch.map(String::from),
        is_main: false,
        status,
    }
}

#[test]
fn history_header_and_footer() {
    let e = entry(Some("feat"), WorktreeStatus::Dirty { staged: 1, unstaged: 0, untracked: 0, ahead: 3, behind: 0 });
    assert_eq!(history_header(Some(&e)), "feat ↑3 ");
    assert_eq!(history_header(None), "… ");
    assert!(history_footer(true, true).starts_with("↑↓ file"));
    assert!(history_footer(false, true).starts_with("↑↓ commit"));
    assert_eq!(history_footer(false, false), "");
}

fn rec(hash: &str, parents: &str, ts: i64, refs: &str) -> String {
    format!("\u{0}{hash}\u{1}{}\u{1}{parents}\u{1}Ann\u{1}{ts}\u{1}{refs}\u{1}s {hash}\n", &hash[..3])
}

#[test]
fn history_files_pane_loads_the_commit_diff() {
    let mut h = HistoryStore::new_with_batch("/w".into(), 50);
    let load = h.refresh();
    let text = rec("ccccccc", "bbbbbbb", 1_700_000_000, "HEAD -> main") + &rec("bbbbbbb", "", 1_699_999_700, "");
    let files = h.refreshed(&load, Ok(parse_log(text.as_bytes()))).unwrap();
    let diff = h.files_loaded(&files, Ok(parse_commit_files(b"M\0h.txt\0"))).unwrap();
    h.file_diff_loaded(&diff, Ok(parse_unified_diff(b"diff --git a/h.txt b/h.txt\n@@ -1 +1 @@\n-one\n+two\n")));
    let CommitDetail::Files(chips, items) = commit_detail(&h) else { panic!("files") };
    assert_eq!(chips.len(), 1);
    assert_eq!(chips[0].letter, 'M');
    assert_eq!(chips[0].path, "h.txt");
    assert!(chips[0].selected);
    assert!(line_text(&items, DiffLineKind::Add, "two"));
    let CommitList::Rows(rows, more) = commit_list(&h, 1_700_000_000) else { panic!("rows") };
    assert_eq!(rows.len(), 2);
    assert!(rows[0].selected);
    assert_eq!(rows[0].graph, vec!['*']);
    assert_eq!(rows[0].short, "ccc");
    assert_eq!(rows[0].byline, "Ann · now");
    assert_eq!(rows[0].refs.as_deref(), Some("HEAD -> main"));
    assert_eq!(rows[1].byline, "Ann · 5m");
    assert_eq!(rows[1].refs, None);
    assert_eq!(more, None);
}

#[test]
fn history_lists_before_and_after_loading() {
    let h = HistoryStore::new("/w".into());
    assert!(matches!(commit_list(&h, 0), CommitList::Loading));
    assert!(matches!(commit_detail(&h), CommitDetail::Loading));
    let mut h = HistoryStore::new_with_batch("/w".into(), 1);
    let load = h.refresh();
    let text = rec("ccccccc", "bbbbbbb", 0, "") + &rec("bbbbbbb", "", 0, "");
    let files = h.refreshed(&load, Ok(parse_log(text.as_bytes()))).unwrap();
    let CommitList::Rows(rows, more) = commit_list(&h, 0) else { panic!("rows") };
    assert_eq!(rows.len(), 1);
    assert_eq!(more.as_deref(), Some("… older commits — L loads 1 more"));
    h.files_loaded(&files, Ok(parse_commit_files(b"")));
    assert!(matches!(commit_detail(&h), CommitDetail::Empty));
}

#[test]
fn home_rows_status_bar_and_detail_title() {
    assert_eq!(status_left(true, Some(3)), "Working…");
    assert_eq!(status_left(false, Some(42)), "refreshed 42s ago");
    assert_eq!(status_left(false, None), "never refreshed");
    let detached = entry(None, WorktreeStatus::Clean { ahead: 0, behind: 0 });
    let r = home_row(&detached);
    assert_eq!(r.branch, "(abc1234)");
    assert_eq!(r.kind, "linked");
    assert_eq!(r.badge, "clean");
    assert_eq!(r.tone, Tone::Dim);
    assert_eq!(detail_title(&detached), "detached — clean");
    let e = WorktreeEntry { is_main: true, ..entry(Some("main"), WorktreeStatus::Pending) };
    assert_eq!(home_row(&e).kind, "main");
    assert_eq!(detail_title(&e), "main — …");
}

#[test]
fn only_hunks_shown_whole_are_stageable() {
    let mut d = String::from("diff --git a/l b/l\n@@ -1,0 +1,4000 @@\n");
    for i in 0..4000 {
        d.push_str(&format!("+a{i}\n"));
    }
    d.push_str("@@ -9000,0 +9000,2000 @@\n");
    for i in 0..2000 {
        d.push_str(&format!("+b{i}\n"));
    }
    let ud = parse_unified_diff(d.as_bytes());
    assert_eq!(WorkingCopyStore::hunk_render_bound(&ud), 1);
    let body = diff_body(&ud);
    // the stageable hunk comes first, whole
    assert!(matches!(&body[0], DiffItem::Hunk(_)));
    assert!(body[1..4001].iter().all(|i| matches!(i, DiffItem::Line(DiffLineKind::Add, _, t) if t.starts_with('a'))));
    // the second is cut off after 1000 of its 2000 lines
    assert!(matches!(&body[4001], DiffItem::Hunk(_)));
    assert_eq!(body.len(), 1 + 4000 + 1 + 1000 + 1);
}

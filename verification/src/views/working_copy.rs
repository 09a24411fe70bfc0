//! What the Working Copy section shows: the header, the file list (one
//! row per surface of a file, grouped, capped) and the diff pane of the
//! selected row.

use crate::engine::diff::Preview;
use crate::engine::working_copy::{group_title, grouped, FileEntry, FileView, Group};
use crate::text::{chars_of, decimal, lines, lines_of, string_from, u64_to_string, views};
use crate::views::badges::{arrows, arrows_of};
use crate::views::diff_pane::{
    body_of, diff_body, header_summary, header_summary_text, item_views, DiffItem, ItemView,
};
use crate::wc_store::{rows_name_entries, FileDetail, WorkingCopyStore, DIFF_RENDER_CAP, MAX_VISIBLE_ROWS};
use vstd::prelude::*;

verus! {

/// The header: the branch (or "…" before the first snapshot) and its
/// divergence from upstream.
pub open spec fn wc_header_of(s: &WorkingCopyStore) -> Seq<char> {
    match s.wc {
        Some(w) => w@.branch.head + " "@ + arrows_of(w@.branch.ahead, w@.branch.behind),
        None => "… "@,
    }
}

pub fn wc_header(store: &WorkingCopyStore) -> (s: String)
    ensures
        s@ == wc_header_of(store),
{
    match &store.wc {
        Some(w) => {
            let mut s = w.branch.head.clone();
            s.append(" ");
            s.append(arrows(w.branch.ahead, w.branch.behind).as_str());
            s
        },
        None => String::from_str("… "),
    }
}

/// The commit author shown in the footer: "name <email>".
pub fn author_line(author: &Option<(String, String)>) -> (s: Option<String>)
    ensures
        match author {
            Some((n, e)) => s matches Some(t) && t@ == n@ + " <"@ + e@ + ">"@,
            None => s is None,
        },
{
    match author {
        Some((n, e)) => {
            let mut t = n.clone();
            t.append(" <");
            t.append(e.as_str());
            t.append(">");
            Some(t)
        },
        None => None,
    }
}

/// The status letter a row shows: the index letter on the staged
/// surface, the worktree letter on the unstaged one.
pub open spec fn row_letter(g: Group, e: FileView) -> char {
    match g {
        Group::Staged => e.index_status,
        Group::Unstaged => e.wt_status,
        Group::Conflicts => 'U',
        Group::Untracked => '?',
    }
}

/// The added/removed line counts of a row's surface.
pub open spec fn row_counts(g: Group, e: FileView) -> Option<(u64, u64)> {
    match g {
        Group::Staged => e.staged_lines,
        Group::Unstaged => e.unstaged_lines,
        _ => None,
    }
}

/// The path a row shows: a rename as "old → new"; a name git gave in
/// bytes that are not UTF-8 is marked unsupported rather than shown as a
/// path that could be acted on.
pub open spec fn row_path(e: FileView) -> Seq<char> {
    (match e.orig_path {
        Some(o) => o + " → "@ + e.path,
        None => e.path,
    }) + (if e.unsupported {
        "  (non-UTF-8 name — unsupported)"@
    } else {
        seq![]
    })
}

/// One file-list row.
pub struct FileRow {
    pub group: Group,
    /// Index into the snapshot's entries.
    pub entry: usize,
    pub selected: bool,
    /// The first row of its group: the group's title goes above it.
    pub starts_group: bool,
    pub letter: char,
    pub path: String,
    pub counts: Option<(u64, u64)>,
}

/// The file list: its rows (at most `MAX_VISIBLE_ROWS`) and what follows
/// them.
pub struct FileList {
    pub rows: Vec<FileRow>,
    /// Loading or clean when there are no rows; the count left out when
    /// there are too many.
    pub end: Option<String>,
}

pub open spec fn shown_rows(n: nat) -> nat {
    if n < MAX_VISIBLE_ROWS {
        n
    } else {
        MAX_VISIBLE_ROWS as nat
    }
}

pub open spec fn file_row_ok(r: FileRow, s: &WorkingCopyStore, i: int) -> bool {
    let rv = s.row_view();
    let e = s.wc.unwrap()@.entries[rv[i].1 as int];
    &&& r.group == rv[i].0
    &&& r.entry == rv[i].1
    &&& r.selected == (s.selected == Some(i as usize))
    &&& r.starts_group == (i == 0 || rv[i - 1].0 != rv[i].0)
    &&& r.letter == row_letter(rv[i].0, e)
    &&& r.path@ == row_path(e)
    &&& r.counts == row_counts(rv[i].0, e)
}

pub open spec fn list_end_of(s: &WorkingCopyStore) -> Option<Seq<char>> {
    let n = s.row_view().len();
    if n == 0 {
        Some(
            if s.wc is None {
                "Loading working copy…"@
            } else {
                "Working tree clean"@
            },
        )
    } else if n > MAX_VISIBLE_ROWS {
        Some(
            "… "@ + decimal((n - MAX_VISIBLE_ROWS) as nat)
                + " more files — stage them from the terminal to narrow the list"@,
        )
    } else {
        None
    }
}

fn path_text(e: &FileEntry) -> (s: String)
    ensures
        s@ == row_path(e@),
{
    let mut s = match &e.orig_path {
        Some(o) => {
            let mut t = o.clone();
            t.append(" → ");
            t.append(e.path.as_str());
            t
        },
        None => e.path.clone(),
    };
    if e.unsupported {
        s.append("  (non-UTF-8 name — unsupported)");
    }
    proof {
        if !e.unsupported {
            assert(s@ =~= s@ + Seq::<char>::empty());
        }
    }
    s
}

/// The file list as drawn: one row per visible (group, entry), the
/// selected one marked, each group titled at its first row, then the
/// loading / clean text or the count of rows left out.
pub fn file_list(store: &WorkingCopyStore) -> (l: FileList)
    ensures
        l.rows@.len() == shown_rows(store.row_view().len()),
        forall|i: int| 0 <= i < l.rows@.len() ==> file_row_ok(#[trigger] l.rows@[i], store, i),
        match list_end_of(store) {
            Some(t) => l.end matches Some(s) && s@ == t,
            None => l.end is None,
        },
{
    let rows = store.rows();
    let n = rows.len();
    let shown = if n < MAX_VISIBLE_ROWS {
        n
    } else {
        MAX_VISIBLE_ROWS
    };
    let mut out: Vec<FileRow> = Vec::new();
    match &store.wc {
        None => {
            assert(n == 0);
        },
        Some(w) => {
            proof {
                rows_name_entries(w@.entries);
            }
            let mut i: usize = 0;
            while i < shown
                invariant
                    i <= shown <= n,
                    n == rows@.len(),
                    rows@ == store.row_view(),
                    store.wc == Some(*w),
                    rows@ == grouped(w@.entries),
                    forall|k: int|
                        0 <= k < grouped(w@.entries).len() ==> (#[trigger] grouped(
                            w@.entries,
                        )[k]).1 < w@.entries.len(),
                    out@.len() == i,
                    forall|k: int| 0 <= k < i ==> file_row_ok(#[trigger] out@[k], store, k),
                decreases shown - i,
            {
                let (g, idx) = rows[i];
                assert(idx < w.entries@.len());
                let e = &w.entries[idx];
                proof {
                    assert(w@.entries[idx as int] == e@);
                }
                let letter = match g {
                    Group::Staged => e.index_status,
                    Group::Unstaged => e.wt_status,
                    Group::Conflicts => 'U',
                    Group::Untracked => '?',
                };
                let counts = match g {
                    Group::Staged => e.staged_lines,
                    Group::Unstaged => e.unstaged_lines,
                    _ => None,
                };
                let starts = i == 0 || rows[i - 1].0 != g;
                out.push(
                    FileRow {
                        group: g,
                        entry: idx,
                        selected: store.selected == Some(i),
                        starts_group: starts,
                        letter,
                        path: path_text(e),
                        counts,
                    },
                );
                i += 1;
            }
        },
    }
    let end = if n == 0 {
        if store.wc.is_none() {
            Some(String::from_str("Loading working copy…"))
        } else {
            Some(String::from_str("Working tree clean"))
        }
    } else if n > MAX_VISIBLE_ROWS {
        let mut t = String::from_str("… ");
        t.append(u64_to_string((n - MAX_VISIBLE_ROWS) as u64).as_str());
        t.append(" more files — stage them from the terminal to narrow the list");
        Some(t)
    } else {
        None
    };
    FileList { rows: out, end }
}

/// The shown lines of a preview and the truncation note.
pub open spec fn preview_items(content: Seq<char>, truncated: bool) -> Seq<ItemView> {
    let ls = lines(content);
    let shown: int = if ls.len() < DIFF_RENDER_CAP {
        ls.len() as int
    } else {
        DIFF_RENDER_CAP as int
    };
    ls.take(shown).map_values(|l: Seq<char>| ItemView::Text(l)) + (if truncated || ls.len()
        > DIFF_RENDER_CAP {
        seq![ItemView::Note("… truncated — open the file in your editor"@)]
    } else {
        seq![]
    })
}

/// The diff pane's rows for the loaded detail: a note to resolve a
/// conflicted file first, then the diff (its header and capped hunks),
/// the working-tree preview, a placeholder, or the failure.
pub open spec fn detail_items(d: FileDetail) -> Seq<ItemView> {
    match d {
        FileDetail::Diff(ud) => if ud.binary {
            seq![ItemView::Note("Binary file — not shown"@)]
        } else {
            seq![ItemView::Header(header_summary(ud.header@))] + body_of(ud@.hunks)
        },
        FileDetail::Preview(p) => match p {
            Preview::Text { content, truncated } => preview_items(content@, truncated),
            Preview::Binary => seq![ItemView::Note("Binary file — not shown"@)],
            Preview::Directory => seq![
                ItemView::Note("Untracked directory — press S to stage its contents"@),
            ],
            Preview::Missing => seq![ItemView::Note("File missing on disk"@)],
        },
        FileDetail::Failed(m) => seq![ItemView::Failure(m@)],
    }
}

pub open spec fn wc_pane_of(s: &WorkingCopyStore) -> Seq<ItemView> {
    match s.detail {
        None => seq![ItemView::Note("No selection"@)],
        Some(d) => (if s.selected_view() matches Some((Group::Conflicts, _)) {
            seq![ItemView::Note("Resolve in your editor, then press s to mark resolved"@)]
        } else {
            seq![]
        }) + detail_items(d),
    }
}

fn preview_rows(out: &mut Vec<DiffItem>, content: &str, truncated: bool)
    ensures
        item_views(final(out)@) == item_views(old(out)@) + preview_items(content@, truncated),
{
    let ls = lines_of(&chars_of(content));
    let ghost lv = views(ls@);
    let shown = if ls.len() < DIFF_RENDER_CAP {
        ls.len()
    } else {
        DIFF_RENDER_CAP
    };
    let ghost start = item_views(out@);
    let mut i: usize = 0;
    proof {
        assert(lv.take(0).map_values(|l: Seq<char>| ItemView::Text(l)) =~= Seq::<
            ItemView,
        >::empty());
        assert(item_views(out@) =~= start + Seq::<ItemView>::empty());
    }
    while i < shown
        invariant
            i <= shown <= ls@.len(),
            lv == views(ls@),
            item_views(out@) == start + lv.take(i as int).map_values(
                |l: Seq<char>| ItemView::Text(l),
            ),
        decreases shown - i,
    {
        let ghost mid = item_views(out@);
        out.push(DiffItem::Text(string_from(&ls[i])));
        proof {
            assert(item_views(out@) =~= mid.push(ItemView::Text(ls@[i as int]@)));
            assert(lv.take(i + 1).map_values(|l: Seq<char>| ItemView::Text(l)) =~= lv.take(
                i as int,
            ).map_values(|l: Seq<char>| ItemView::Text(l)).push(ItemView::Text(lv[i as int])));
        }
        i += 1;
    }
    let ghost shown_part = item_views(out@);
    assert(lv == lines(content@));
    assert(shown_part == start + lines(content@).take(shown as int).map_values(
        |l: Seq<char>| ItemView::Text(l),
    ));
    if truncated || ls.len() > DIFF_RENDER_CAP {
        out.push(DiffItem::Note(String::from_str("… truncated — open the file in your editor")));
        proof {
            assert(item_views(out@) =~= shown_part.push(
                ItemView::Note("… truncated — open the file in your editor"@),
            ));
        }
    }
    proof {
        assert(item_views(out@) =~= start + preview_items(content@, truncated));
    }
}

fn push_all(out: &mut Vec<DiffItem>, more: Vec<DiffItem>)
    ensures
        item_views(final(out)@) == item_views(old(out)@) + item_views(more@),
{
    let mut more = more;
    let ghost start = item_views(out@);
    let ghost mv = item_views(more@);
    out.append(&mut more);
    proof {
        assert(item_views(out@) =~= start + mv);
    }
}

fn one(it: DiffItem) -> (v: Vec<DiffItem>)
    ensures
        item_views(v@) == seq![it@],
{
    let mut v: Vec<DiffItem> = Vec::new();
    v.push(it);
    proof {
        assert(item_views(v@) =~= seq![it@]);
    }
    v
}

/// The diff pane's rows for the selected row.
pub fn wc_pane(store: &WorkingCopyStore) -> (v: Vec<DiffItem>)
    ensures
        item_views(v@) == wc_pane_of(store),
{
    let detail = match &store.detail {
        None => return one(DiffItem::Note(String::from_str("No selection"))),
        Some(d) => d,
    };
    let mut out: Vec<DiffItem> = Vec::new();
    let conflicted = match store.selected_row() {
        Some((Group::Conflicts, _)) => true,
        _ => false,
    };
    if conflicted {
        out.push(
            DiffItem::Note(
                String::from_str("Resolve in your editor, then press s to mark resolved"),
            ),
        );
    }
    let ghost lead = item_views(out@);
    proof {
        assert(lead =~= (if store.selected_view() matches Some((Group::Conflicts, _)) {
            seq![ItemView::Note("Resolve in your editor, then press s to mark resolved"@)]
        } else {
            seq![]
        }));
    }
    match detail {
        FileDetail::Diff(ud) => {
            if ud.binary {
                push_all(&mut out, one(DiffItem::Note(String::from_str("Binary file — not shown"))));
            } else {
                push_all(&mut out, one(DiffItem::Header(header_summary_text(ud.header.as_str()))));
                push_all(&mut out, diff_body(ud));
            }
        },
        FileDetail::Preview(p) => match p {
            Preview::Text { content, truncated } => preview_rows(&mut out, content.as_str(), *truncated),
            Preview::Binary => push_all(
                &mut out,
                one(DiffItem::Note(String::from_str("Binary file — not shown"))),
            ),
            Preview::Directory => push_all(
                &mut out,
                one(
                    DiffItem::Note(
                        String::from_str("Untracked directory — press S to stage its contents"),
                    ),
                ),
            ),
            Preview::Missing => push_all(
                &mut out,
                one(DiffItem::Note(String::from_str("File missing on disk"))),
            ),
        },
        FileDetail::Failed(m) => push_all(&mut out, one(DiffItem::Failure(m.clone()))),
    }
    proof {
        assert(item_views(out@) =~= wc_pane_of(store));
    }
    out
}

} // verus!

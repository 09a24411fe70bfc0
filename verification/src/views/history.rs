//! What the History section shows: the header, the commit list with its
//! text graph and relative ages, and the selected commit's files and
//! diff.

use crate::engine::diff::UnifiedDiff;
use crate::engine::history::{CommitFile, GraphCell, GraphRow, LogCommit};
use crate::history_store::HistoryStore;
use crate::model::{WorktreeEntry, WorktreeStatus};
use crate::text::{decimal, u64_to_string};
use crate::views::badges::{arrows, arrows_of};
use crate::views::diff_pane::{
    body_of, diff_body, header_summary, header_summary_text, item_views, DiffItem, ItemView,
};
use vstd::prelude::*;

verus! {

/// Rough relative age for the commit list: "now", minutes, hours, days
/// (under two weeks), weeks (under a year), else years; a timestamp in
/// the future counts as now.
pub open spec fn age_label_of(timestamp: i64, now: i64) -> Seq<char> {
    let d = now - timestamp;
    let secs: int = if d > 0 {
        d
    } else {
        0
    };
    if secs < 60 {
        "now"@
    } else if secs < 3600 {
        decimal((secs / 60) as nat) + "m"@
    } else if secs < 86400 {
        decimal((secs / 3600) as nat) + "h"@
    } else if secs < 14 * 86400 {
        decimal((secs / 86400) as nat) + "d"@
    } else if secs < 365 * 86400 {
        decimal((secs / 604800int) as nat) + "w"@
    } else {
        decimal((secs / 31536000int) as nat) + "y"@
    }
}

fn with_unit(n: u64, unit: &str) -> (s: String)
    ensures
        s@ == decimal(n as nat) + unit@,
{
    let mut s = u64_to_string(n);
    s.append(unit);
    s
}

/// Formats the age of a commit at `timestamp` seen at `now` (unix
/// seconds).
pub fn age_label(timestamp: i64, now: i64) -> (s: String)
    requires
        i64::MIN <= now - timestamp <= i64::MAX,
    ensures
        s@ == age_label_of(timestamp, now),
{
    let d = now - timestamp;
    let secs: u64 = if d > 0 {
        d as u64
    } else {
        0
    };
    if secs < 60 {
        String::from_str("now")
    } else if secs < 3600 {
        with_unit(secs / 60, "m")
    } else if secs < 86400 {
        with_unit(secs / 3600, "h")
    } else if secs < 14 * 86400 {
        with_unit(secs / 86400, "d")
    } else if secs < 365 * 86400 {
        with_unit(secs / (7 * 86400), "w")
    } else {
        with_unit(secs / (365 * 86400), "y")
    }
}

/// The divergence the home list knows of a worktree.
pub open spec fn entry_arrows(e: Option<WorktreeEntry>) -> (u32, u32) {
    match e {
        Some(entry) => match entry.status {
            WorktreeStatus::Clean { ahead, behind } => (ahead, behind),
            WorktreeStatus::Dirty { ahead, behind, .. } => (ahead, behind),
            _ => (0, 0),
        },
        None => (0, 0),
    }
}

/// The section header: the worktree's branch as the home list has it
/// ("…" without one) and its divergence from upstream.
pub open spec fn history_header_of(e: Option<WorktreeEntry>) -> Seq<char> {
    (match e {
        Some(entry) => match entry.branch {
            Some(b) => b@,
            None => "…"@,
        },
        None => "…"@,
    }) + " "@ + arrows_of(entry_arrows(e).0, entry_arrows(e).1)
}

pub fn history_header(entry: Option<&WorktreeEntry>) -> (s: String)
    ensures
        s@ == history_header_of(match entry {
            Some(e) => Some(*e),
            None => None,
        }),
{
    let mut s = match entry {
        Some(e) => match &e.branch {
            Some(b) => b.clone(),
            None => String::from_str("…"),
        },
        None => String::from_str("…"),
    };
    let (a, b) = match entry {
        Some(e) => match &e.status {
            WorktreeStatus::Clean { ahead, behind } => (*ahead, *behind),
            WorktreeStatus::Dirty { ahead, behind, .. } => (*ahead, *behind),
            _ => (0, 0),
        },
        None => (0, 0),
    };
    s.append(" ");
    s.append(arrows(a, b).as_str());
    s
}

/// The footer's key hints for the focused pane.
pub fn history_footer(files_focused: bool, list_focused: bool) -> (s: String)
    ensures
        s@ == (if files_focused {
            "↑↓ file · tab back to commits · S stage all · 1/2 section · esc back"@
        } else if list_focused {
            "↑↓ commit · y copy hash · x checkout · w new worktree · L load more · r refresh · t terminal · 1/2 section · esc back"@
        } else {
            seq![]
        }),
{
    if files_focused {
        String::from_str("↑↓ file · tab back to commits · S stage all · 1/2 section · esc back")
    } else if list_focused {
        String::from_str(
            "↑↓ commit · y copy hash · x checkout · w new worktree · L load more · r refresh · t terminal · 1/2 section · esc back",
        )
    } else {
        String::new()
    }
}

/// A graph cell's glyph.
pub open spec fn cell_glyph(c: GraphCell) -> char {
    match c {
        GraphCell::Commit => '*',
        GraphCell::Wire => '│',
        GraphCell::Empty => ' ',
    }
}

/// One commit-list row.
pub struct CommitRow {
    pub selected: bool,
    /// One glyph per lane; the commit's own lane is drawn highlighted.
    pub graph: Vec<char>,
    pub lane: usize,
    pub short: String,
    pub subject: String,
    /// "author · age".
    pub byline: String,
    /// The ref names, when there are any.
    pub refs: Option<String>,
}

/// What the commit list holds.
pub enum CommitList {
    /// Loading failed: the store's message.
    Failed(String),
    Loading,
    /// The rows, then the hint to load more when the list is as long as
    /// the log was asked for.
    Rows(Vec<CommitRow>, Option<String>),
}

pub open spec fn commit_row_ok(r: CommitRow, c: LogCommit, g: GraphRow, selected: bool, now: i64) -> bool {
    &&& r.selected == selected
    &&& r.graph@ == g.cells@.map_values(|x: GraphCell| cell_glyph(x))
    &&& r.lane == g.lane
    &&& r.short@ == c.short@
    &&& r.subject@ == c.subject@
    &&& r.byline@ == c.author@ + " · "@ + age_label_of(c.timestamp, now)
    &&& match r.refs {
        Some(t) => c.refs@.len() > 0 && t@ == c.refs@,
        None => c.refs@.len() == 0,
    }
}

pub open spec fn more_hint_of(count: nat, max_count: usize) -> Option<Seq<char>> {
    if count >= max_count {
        Some("… older commits — L loads "@ + decimal(max_count as nat) + " more"@)
    } else {
        None
    }
}

fn glyphs(cells: &Vec<GraphCell>) -> (v: Vec<char>)
    ensures
        v@ == cells@.map_values(|x: GraphCell| cell_glyph(x)),
{
    let mut v: Vec<char> = Vec::new();
    let mut i: usize = 0;
    while i < cells.len()
        invariant
            i <= cells@.len(),
            v@ == cells@.take(i as int).map_values(|x: GraphCell| cell_glyph(x)),
        decreases cells@.len() - i,
    {
        let c = match cells[i] {
            GraphCell::Commit => '*',
            GraphCell::Wire => '│',
            GraphCell::Empty => ' ',
        };
        v.push(c);
        proof {
            assert(cells@.take(i + 1).map_values(|x: GraphCell| cell_glyph(x)) =~= cells@.take(
                i as int,
            ).map_values(|x: GraphCell| cell_glyph(x)).push(cell_glyph(cells@[i as int])));
        }
        i += 1;
    }
    proof {
        assert(cells@.take(cells@.len() as int) =~= cells@);
    }
    v
}

/// The commit list: the failure, "loading" until the first page lands,
/// else a row per commit (graph, short hash, subject, author and age,
/// refs) and the load-more hint. Ages are taken at `now`.
pub fn commit_list(store: &HistoryStore, now: i64) -> (l: CommitList)
    requires
        store.rows@.len() >= store.commits@.len(),
        forall|i: int|
            0 <= i < store.commits@.len() ==> i64::MIN <= now - (#[trigger] store.commits@[i]).timestamp
                <= i64::MAX,
    ensures
        store.load_failed ==> (l matches CommitList::Failed(m) && m@ == (match store.message {
            Some(t) => t@,
            None => seq![],
        })),
        !store.load_failed && store.commits@.len() == 0 ==> l is Loading,
        !store.load_failed && store.commits@.len() > 0 ==> (l matches CommitList::Rows(rows, more)
            && rows@.len() == store.commits@.len() && (forall|i: int|
            0 <= i < rows@.len() ==> commit_row_ok(
                #[trigger] rows@[i],
                store.commits@[i],
                store.rows@[i],
                store.selected == Some(i as usize),
                now,
            )) && match more_hint_of(store.commits@.len(), store.max_count) {
            Some(t) => more matches Some(s) && s@ == t,
            None => more is None,
        }),
{
    if store.load_failed {
        let m = match &store.message {
            Some(t) => t.clone(),
            None => String::new(),
        };
        return CommitList::Failed(m);
    }
    if store.commits.len() == 0 {
        return CommitList::Loading;
    }
    let mut rows: Vec<CommitRow> = Vec::new();
    let mut i: usize = 0;
    while i < store.commits.len()
        invariant
            i <= store.commits@.len() <= store.rows@.len(),
            forall|k: int|
                0 <= k < store.commits@.len() ==> i64::MIN <= now - (
                #[trigger] store.commits@[k]).timestamp <= i64::MAX,
            rows@.len() == i,
            forall|k: int|
                0 <= k < i ==> commit_row_ok(
                    #[trigger] rows@[k],
                    store.commits@[k],
                    store.rows@[k],
                    store.selected == Some(k as usize),
                    now,
                ),
        decreases store.commits@.len() - i,
    {
        let c = &store.commits[i];
        let g = &store.rows[i];
        let mut byline = c.author.clone();
        byline.append(" · ");
        byline.append(age_label(c.timestamp, now).as_str());
        let refs = if c.refs.unicode_len() > 0 {
            Some(c.refs.clone())
        } else {
            None
        };
        rows.push(
            CommitRow {
                selected: store.selected == Some(i),
                graph: glyphs(&g.cells),
                lane: g.lane,
                short: c.short.clone(),
                subject: c.subject.clone(),
                byline,
                refs,
            },
        );
        i += 1;
    }
    let more = if store.commits.len() >= store.max_count {
        let mut t = String::from_str("… older commits — L loads ");
        t.append(u64_to_string(store.max_count as u64).as_str());
        t.append(" more");
        Some(t)
    } else {
        None
    };
    CommitList::Rows(rows, more)
}

/// A changed file's chip: selected, its letter, and its path (a rename
/// or copy as "old → new").
pub struct FileChip {
    pub selected: bool,
    pub letter: char,
    pub path: String,
}

/// The selected commit's side: "loading" until its files land, a note
/// for a commit that changes nothing, else its files and the selected
/// file's diff rows.
pub enum CommitDetail {
    Loading,
    Empty,
    Files(Vec<FileChip>, Vec<DiffItem>),
}

pub open spec fn chip_path(f: CommitFile) -> Seq<char> {
    match f.orig_path {
        Some(o) => o@ + " → "@ + f.path@,
        None => f.path@,
    }
}

/// A commit file's diff rows: the header, then a note where there is no
/// content change (a mode or rename only) or a binary file, else the
/// capped hunks.
pub open spec fn commit_diff_items(ud: UnifiedDiff) -> Seq<ItemView> {
    seq![ItemView::Header(header_summary(ud.header@))] + (if ud.hunks@.len() == 0 && !ud.binary {
        seq![ItemView::Note("No content changes (mode/rename only)"@)]
    } else if ud.binary {
        seq![ItemView::Note("Binary file — not shown"@)]
    } else {
        body_of(ud@.hunks)
    })
}

pub open spec fn file_diff_items(d: Result<UnifiedDiff, String>) -> Seq<ItemView> {
    match d {
        Err(t) => if t@.len() == 0 {
            seq![]
        } else {
            seq![ItemView::Note(t@)]
        },
        Ok(ud) => commit_diff_items(ud),
    }
}

fn diff_rows(ud: &UnifiedDiff) -> (v: Vec<DiffItem>)
    ensures
        item_views(v@) == commit_diff_items(*ud),
{
    let mut v: Vec<DiffItem> = Vec::new();
    v.push(DiffItem::Header(header_summary_text(ud.header.as_str())));
    let ghost head = item_views(v@);
    if ud.hunks.len() == 0 && !ud.binary {
        v.push(DiffItem::Note(String::from_str("No content changes (mode/rename only)")));
    } else if ud.binary {
        v.push(DiffItem::Note(String::from_str("Binary file — not shown")));
    } else {
        let mut body = diff_body(ud);
        let ghost bv = item_views(body@);
        v.append(&mut body);
        proof {
            assert(item_views(v@) =~= head + bv);
        }
    }
    proof {
        assert(item_views(v@) =~= commit_diff_items(*ud));
    }
    v
}

pub fn commit_detail(store: &HistoryStore) -> (d: CommitDetail)
    ensures
        match store.files {
            None => d is Loading,
            Some(fs) => if fs@.len() == 0 {
                d is Empty
            } else {
                d matches CommitDetail::Files(chips, items) && chips@.len() == fs@.len() && (
                forall|i: int|
                    0 <= i < chips@.len() ==> {
                        let c = #[trigger] chips@[i];
                        &&& c.selected == (store.selected_file == Some(i as usize))
                        &&& c.letter == fs@[i].letter
                        &&& c.path@ == chip_path(fs@[i])
                    }) && item_views(items@) == file_diff_items(store.file_diff)
            },
        },
{
    let files = match &store.files {
        None => return CommitDetail::Loading,
        Some(f) => f,
    };
    if files.len() == 0 {
        return CommitDetail::Empty;
    }
    let mut chips: Vec<FileChip> = Vec::new();
    let mut i: usize = 0;
    while i < files.len()
        invariant
            i <= files@.len(),
            store.files == Some(*files),
            chips@.len() == i,
            forall|k: int|
                0 <= k < i ==> {
                    let c = #[trigger] chips@[k];
                    &&& c.selected == (store.selected_file == Some(k as usize))
                    &&& c.letter == files@[k].letter
                    &&& c.path@ == chip_path(files@[k])
                },
        decreases files@.len() - i,
    {
        let f = &files[i];
        let path = match &f.orig_path {
            Some(o) => {
                let mut t = o.clone();
                t.append(" → ");
                t.append(f.path.as_str());
                t
            },
            None => f.path.clone(),
        };
        chips.push(FileChip { selected: store.selected_file == Some(i), letter: f.letter, path });
        i += 1;
    }
    let items = match &store.file_diff {
        Err(t) => if t.unicode_len() == 0 {
            Vec::new()
        } else {
            let mut v: Vec<DiffItem> = Vec::new();
            v.push(DiffItem::Note(t.clone()));
            proof {
                assert(item_views(v@) =~= seq![ItemView::Note(t@)]);
            }
            v
        },
        Ok(ud) => diff_rows(ud),
    };
    proof {
        if store.file_diff is Err && store.file_diff->Err_0@.len() == 0 {
            assert(item_views(items@) =~= Seq::<ItemView>::empty());
        }
    }
    CommitDetail::Files(chips, items)
}

} // verus!

//! State of one open worktree's Working Copy view: the snapshot, the
//! selected row (clamped to the rows the view renders), the loaded
//! detail, and the hovered hunk (clamped to the hunks the diff pane
//! renders, so nothing the user cannot see is ever acted on).

use crate::engine::diff::{Preview, UnifiedDiff};
use crate::engine::sequence::InProgress;
use crate::engine::working_copy::{
    file_views, group_rows, grouped, in_group, rows_of, FileEntry, FileView, Group, WorkingCopy,
};
use crate::text::{chars_of, debug_quoted, decimal, has_char_vec, join, str_debug, u64_to_string};
use vstd::prelude::*;

verus! {

/// Selection and rendering are clamped to this many rows: an undrawn row
/// must never be selectable.
pub const MAX_VISIBLE_ROWS: usize = 1000;

/// Upper bound on diff lines the diff pane renders; it also bounds the
/// hunk cursor: a hunk the pane never renders must not be stageable.
pub const DIFF_RENDER_CAP: usize = 5000;

#[derive(Clone, Copy, Debug, PartialEq, Eq, Structural)]
pub enum Pane {
    Files,
    Diff,
}

#[derive(Clone, Debug)]
pub enum FileDetail {
    Diff(UnifiedDiff),
    Preview(Preview),
    Failed(String),
}

/// What a loaded detail describes.
#[derive(Clone, Copy, Debug, PartialEq, Eq, Structural)]
pub enum DetailKind {
    Staged,
    Unstaged,
    Preview,
}

pub open spec fn kind_name(k: DetailKind) -> Seq<char> {
    match k {
        DetailKind::Staged => "Staged"@,
        DetailKind::Unstaged => "Unstaged"@,
        DetailKind::Preview => "Preview"@,
    }
}

pub struct WorkingCopyStore {
    pub worktree: String,
    pub wc: Option<WorkingCopy>,
    pub detail: Option<FileDetail>,
    /// Index into `rows()`.
    pub selected: Option<usize>,
    pub pane: Pane,
    pub author: Option<(String, String)>,
    /// A mutation (stage/unstage/discard/commit) is in flight.
    pub mutating: bool,
    pub message: Option<String>,
    /// One successful mutation → one home-list refresh.
    pub mutated: bool,
    /// The mutation was a commit — the only one that changes history.
    pub history_changed: bool,
    /// A history action is in flight in the same worktree.
    pub history_busy: bool,
    /// A paused merge / rebase / cherry-pick / revert in this worktree.
    pub in_progress: Option<InProgress>,
    /// (current step, total) of an in-progress rebase.
    pub rebase_step: Option<(u64, u64)>,
    /// The current message is a transient hint.
    pub busy_hint: bool,
    /// A notice to surface after the next mutation completes.
    pub pending_notice: Option<String>,
    /// Guards status snapshot loads.
    pub generation: u64,
    /// The first status snapshot failed.
    pub load_failed: bool,
    /// Guards detail loads.
    pub detail_generation: u64,
    /// A commit-editor session runs (esc abandons it).
    pub editor_active: bool,
    /// Hovered hunk: a bare index, clamped at every use.
    pub hunk_cursor: usize,
    /// What `detail` currently describes: (path, kind).
    pub detail_of: Option<(String, DetailKind)>,
}

proof fn lemma_rows_of_bound(es: Seq<FileView>, g: Group, n: int)
    requires
        0 <= n <= es.len(),
    ensures
        forall|k: int|
            0 <= k < rows_of(es, g, n).len() ==> (#[trigger] rows_of(es, g, n)[k]).1 < n
                && rows_of(es, g, n)[k].0 == g,
    decreases n,
{
    if n > 0 {
        lemma_rows_of_bound(es, g, n - 1);
        let prev = rows_of(es, g, n - 1);
        let cur = rows_of(es, g, n);
        assert forall|k: int| 0 <= k < cur.len() implies (#[trigger] cur[k]).1 < n && cur[k].0
            == g by {
            if k < prev.len() {
                assert(cur[k] == prev[k]);
            }
        }
    }
}

/// Every grouped row names an entry.
pub proof fn rows_name_entries(es: Seq<FileView>)
    ensures
        forall|k: int| 0 <= k < grouped(es).len() ==> (#[trigger] grouped(es)[k]).1 < es.len(),
{
    let n = es.len() as int;
    lemma_rows_of_bound(es, Group::Conflicts, n);
    lemma_rows_of_bound(es, Group::Staged, n);
    lemma_rows_of_bound(es, Group::Unstaged, n);
    lemma_rows_of_bound(es, Group::Untracked, n);
    let a = rows_of(es, Group::Conflicts, n);
    let b = rows_of(es, Group::Staged, n);
    let c = rows_of(es, Group::Unstaged, n);
    let d = rows_of(es, Group::Untracked, n);
    assert forall|k: int| 0 <= k < grouped(es).len() implies (#[trigger] grouped(es)[k]).1
        < es.len() by {
        if k < a.len() {
            assert(grouped(es)[k] == a[k]);
        } else if k < a.len() + b.len() {
            assert(grouped(es)[k] == b[k - a.len()]);
        } else if k < a.len() + b.len() + c.len() {
            assert(grouped(es)[k] == c[k - a.len() - b.len()]);
        } else {
            assert(grouped(es)[k] == d[k - a.len() - b.len() - c.len()]);
        }
    }
}

/// How many rows are in the Staged group.
pub open spec fn staged_rows(rows: Seq<(Group, usize)>) -> nat
    decreases rows.len(),
{
    if rows.len() == 0 {
        0
    } else {
        staged_rows(rows.drop_last()) + if rows.last().0 == Group::Staged {
            1nat
        } else {
            0nat
        }
    }
}

/// Hunks the diff pane renders: those that fit entirely under the line
/// cap, in order (a hunk truncated mid-way is not rendered).
pub open spec fn render_bound(line_counts: Seq<nat>, budget: int) -> nat
    decreases line_counts.len(),
{
    if line_counts.len() == 0 || line_counts[0] > budget {
        0
    } else {
        1 + render_bound(line_counts.drop_first(), budget - line_counts[0])
    }
}

pub open spec fn hunk_line_counts(d: UnifiedDiff) -> Seq<nat> {
    d.hunks@.map_values(|h: crate::engine::diff::DiffHunk| h.lines@.len())
}

impl WorkingCopyStore {
    /// The snapshot, the selection and what is known of the worktree are
    /// as in `other`.
    pub open spec fn same_snapshot(&self, other: &Self) -> bool {
        &&& self.worktree == other.worktree
        &&& self.wc == other.wc
        &&& self.selected == other.selected
        &&& self.pane == other.pane
        &&& self.author == other.author
        &&& self.in_progress == other.in_progress
        &&& self.rebase_step == other.rebase_step
        &&& self.load_failed == other.load_failed
        &&& self.history_busy == other.history_busy
    }

    /// The loaded detail and the hovered hunk are as in `other`.
    pub open spec fn same_detail(&self, other: &Self) -> bool {
        &&& self.detail == other.detail
        &&& self.detail_of == other.detail_of
        &&& self.detail_generation == other.detail_generation
        &&& self.hunk_cursor == other.hunk_cursor
    }

    /// The mutation bookkeeping is as in `other`.
    pub open spec fn same_flags(&self, other: &Self) -> bool {
        &&& self.mutating == other.mutating
        &&& self.mutated == other.mutated
        &&& self.history_changed == other.history_changed
        &&& self.editor_active == other.editor_active
        &&& self.pending_notice == other.pending_notice
        &&& self.generation == other.generation
    }

    /// Only the message (made transient) differs from `other`.
    pub open spec fn only_message(&self, other: &Self) -> bool {
        &&& self.same_snapshot(other)
        &&& self.same_detail(other)
        &&& self.same_flags(other)
        &&& self.busy_hint
    }

    /// The message is `text`.
    pub open spec fn says(&self, text: Seq<char>) -> bool {
        self.message matches Some(m) && m@ == text
    }

    /// A store for the worktree, before its first snapshot.
    pub fn new(worktree: String) -> (s: Self)
        ensures
            s.worktree == worktree,
            s.wc is None,
            s.detail is None,
            s.selected is None,
            s.pane == Pane::Files,
            !s.mutating,
            !s.mutated,
            !s.history_changed,
            !s.editor_active,
            s.hunk_cursor == 0,
            s.detail_of is None,
    {
        WorkingCopyStore {
            worktree,
            wc: None,
            detail: None,
            selected: None,
            pane: Pane::Files,
            author: None,
            mutating: false,
            message: None,
            mutated: false,
            history_changed: false,
            history_busy: false,
            in_progress: None,
            rebase_step: None,
            busy_hint: false,
            pending_notice: None,
            generation: 0,
            load_failed: false,
            detail_generation: 0,
            editor_active: false,
            hunk_cursor: 0,
            detail_of: None,
        }
    }

    /// The display rows of the snapshot (none before the first load).
    pub open spec fn row_view(&self) -> Seq<(Group, usize)> {
        match self.wc {
            Some(w) => grouped(w@.entries),
            None => seq![],
        }
    }

    /// The display rows: (group, index into the snapshot's entries).
    pub fn rows(&self) -> (r: Vec<(Group, usize)>)
        ensures
            r@ == self.row_view(),
    {
        match &self.wc {
            Some(w) => group_rows(w),
            None => Vec::new(),
        }
    }

    /// The rows the view renders and selection may reach.
    pub open spec fn selectable(&self) -> nat {
        if self.row_view().len() < MAX_VISIBLE_ROWS {
            self.row_view().len()
        } else {
            MAX_VISIBLE_ROWS as nat
        }
    }

    pub fn selectable_len(&self) -> (n: usize)
        ensures
            n == self.selectable(),
    {
        let n = self.rows().len();
        if n < MAX_VISIBLE_ROWS {
            n
        } else {
            MAX_VISIBLE_ROWS
        }
    }

    /// The selected row's group and entry.
    pub open spec fn selected_view(&self) -> Option<(Group, FileView)> {
        match (self.selected, self.wc) {
            (Some(i), Some(w)) if i < self.row_view().len() => Some(
                (self.row_view()[i as int].0, w@.entries[self.row_view()[i as int].1 as int]),
            ),
            _ => None,
        }
    }

    /// The selected row, if the selection names one.
    pub fn selected_row(&self) -> (r: Option<(Group, &FileEntry)>)
        ensures
            match r {
                Some((g, e)) => self.selected_view() == Some((g, e@)),
                None => self.selected_view() is None,
            },
    {
        let idx = match self.selected {
            Some(i) => i,
            None => return None,
        };
        let rows = self.rows();
        if idx >= rows.len() {
            return None;
        }
        let (group, entry_idx) = rows[idx];
        match &self.wc {
            Some(w) => {
                proof {
                    rows_name_entries(w@.entries);
                    assert(grouped(w@.entries)[idx as int].1 < w@.entries.len());
                    assert(file_views(w.entries@)[entry_idx as int] == w.entries@[entry_idx as int]@);
                }
                Some((group, &w.entries[entry_idx]))
            },
            None => None,
        }
    }

    /// How many rows are staged.
    pub fn staged_count(&self) -> (n: usize)
        ensures
            n == staged_rows(self.row_view()),
    {
        let rows = self.rows();
        let mut n: usize = 0;
        let mut i: usize = 0;
        proof {
            assert(rows@.take(0) =~= Seq::<(Group, usize)>::empty());
        }
        while i < rows.len()
            invariant
                i <= rows@.len(),
                n == staged_rows(rows@.take(i as int)),
                n <= i,
            decreases rows@.len() - i,
        {
            proof {
                assert(rows@.take(i + 1).drop_last() =~= rows@.take(i as int));
                assert(rows@.take(i + 1).last() == rows@[i as int]);
            }
            if rows[i].0 == Group::Staged {
                n += 1;
            }
            i += 1;
        }
        proof {
            assert(rows@.take(rows@.len() as int) =~= rows@);
        }
        n
    }

    /// Reports and clears "the last mutation was a commit".
    pub fn take_history_changed(&mut self) -> (c: bool)
        ensures
            c == old(self).history_changed,
            !final(self).history_changed,
            final(self).mutated == old(self).mutated,
            final(self).wc == old(self).wc,
    {
        let c = self.history_changed;
        self.history_changed = false;
        c
    }

    /// Reports and clears "a mutation landed".
    pub fn take_mutated(&mut self) -> (m: bool)
        ensures
            m == old(self).mutated,
            !final(self).mutated,
            final(self).history_changed == old(self).history_changed,
            final(self).wc == old(self).wc,
    {
        let m = self.mutated;
        self.mutated = false;
        m
    }

    /// Selects a row (bounded by the rendered rows): the file list takes
    /// the keys and the hovered hunk restarts at the first; the caller
    /// then loads the row's detail.
    pub fn select(&mut self, idx: Option<usize>)
        ensures
            final(self).selected == (match idx {
                Some(i) if i < old(self).selectable() => Some(i),
                _ => None,
            }),
            final(self).pane == Pane::Files,
            final(self).hunk_cursor == 0,
            final(self).wc == old(self).wc,
    {
        let n = self.selectable_len();
        self.selected = match idx {
            Some(i) if i < n => Some(i),
            _ => None,
        };
        self.pane = Pane::Files;
        self.hunk_cursor = 0;
    }

    /// Moves down one row, staying on the last rendered row; nothing
    /// happens without rows.
    pub fn select_next(&mut self)
        ensures
            old(self).row_view().len() == 0 ==> final(self).selected == old(self).selected,
            old(self).row_view().len() > 0 ==> final(self).selected == ({
                let next: int = match old(self).selected {
                    None => 0,
                    Some(s) => if s + 1 >= old(self).selectable() {
                        s as int
                    } else {
                        s + 1
                    },
                };
                if next < old(self).selectable() {
                    Some(next as usize)
                } else {
                    None
                }
            }),
            final(self).wc == old(self).wc,
    {
        if self.rows().len() == 0 {
            return;
        }
        let len = self.selectable_len();
        let next = match self.selected {
            None => 0,
            Some(s) => if s >= len || s + 1 >= len {
                s
            } else {
                s + 1
            },
        };
        self.select(Some(next));
    }

    /// Moves up one row, staying on the first.
    pub fn select_prev(&mut self)
        ensures
            final(self).selected == ({
                let prev: int = match old(self).selected {
                    Some(s) if s > 0 => s - 1,
                    _ => 0,
                };
                let last: int = if old(self).selectable() > 0 {
                    old(self).selectable() - 1
                } else {
                    0
                };
                let target = if prev < last {
                    prev
                } else {
                    last
                };
                if target < old(self).selectable() {
                    Some(target as usize)
                } else {
                    None
                }
            }),
            final(self).wc == old(self).wc,
    {
        let prev = match self.selected {
            Some(s) if s > 0 => s - 1,
            _ => 0,
        };
        let len = self.selectable_len();
        let last = if len > 0 {
            len - 1
        } else {
            0
        };
        self.select(Some(
            if prev < last {
                prev
            } else {
                last
            },
        ));
    }

    /// The hint for keys pressed while the first snapshot loads.
    pub fn loading_message(&mut self)
        ensures
            final(self).message matches Some(m) && m@ == "Loading working copy…"@,
            final(self).only_message(old(self)),
    {
        self.message = Some(String::from_str("Loading working copy…"));
        self.busy_hint = true;
    }

    /// The hint for keys pressed while a mutation runs; during a commit
    /// editor session it names the escape hatch.
    pub fn busy_message(&mut self)
        ensures
            final(self).message matches Some(m) && m@ == (if old(self).editor_active {
                "Busy — the commit editor is open (esc abandons the commit)"@
            } else {
                "Busy — wait for the current operation"@
            }),
            final(self).only_message(old(self)),
    {
        self.message = Some(
            if self.editor_active {
                String::from_str("Busy — the commit editor is open (esc abandons the commit)")
            } else {
                String::from_str("Busy — wait for the current operation")
            },
        );
        self.note_transient_hint();
    }

    /// A commit-editor session (not just any mutation) is in flight: esc
    /// abandons rather than refuses.
    pub fn commit_editor_active(&self) -> (b: bool)
        ensures
            b == self.editor_active,
    {
        self.editor_active
    }

    /// Marks the current message as a transient hint.
    pub fn note_transient_hint(&mut self)
        ensures
            final(self).message == old(self).message,
            final(self).only_message(old(self)),
    {
        self.busy_hint = true;
    }

    /// Hunks the diff pane renders of a loaded diff.
    pub fn hunk_render_bound(ud: &UnifiedDiff) -> (n: usize)
        ensures
            n == render_bound(hunk_line_counts(*ud), DIFF_RENDER_CAP as int),
    {
        let ghost counts = hunk_line_counts(*ud);
        let mut rendered: usize = 0;
        let mut n: usize = 0;
        let mut stop = false;
        proof {
            assert(counts.skip(0) =~= counts);
        }
        while n < ud.hunks.len() && !stop
            invariant
                n <= ud.hunks@.len(),
                counts == hunk_line_counts(*ud),
                rendered <= DIFF_RENDER_CAP,
                !stop ==> render_bound(counts, DIFF_RENDER_CAP as int) == n + render_bound(
                    counts.skip(n as int),
                    DIFF_RENDER_CAP - rendered,
                ),
                stop ==> render_bound(counts, DIFF_RENDER_CAP as int) == n,
            decreases ud.hunks@.len() - n + (if stop {
                0int
            } else {
                1int
            }),
        {
            let len = ud.hunks[n].lines.len();
            proof {
                assert(counts.skip(n as int)[0] == len);
                assert(counts.skip(n as int).drop_first() =~= counts.skip(n + 1));
            }
            if len > DIFF_RENDER_CAP - rendered {
                stop = true;
            } else {
                rendered = rendered + len;
                n = n + 1;
            }
        }
        proof {
            if !stop {
                assert(counts.skip(n as int).len() == 0);
            }
        }
        n
    }

    /// Hunks the diff pane renders (0 without a non-binary diff): the
    /// ceiling of the hunk cursor and of hunk staging.
    pub open spec fn bound(&self) -> nat {
        match self.detail {
            Some(FileDetail::Diff(ud)) if !ud.binary => render_bound(
                hunk_line_counts(ud),
                DIFF_RENDER_CAP as int,
            ),
            _ => 0,
        }
    }

    pub fn hunk_bound(&self) -> (n: usize)
        ensures
            n == self.bound(),
    {
        match &self.detail {
            Some(FileDetail::Diff(ud)) => if !ud.binary {
                Self::hunk_render_bound(ud)
            } else {
                0
            },
            _ => 0,
        }
    }

    /// The hovered hunk, clamped to the rendered hunks (0 when none; a
    /// diff may legitimately have no hunks, e.g. a mode-only change).
    pub fn hunk_cursor(&self) -> (c: usize)
        ensures
            c == (if self.bound() == 0 {
                0
            } else if self.hunk_cursor < self.bound() {
                self.hunk_cursor as int
            } else {
                self.bound() - 1
            }),
            self.bound() > 0 ==> c < self.bound(),
    {
        let b = self.hunk_bound();
        let last = if b > 0 {
            b - 1
        } else {
            0
        };
        if self.hunk_cursor < last {
            self.hunk_cursor
        } else {
            last
        }
    }

    /// Revision of the loading-or-loaded detail.
    pub fn detail_generation(&self) -> (g: u64)
        ensures
            g == self.detail_generation,
    {
        self.detail_generation
    }

    /// Identity of the loaded diff, `<kind>:<path>`.
    pub fn detail_key(&self) -> (k: Option<String>)
        ensures
            match self.detail_of {
                Some((p, kind)) => k matches Some(s) && s@ == kind_name(kind) + ":"@ + p@,
                None => k is None,
            },
    {
        match &self.detail_of {
            Some((p, kind)) => {
                let mut s = String::from_str(
                    match kind {
                        DetailKind::Staged => "Staged",
                        DetailKind::Unstaged => "Unstaged",
                        DetailKind::Preview => "Preview",
                    },
                );
                s.append(":");
                s.append(p.as_str());
                Some(s)
            },
            None => None,
        }
    }

    /// Number of hunks of the displayed diff, if it is a non-binary diff.
    pub fn hunk_count(&self) -> (n: Option<usize>)
        ensures
            n == match self.detail {
                Some(FileDetail::Diff(ud)) if !ud.binary => Some(ud.hunks@.len() as usize),
                _ => None,
            },
    {
        match &self.detail {
            Some(FileDetail::Diff(ud)) => if !ud.binary {
                Some(ud.hunks.len())
            } else {
                None
            },
            _ => None,
        }
    }

    /// The hovered-hunk flow is live: the selected row is an unstaged
    /// file, its diff is the one loaded (no selection change in flight),
    /// and at least one hunk renders.
    pub open spec fn stageable(&self) -> bool {
        match self.selected_view() {
            Some((g, e)) => g == Group::Unstaged && (self.detail_of matches Some((p, k)) && p@
                == e.path && k == DetailKind::Unstaged) && self.bound() > 0,
            None => false,
        }
    }

    pub fn hunk_stageable(&self) -> (b: bool)
        ensures
            b == self.stageable(),
    {
        let (group, entry) = match self.selected_row() {
            Some((g, e)) => (g, e),
            None => return false,
        };
        if group != Group::Unstaged {
            return false;
        }
        let same = match &self.detail_of {
            Some((p, k)) => *p == entry.path && *k == DetailKind::Unstaged,
            None => false,
        };
        same && self.hunk_bound() > 0
    }

    /// Moves the hovered hunk down; false when it could not (not
    /// stageable, or already at the last rendered hunk).
    pub fn hunk_next(&mut self) -> (moved: bool)
        ensures
            moved == (old(self).stageable() && old(self).hunk_cursor + 1 < old(self).bound()),
            final(self).detail == old(self).detail,
            final(self).selected == old(self).selected,
            moved ==> final(self).hunk_cursor == old(self).hunk_cursor + 1
                && final(self).hunk_cursor < old(self).bound(),
            !moved ==> final(self).hunk_cursor == old(self).hunk_cursor,
    {
        if !self.hunk_stageable() {
            return false;
        }
        let b = self.hunk_bound();
        if self.hunk_cursor < b && self.hunk_cursor + 1 < b {
            self.hunk_cursor = self.hunk_cursor + 1;
            return true;
        }
        false
    }

    /// Moves the hovered hunk up; false when it could not.
    pub fn hunk_prev(&mut self) -> (moved: bool)
        ensures
            moved == (old(self).stageable() && old(self).hunk_cursor > 0),
            final(self).detail == old(self).detail,
            final(self).selected == old(self).selected,
            moved ==> final(self).hunk_cursor == old(self).hunk_cursor - 1,
            !moved ==> final(self).hunk_cursor == old(self).hunk_cursor,
    {
        if !self.hunk_stageable() {
            return false;
        }
        if self.hunk_cursor > 0 {
            self.hunk_cursor = self.hunk_cursor - 1;
            return true;
        }
        false
    }
}

/// Consecutive duplicates removed.
pub open spec fn dedup(s: Seq<Seq<char>>) -> Seq<Seq<char>>
    decreases s.len(),
{
    if s.len() == 0 {
        seq![]
    } else {
        let d = dedup(s.drop_last());
        if s.len() >= 2 && s[s.len() - 2] == s.last() {
            d
        } else {
            d.push(s.last())
        }
    }
}

/// The paths of the staged rows, in row order.
pub open spec fn staged_paths(rows: Seq<(Group, usize)>, es: Seq<FileView>) -> Seq<Seq<char>>
    decreases rows.len(),
{
    if rows.len() == 0 {
        seq![]
    } else if rows.last().0 == Group::Staged {
        staged_paths(rows.drop_last(), es).push(es[rows.last().1 as int].path)
    } else {
        staged_paths(rows.drop_last(), es)
    }
}

/// A name as it appears in the commit template: quoted git-style when
/// it holds a line break, which would otherwise smuggle template text
/// into the message.
pub open spec fn quoted_name(n: Seq<char>) -> Seq<char> {
    if n.contains('\n') || n.contains('\r') {
        str_debug(n)
    } else {
        n
    }
}

/// "2 staged files: a.txt, b.txt" — at most eight names, then "…".
pub open spec fn summary_of(names: Seq<Seq<char>>) -> Seq<char> {
    let count = names.len();
    let shown = if count > 8 {
        names.take(8).push("…"@)
    } else {
        names
    };
    decimal(count) + " staged "@ + (if count == 1 {
        "file"@
    } else {
        "files"@
    }) + ": "@ + join(shown.map_values(|n: Seq<char>| quoted_name(n)), ", "@)
}

fn quote_name(n: &String) -> (q: String)
    ensures
        q@ == quoted_name(n@),
{
    let v = chars_of(n.as_str());
    if has_char_vec(&v, '\n') || has_char_vec(&v, '\r') {
        debug_quoted(n.as_str())
    } else {
        n.clone()
    }
}

/// The staged files line of the commit template.
pub fn staged_summary(wc: &WorkingCopy) -> (s: String)
    ensures
        s@ == summary_of(dedup(staged_paths(grouped(wc@.entries), wc@.entries))),
{
    let rows = group_rows(wc);
    let ghost es = wc@.entries;
    proof {
        rows_name_entries(es);
    }
    let mut all: Vec<String> = Vec::new();
    let mut i: usize = 0;
    proof {
        assert(rows@.take(0) =~= Seq::<(Group, usize)>::empty());
        assert(crate::engine::arg_views(all@) =~= Seq::<Seq<char>>::empty());
    }
    while i < rows.len()
        invariant
            i <= rows@.len(),
            rows@ == grouped(es),
            es == wc@.entries,
            forall|k: int| 0 <= k < rows@.len() ==> (#[trigger] rows@[k]).1 < es.len(),
            crate::engine::arg_views(all@) == staged_paths(rows@.take(i as int), es),
        decreases rows@.len() - i,
    {
        proof {
            assert(rows@.take(i + 1).drop_last() =~= rows@.take(i as int));
            assert(rows@.take(i + 1).last() == rows@[i as int]);
        }
        let (g, idx) = rows[i];
        if g == Group::Staged {
            let ghost before = crate::engine::arg_views(all@);
            proof {
                assert(file_views(wc.entries@)[idx as int] == wc.entries@[idx as int]@);
            }
            let p = wc.entries[idx].path.clone();
            all.push(p);
            proof {
                assert(crate::engine::arg_views(all@) =~= before.push(es[idx as int].path));
            }
        }
        i += 1;
    }
    proof {
        assert(rows@.take(rows@.len() as int) =~= rows@);
    }
    let ghost av = crate::engine::arg_views(all@);
    let mut names: Vec<String> = Vec::new();
    let mut j: usize = 0;
    proof {
        assert(av.take(0) =~= Seq::<Seq<char>>::empty());
        assert(crate::engine::arg_views(names@) =~= Seq::<Seq<char>>::empty());
    }
    while j < all.len()
        invariant
            j <= all@.len(),
            av == crate::engine::arg_views(all@),
            crate::engine::arg_views(names@) == dedup(av.take(j as int)),
            j > 0 ==> names@.len() > 0 && names@.last()@ == av[j - 1],
        decreases all@.len() - j,
    {
        proof {
            assert(av.take(j + 1).drop_last() =~= av.take(j as int));
            assert(av.take(j + 1).last() == av[j as int]);
            assert(av[j as int] == all@[j as int]@);
            if j > 0 {
                assert(av.take(j + 1)[j - 1] == av[j - 1]);
                assert(dedup(av.take(j as int)).len() == names@.len());
            }
        }
        let ghost before = crate::engine::arg_views(names@);
        let dup = j > 0 && names[names.len() - 1] == all[j];
        if !dup {
            names.push(all[j].clone());
            proof {
                assert(crate::engine::arg_views(names@) =~= before.push(av[j as int]));
            }
        }
        j += 1;
    }
    proof {
        assert(av.take(all@.len() as int) =~= av);
    }
    let ghost nv = crate::engine::arg_views(names@);
    let count = names.len();
    let shown_len = if count > 8 {
        8
    } else {
        count
    };
    let mut s = u64_to_string(count as u64);
    s.append(" staged ");
    s.append(
        if count == 1 {
            "file"
        } else {
            "files"
        },
    );
    s.append(": ");
    let ghost shown: Seq<Seq<char>> = if count > 8 {
        nv.take(8).push("…"@)
    } else {
        nv
    };
    let ghost qs = shown.map_values(|n: Seq<char>| quoted_name(n));
    let ghost head = s@;
    let mut k: usize = 0;
    proof {
        assert(qs.take(0) =~= Seq::<Seq<char>>::empty());
        assert(s@ =~= head + join(qs.take(0), ", "@));
    }
    let total = if count > 8 {
        9
    } else {
        count
    };
    while k < total
        invariant
            k <= total,
            total == qs.len(),
            count == nv.len(),
            shown_len == (if count > 8 {
                8usize
            } else {
                count
            }),
            total == (if count > 8 {
                9usize
            } else {
                count
            }),
            nv == crate::engine::arg_views(names@),
            shown == (if count > 8 {
                nv.take(8).push("…"@)
            } else {
                nv
            }),
            qs == shown.map_values(|n: Seq<char>| quoted_name(n)),
            s@ == head + join(qs.take(k as int), ", "@),
        decreases total - k,
    {
        let q = if k < shown_len {
            proof {
                assert(nv[k as int] == names@[k as int]@);
                assert(shown[k as int] == names@[k as int]@);
            }
            quote_name(&names[k])
        } else {
            proof {
                assert(shown[k as int] == "…"@);
                assert(!("…"@).contains('\n') && !("…"@).contains('\r')) by {
                    reveal_strlit("…");
                }
            }
            String::from_str("…")
        };
        proof {
            assert(qs.take(k + 1).drop_last() =~= qs.take(k as int));
            assert(qs[k as int] == q@);
        }
        let ghost before = s@;
        if k > 0 {
            s.append(", ");
        }
        s.append(q.as_str());
        proof {
            if k == 0 {
                assert(qs.take(1) =~= seq![qs[0]]);
                assert(s@ =~= head + qs[0]);
            } else {
                assert(s@ =~= head + (join(qs.take(k as int), ", "@) + ", "@ + qs[k as int]));
            }
        }
        k += 1;
    }
    proof {
        assert(qs.take(total as int) =~= qs);
    }
    s
}

} // verus!

//! The Working Copy section's operations, each split at its git run: an
//! entry point decides (refusing with a reason, or starting and saying what
//! the caller must run), and a completion applies what the run reported.
//! Snapshot and detail completions carry the generation they were started
//! with and are dropped when stale; mutation completions always apply
//! (the disk effect is real whenever it lands).

use crate::engine::commit::CommitOutcome;
use crate::engine::diff::DiffView;
use crate::engine::mutate::{content_patch, content_patch_of, stale_index_message, ApplyError};
use crate::engine::sequence::{command_of, InProgress};
use crate::engine::working_copy::{grouped, FileEntry, FileView, Group, WorkingCopy};
use crate::engine::{arg_views, join_strings, lock_marker, GitError};
use crate::text::{char_uppercase, chars_of, contains, ends_with, join, string_of, uppercase_char};
use crate::wc_store::{
    dedup, hunk_line_counts, render_bound, staged_paths, staged_rows, staged_summary, summary_of,
    DetailKind, FileDetail, WorkingCopyStore, DIFF_RENDER_CAP, MAX_VISIBLE_ROWS,
};
use vstd::prelude::*;

verus! {

/// A status reload in flight: its generation, and the path that was
/// selected when it started (the fallback when the selected row vanished).
pub struct WcRefresh {
    pub gen: u64,
    pub keep_path: Option<String>,
}

/// A detail load in flight: the caller loads the diff (staged or unstaged)
/// or the working-tree preview of `path`.
pub struct DetailLoad {
    pub gen: u64,
    pub path: String,
    pub kind: DetailKind,
}

pub open spec fn lock_text() -> Seq<char> {
    "another git process may be using this worktree — retry"@
}

/// How a git failure is shown: lock contention gets an actionable hint.
pub open spec fn shown_error(e: Seq<char>) -> Seq<char> {
    if contains(e, lock_marker()) {
        lock_text()
    } else {
        e
    }
}

/// The text of a failed git run as shown to the user.
pub fn shown_error_text(e: GitError) -> (s: String)
    ensures
        s@ == shown_error(e.message@),
{
    if e.is_lock_error() {
        String::from_str("another git process may be using this worktree — retry")
    } else {
        e.message
    }
}

/// The detail kind shown for a row of `g`.
pub open spec fn kind_for(g: Group) -> DetailKind {
    match g {
        Group::Staged => DetailKind::Staged,
        Group::Unstaged => DetailKind::Unstaged,
        Group::Conflicts | Group::Untracked => DetailKind::Preview,
    }
}

pub open spec fn unnameable_text() -> Seq<char> {
    "non-UTF-8 filename — view it in a terminal"@
}

/// Row `r` is of group `g` (any group when `None`) and names an entry
/// with path `p`.
pub open spec fn row_matches(r: (Group, usize), es: Seq<FileView>, g: Option<Group>, p: Seq<char>) -> bool {
    &&& (g matches Some(gg) ==> r.0 == gg)
    &&& r.1 < es.len()
    &&& es[r.1 as int].path == p
}

/// The first row at or after `k` matching `g` and `p`.
pub open spec fn find_row_from(
    rows: Seq<(Group, usize)>,
    es: Seq<FileView>,
    g: Option<Group>,
    p: Seq<char>,
    k: int,
) -> Option<int>
    decreases rows.len() - k,
{
    if k < 0 || k >= rows.len() {
        None
    } else if row_matches(rows[k], es, g, p) {
        Some(k)
    } else {
        find_row_from(rows, es, g, p, k + 1)
    }
}

/// The first row of the snapshot's rows matching `g` and `p`.
pub open spec fn find_row(es: Seq<FileView>, g: Option<Group>, p: Seq<char>) -> Option<int> {
    find_row_from(grouped(es), es, g, p, 0)
}

/// Where a selection of (`g`, `p`) lands in a new snapshot: the same
/// group and path, else any row of the path.
pub open spec fn resolve_row(es: Seq<FileView>, g: Group, p: Seq<char>) -> Option<int> {
    match find_row(es, Some(g), p) {
        Some(i) => Some(i),
        None => find_row(es, None, p),
    }
}

/// The selection after a reload: the currently selected (group, path)
/// resolved in the new snapshot, else the path selected when the reload
/// started; past the rendered rows it is dropped; without either, the
/// first row (none in an empty snapshot).
pub open spec fn resolved_selection(
    current: Option<(Group, FileView)>,
    keep: Option<Seq<char>>,
    es: Seq<FileView>,
) -> Option<usize> {
    let first = match current {
        Some((g, e)) => resolve_row(es, g, e.path),
        None => None,
    };
    let found = match first {
        Some(i) => Some(i),
        None => match keep {
            Some(p) => find_row(es, None, p),
            None => None,
        },
    };
    match found {
        Some(i) if 0 <= i < MAX_VISIBLE_ROWS => Some(i as usize),
        _ => if grouped(es).len() == 0 {
            None
        } else {
            Some(0usize)
        },
    }
}

pub open spec fn opt_text(o: Option<String>) -> Option<Seq<char>> {
    match o {
        Some(s) => Some(s@),
        None => None,
    }
}

/// What starting the selected row's detail load did, from the selection
/// `sel`, the detail counter `gen0` and the detail `detail0` before it.
pub open spec fn starts_detail(
    sel: Option<(Group, FileView)>,
    gen0: u64,
    detail0: Option<FileDetail>,
    after: &WorkingCopyStore,
    load: Option<DetailLoad>,
) -> bool {
    &&& after.detail_generation == gen0 + 1
    &&& match sel {
        None => after.detail is None && after.detail_of is None && load is None,
        Some((g, e)) => if e.unsupported {
            &&& after.detail matches Some(FileDetail::Failed(m)) && m@ == unnameable_text()
            &&& after.detail_of matches Some((p, k)) && p@ == e.path && k == DetailKind::Preview
            &&& load is None
        } else {
            &&& after.detail == detail0
            &&& after.detail_of is None
            &&& load matches Some(l) && l.gen == gen0 + 1 && l.path@ == e.path && l.kind
                == kind_for(g)
        },
    }
}

/// `n - 1`, stopping at 0.
pub open spec fn last_index(n: nat) -> nat {
    if n == 0 {
        0
    } else {
        (n - 1) as nat
    }
}

impl WorkingCopyStore {
    /// Starts a status reload (with the paused-operation probe); refused
    /// while a mutation runs, whose own completion reloads.
    pub fn refresh(&mut self) -> (t: Option<WcRefresh>)
        requires
            old(self).generation < u64::MAX,
        ensures
            old(self).mutating ==> t is None && final(self).only_message(old(self))
                && final(self).says(
                if old(self).editor_active {
                    "Busy — the commit editor is open (esc abandons the commit)"@
                } else {
                    "Busy — wait for the current operation"@
                },
            ),
            !old(self).mutating ==> {
                &&& t matches Some(t) && t.gen == old(self).generation + 1 && opt_text(t.keep_path)
                    == match old(self).selected_view() {
                    Some((_, e)) => Some(e.path),
                    None => None,
                }
                &&& final(self).generation == old(self).generation + 1
                &&& final(self).same_snapshot(old(self))
                &&& final(self).same_detail(old(self))
                &&& final(self).mutating == old(self).mutating
                &&& final(self).mutated == old(self).mutated
                &&& final(self).history_changed == old(self).history_changed
                &&& final(self).editor_active == old(self).editor_active
                &&& final(self).pending_notice == old(self).pending_notice
                &&& final(self).message == old(self).message
                &&& final(self).busy_hint == old(self).busy_hint
            },
    {
        if self.mutating {
            self.busy_message();
            return None;
        }
        self.generation = self.generation + 1;
        let keep_path = match self.selected_row() {
            Some((_, e)) => Some(e.path.clone()),
            None => None,
        };
        Some(WcRefresh { gen: self.generation, keep_path })
    }

    /// The first row (from `k`) of group `g` (any when `None`) naming `p`.
    fn find_row_in(
        rows: &Vec<(Group, usize)>,
        wc: &WorkingCopy,
        g: Option<Group>,
        p: &String,
    ) -> (r: Option<usize>)
        requires
            rows@ == grouped(wc@.entries),
        ensures
            match r {
                Some(k) => find_row(wc@.entries, g, p@) == Some(k as int),
                None => find_row(wc@.entries, g, p@) is None,
            },
    {
        let ghost es = wc@.entries;
        let mut k: usize = 0;
        while k < rows.len()
            invariant
                k <= rows@.len(),
                rows@ == grouped(es),
                es == wc@.entries,
                find_row(es, g, p@) == find_row_from(rows@, es, g, p@, k as int),
            decreases rows@.len() - k,
        {
            let (rg, i) = rows[k];
            let group_ok = match g {
                Some(gg) => rg == gg,
                None => true,
            };
            if group_ok && i < wc.entries.len() {
                proof {
                    assert(es[i as int] == wc.entries@[i as int]@);
                }
                if wc.entries[i].path.eq(p) {
                    return Some(k);
                }
            }
            k += 1;
        }
        None
    }

    /// A status reload finished. A stale one is dropped; otherwise the
    /// paused-operation probe is recorded and, on success, the snapshot
    /// replaces the old one, a transient message is cleared, the selection
    /// is carried over (`resolved_selection`) and its detail load starts;
    /// a failure is reported instead (the first one leaves the list showing
    /// the error).
    pub fn refreshed(
        &mut self,
        t: &WcRefresh,
        status: Result<WorkingCopy, GitError>,
        op: Option<InProgress>,
        step: Option<(u64, u64)>,
    ) -> (load: Option<DetailLoad>)
        requires
            old(self).detail_generation < u64::MAX,
        ensures
            t.gen != old(self).generation ==> load is None && final(self).same_snapshot(old(self))
                && final(self).same_detail(old(self)) && final(self).same_flags(old(self))
                && final(self).message == old(self).message
                && final(self).busy_hint == old(self).busy_hint,
            t.gen == old(self).generation ==> {
                &&& final(self).in_progress == op
                &&& final(self).rebase_step == step
                &&& final(self).same_flags(old(self))
                &&& final(self).worktree == old(self).worktree
                &&& final(self).pane == old(self).pane
                &&& final(self).author == old(self).author
                &&& final(self).history_busy == old(self).history_busy
                &&& match status {
                    Ok(w) => {
                        &&& final(self).wc == Some(w)
                        &&& !final(self).load_failed
                        &&& final(self).selected == resolved_selection(
                            old(self).selected_view(),
                            opt_text(t.keep_path),
                            w@.entries,
                        )
                        &&& (if old(self).busy_hint {
                            final(self).message is None && !final(self).busy_hint
                        } else {
                            final(self).message == old(self).message && !final(self).busy_hint
                        })
                        &&& starts_detail(
                            final(self).selected_view(),
                            old(self).detail_generation,
                            old(self).detail,
                            final(self),
                            load,
                        )
                        &&& final(self).hunk_cursor == old(self).hunk_cursor
                    },
                    Err(e) => {
                        &&& load is None
                        &&& final(self).load_failed
                        &&& final(self).says(shown_error(e.message@))
                        &&& final(self).busy_hint
                        &&& final(self).wc == old(self).wc
                        &&& final(self).selected == old(self).selected
                        &&& final(self).same_detail(old(self))
                    },
                }
            },
    {
        if t.gen != self.generation {
            return None;
        }
        self.in_progress = op;
        self.rebase_step = step;
        match status {
            Ok(w) => {
                if self.busy_hint {
                    self.busy_hint = false;
                    self.message = None;
                }
                let ghost old_sel = self.selected_view();
                let rows = crate::engine::working_copy::group_rows(&w);
                let first = match self.selected_row() {
                    Some((g, e)) => {
                        let p = e.path.clone();
                        match Self::find_row_in(&rows, &w, Some(g), &p) {
                            Some(i) => Some(i),
                            None => Self::find_row_in(&rows, &w, None, &p),
                        }
                    },
                    None => None,
                };
                let found = match first {
                    Some(i) => Some(i),
                    None => match &t.keep_path {
                        Some(p) => Self::find_row_in(&rows, &w, None, p),
                        None => None,
                    },
                };
                let selected = match found {
                    Some(i) if i < MAX_VISIBLE_ROWS => Some(i),
                    _ => if rows.len() == 0 {
                        None
                    } else {
                        Some(0)
                    },
                };
                self.load_failed = false;
                self.wc = Some(w);
                self.selected = selected;
                self.load_detail()
            },
            Err(e) => {
                self.load_failed = true;
                self.message = Some(shown_error_text(e));
                self.busy_hint = true;
                None
            },
        }
    }

    /// Starts loading the selected row's detail: a diff for staged and
    /// unstaged rows, the working-tree preview for untracked and
    /// conflicted ones. A lost (non-UTF-8) name runs no git and explains
    /// itself; without a row the detail is cleared. Any load in flight is
    /// cancelled, and until the new one lands the shown diff is no longer
    /// trusted for hunk staging.
    pub fn load_detail(&mut self) -> (load: Option<DetailLoad>)
        requires
            old(self).detail_generation < u64::MAX,
        ensures
            starts_detail(
                old(self).selected_view(),
                old(self).detail_generation,
                old(self).detail,
                final(self),
                load,
            ),
            final(self).same_snapshot(old(self)),
            final(self).same_flags(old(self)),
            final(self).hunk_cursor == old(self).hunk_cursor,
            final(self).message == old(self).message,
            final(self).busy_hint == old(self).busy_hint,
    {
        self.detail_generation = self.detail_generation + 1;
        let (group, path, unsupported) = match self.selected_row() {
            Some((g, e)) => (g, e.path.clone(), e.unsupported),
            None => {
                self.detail = None;
                self.detail_of = None;
                return None;
            },
        };
        if unsupported {
            self.detail = Some(
                FileDetail::Failed(String::from_str("non-UTF-8 filename — view it in a terminal")),
            );
            self.detail_of = Some((path, DetailKind::Preview));
            return None;
        }
        let kind = match group {
            Group::Staged => DetailKind::Staged,
            Group::Unstaged => DetailKind::Unstaged,
            Group::Conflicts | Group::Untracked => DetailKind::Preview,
        };
        self.detail_of = None;
        Some(DetailLoad { gen: self.detail_generation, path, kind })
    }

    /// A detail load finished. A stale one is dropped; otherwise the
    /// detail (a failure shown as its message) now describes the loaded
    /// path and kind, the revision counter moves on, and the hovered hunk
    /// is pulled back inside a shorter diff's rendered hunks.
    pub fn detail_loaded(&mut self, load: &DetailLoad, result: Result<FileDetail, GitError>)
        requires
            old(self).detail_generation < u64::MAX,
        ensures
            final(self).same_snapshot(old(self)),
            final(self).same_flags(old(self)),
            final(self).message == old(self).message,
            final(self).busy_hint == old(self).busy_hint,
            load.gen != old(self).detail_generation ==> final(self).same_detail(old(self)),
            load.gen == old(self).detail_generation ==> {
                &&& match result {
                    Ok(d) => final(self).detail == Some(d),
                    Err(e) => final(self).detail matches Some(FileDetail::Failed(m)) && m@
                        == e.message@,
                }
                &&& final(self).detail_of matches Some((p, k)) && p@ == load.path@ && k
                    == load.kind
                &&& final(self).detail_generation == old(self).detail_generation + 1
                &&& final(self).hunk_cursor == match final(self).detail {
                    Some(FileDetail::Diff(ud)) => {
                        let last = last_index(
                            render_bound(hunk_line_counts(ud), DIFF_RENDER_CAP as int),
                        );
                        if old(self).hunk_cursor < last {
                            old(self).hunk_cursor as int
                        } else {
                            last as int
                        }
                    },
                    _ => old(self).hunk_cursor as int,
                }
            },
    {
        if load.gen != self.detail_generation {
            return;
        }
        let detail = match result {
            Ok(d) => d,
            Err(e) => FileDetail::Failed(e.message),
        };
        let cursor = match &detail {
            FileDetail::Diff(ud) => {
                let n = Self::hunk_render_bound(ud);
                let last = if n > 0 {
                    n - 1
                } else {
                    0
                };
                if self.hunk_cursor < last {
                    self.hunk_cursor
                } else {
                    last
                }
            },
            _ => self.hunk_cursor,
        };
        self.detail = Some(detail);
        self.detail_of = Some((load.path.clone(), load.kind));
        self.detail_generation = self.detail_generation + 1;
        self.hunk_cursor = cursor;
    }

    /// The author lookup finished.
    pub fn author_loaded(&mut self, name: String, email: String)
        ensures
            final(self).author == Some((name, email)),
            final(self).worktree == old(self).worktree,
            final(self).wc == old(self).wc,
            final(self).selected == old(self).selected,
            final(self).same_detail(old(self)),
            final(self).same_flags(old(self)),
            final(self).message == old(self).message,
    {
        self.author = Some((name, email));
    }
}

/// A change to the index or the worktree that the caller runs in the
/// background; its completion goes to `after_mutation` (or, for a hunk,
/// `hunk_applied`; for a commit, `commit_finished`).
pub enum WcMutation {
    /// `git add` of the paths (also how a conflict is marked resolved).
    Stage { paths: Vec<String> },
    /// Unstages the paths (a staged rename unstages both of its paths).
    Unstage { paths: Vec<String> },
    /// `git apply --cached` of the patch staging one hunk of `path`.
    ApplyHunk { path: String, patch: Vec<u8> },
    /// Discards `path`, after a live probe of whether git tracks it
    /// (see `discard_step`).
    Discard { path: String, untracked_at_confirm: bool },
    /// A commit through the editor, its template listing `summary`.
    Commit { summary: String },
}

pub open spec fn history_busy_text() -> Seq<char> {
    "Busy — a history action is finishing in this worktree"@
}

pub open spec fn busy_text_for(editor_active: bool) -> Seq<char> {
    if editor_active {
        "Busy — the commit editor is open (esc abandons the commit)"@
    } else {
        "Busy — wait for the current operation"@
    }
}

pub open spec fn lost_name_text(verb: Seq<char>) -> Seq<char> {
    "filename contains characters git's output lost — "@ + verb + " this one in a terminal"@
}

/// The paths one `s` on a row acts on: its path, plus, when unstaging a
/// staged rename, the rename's source (a copy's source is an entry of
/// its own; staging never names the source, which no longer exists).
pub open spec fn toggle_paths(g: Group, e: FileView) -> Seq<Seq<char>> {
    if g == Group::Staged && e.index_status == 'R' && e.orig_path is Some {
        seq![e.path, e.orig_path.unwrap()]
    } else {
        seq![e.path]
    }
}

/// A row "stage all" stages: unstaged and untracked rows with a usable
/// name (conflicts need resolution, not blind staging).
pub open spec fn stages_row(r: (Group, usize), es: Seq<FileView>) -> bool {
    r.0 != Group::Conflicts && r.0 != Group::Staged && r.1 < es.len() && !es[r.1 as int].unsupported
}

/// The paths "stage all" stages, in row order.
pub open spec fn stage_all_paths(rows: Seq<(Group, usize)>, es: Seq<FileView>) -> Seq<Seq<char>>
    decreases rows.len(),
{
    if rows.len() == 0 {
        seq![]
    } else {
        stage_all_paths(rows.drop_last(), es) + if stages_row(rows.last(), es) {
            seq![es[rows.last().1 as int].path]
        } else {
            seq![]
        }
    }
}

/// How many rows are conflicts.
pub open spec fn conflict_rows(rows: Seq<(Group, usize)>) -> nat
    decreases rows.len(),
{
    if rows.len() == 0 {
        0
    } else {
        conflict_rows(rows.drop_last()) + if rows.last().0 == Group::Conflicts {
            1nat
        } else {
            0nat
        }
    }
}

/// The first entry (from `k`) with path `p`.
pub open spec fn first_entry_from(es: Seq<FileView>, p: Seq<char>, k: int) -> Option<int>
    decreases es.len() - k,
{
    if k < 0 || k >= es.len() {
        None
    } else if es[k].path == p {
        Some(k)
    } else {
        first_entry_from(es, p, k + 1)
    }
}

/// A step of a paused operation that the caller runs.
#[derive(Clone, Copy, Debug, PartialEq, Eq, Structural)]
pub enum SequenceStep {
    Continue(InProgress),
    Skip(InProgress),
    Abort(InProgress),
}

/// Whether the step ended without conflicts (an abort always does).
pub open spec fn step_clean(step: SequenceStep, conflicts: Seq<Seq<char>>) -> bool {
    match step {
        SequenceStep::Abort(_) => true,
        _ => conflicts.len() == 0,
    }
}

/// The text with its first character uppercased (Unicode mapping).
pub open spec fn capitalized(s: Seq<char>) -> Seq<char> {
    if s.len() == 0 {
        seq![]
    } else {
        char_uppercase(s[0]) + s.drop_first()
    }
}

/// "merge" → "Merge": completion messages start a sentence.
pub fn capitalize(s: &str) -> (r: String)
    ensures
        r@ == capitalized(s@),
{
    let v = chars_of(s);
    if v.len() == 0 {
        return String::new();
    }
    let mut r = uppercase_char(v[0]);
    let rest = string_of(&v, 1, v.len());
    r.append(rest.as_str());
    proof {
        assert(v@.subrange(1, v@.len() as int) =~= v@.drop_first());
    }
    r
}

/// The message after a finished step that git ran.
pub open spec fn step_message(step: SequenceStep, conflicts: Seq<Seq<char>>) -> Seq<char> {
    match step {
        SequenceStep::Continue(op) => if conflicts.len() == 0 {
            capitalized(command_of(op)) + " completed"@
        } else {
            "Still unresolved: "@ + join(conflicts, ", "@) + " — resolve, stage with s, then g"@
        },
        SequenceStep::Skip(_) => if conflicts.len() == 0 {
            "Step skipped"@
        } else {
            "Next step conflicts in "@ + join(conflicts, ", "@) + " — resolve, stage with s, then g"@
        },
        SequenceStep::Abort(op) => capitalized(command_of(op)) + " aborted"@,
    }
}

/// The message after a commit session.
pub open spec fn commit_message(r: Result<CommitOutcome, GitError>) -> Seq<char> {
    match r {
        Ok(CommitOutcome::Committed) => "Committed"@,
        Ok(CommitOutcome::AbortedEmpty { draft }) => match draft {
            Some(p) => "Commit aborted — empty message; your draft is preserved at "@ + p@,
            None => "Commit aborted — empty message"@,
        },
        Ok(CommitOutcome::Abandoned { draft }) => match draft {
            Some(p) => "Commit abandoned — staged changes kept; your message draft is preserved at "@
                + p@,
            None => "Commit abandoned — staged changes kept"@,
        },
        Err(e) => if contains(e.message@, lock_marker()) {
            e.message@ + " — another git process may be using this worktree; retry"@
        } else {
            e.message@
        },
    }
}

/// What a discard does once git was asked whether it tracks the file.
#[derive(Clone, Copy, Debug, PartialEq, Eq, Structural)]
pub enum DiscardStep {
    /// The probe failed, or the file's class changed since the dialog
    /// showed it: nothing is touched.
    Refuse,
    /// A tracked file: its unstaged changes are restored from the index.
    RestoreFromIndex,
    /// An untracked file: it is deleted.
    DeleteFile,
}

/// Argv listing the path if git tracks it.
pub fn tracked_probe_args(rel_path: &str) -> (args: Vec<String>)
    ensures
        arg_views(args@) == seq!["ls-files"@, "--"@, ":(literal)"@ + rel_path@],
{
    let mut args: Vec<String> = Vec::new();
    args.push(String::from_str("ls-files"));
    args.push(String::from_str("--"));
    args.push(crate::engine::literal(rel_path));
    proof {
        assert(arg_views(args@) =~= seq!["ls-files"@, "--"@, ":(literal)"@ + rel_path@]);
    }
    args
}

/// The discard decided from live git state: the file is tracked when the
/// probe printed anything. A failed probe refuses (tracked-ness was never
/// established), and so does a class that contradicts what was confirmed
/// — acting on the stale one could delete unique content.
pub fn discard_step(untracked_at_confirm: bool, probe: &Result<String, GitError>) -> (s: DiscardStep)
    ensures
        s == match probe {
            Err(_) => DiscardStep::Refuse,
            Ok(out) => {
                let known = out@.len() > 0;
                if known == untracked_at_confirm {
                    DiscardStep::Refuse
                } else if known {
                    DiscardStep::RestoreFromIndex
                } else {
                    DiscardStep::DeleteFile
                }
            },
        },
{
    match probe {
        Err(_) => DiscardStep::Refuse,
        Ok(out) => {
            let known = chars_of(out.as_str()).len() > 0;
            if known == untracked_at_confirm {
                DiscardStep::Refuse
            } else if known {
                DiscardStep::RestoreFromIndex
            } else {
                DiscardStep::DeleteFile
            }
        },
    }
}

pub open spec fn no_hunks_text() -> Seq<char> {
    "no hunks in this diff — stage the whole file with s on the file row"@
}

impl WorkingCopyStore {
    /// The snapshot's entries (none before the first load).
    pub open spec fn entry_views(&self) -> Seq<FileView> {
        match self.wc {
            Some(w) => w@.entries,
            None => seq![],
        }
    }

    /// A mutation starts: in-flight snapshot and detail loads are
    /// cancelled and every other mutating key waits.
    pub open spec fn starts_mutation(&self, before: &Self) -> bool {
        &&& self.mutating
        &&& self.generation == before.generation + 1
        &&& self.detail_generation == before.detail_generation + 1
        &&& self.same_snapshot(before)
        &&& self.detail == before.detail
        &&& self.detail_of == before.detail_of
        &&& self.hunk_cursor == before.hunk_cursor
        &&& self.mutated == before.mutated
        &&& self.history_changed == before.history_changed
    }

    /// Nothing at all changed.
    pub open spec fn untouched(&self, before: &Self) -> bool {
        &&& self.same_snapshot(before)
        &&& self.same_detail(before)
        &&& self.same_flags(before)
        &&& self.message == before.message
        &&& self.busy_hint == before.busy_hint
    }

    /// Only the message changed (its transience kept as it was).
    pub open spec fn only_text(&self, before: &Self, text: Seq<char>) -> bool {
        &&& self.says(text)
        &&& self.same_snapshot(before)
        &&& self.same_detail(before)
        &&& self.same_flags(before)
        &&& self.busy_hint == before.busy_hint
    }

    /// The shared refusals of the mutating keys while nothing can start:
    /// a mutation running, or no snapshot yet (a failed first load keeps
    /// its error on screen).
    pub open spec fn refused_early(&self, before: &Self) -> bool {
        if before.mutating {
            self.only_message(before) && self.says(busy_text_for(before.editor_active))
        } else if before.load_failed {
            self.untouched(before)
        } else {
            self.only_message(before) && self.says("Loading working copy…"@)
        }
    }

    /// Marks a mutation as running.
    fn begin_mutation(&mut self)
        requires
            old(self).generation < u64::MAX,
            old(self).detail_generation < u64::MAX,
        ensures
            final(self).starts_mutation(old(self)),
            final(self).message == old(self).message,
            final(self).busy_hint == old(self).busy_hint,
            final(self).editor_active == old(self).editor_active,
            final(self).pending_notice == old(self).pending_notice,
    {
        self.generation = self.generation + 1;
        self.detail_generation = self.detail_generation + 1;
        self.mutating = true;
    }

    /// The refusal while a mutation runs or before the first snapshot.
    fn refuse_early(&mut self)
        requires
            old(self).mutating || old(self).wc is None,
        ensures
            final(self).refused_early(old(self)),
    {
        if self.mutating {
            self.busy_message();
        } else if !self.load_failed {
            self.loading_message();
        }
    }

    /// `s` on a row: stages an unstaged, untracked or conflicted row
    /// (staging marks a conflict resolved) and unstages a staged one.
    pub fn toggle_stage(&mut self) -> (m: Option<WcMutation>)
        requires
            old(self).generation < u64::MAX,
            old(self).detail_generation < u64::MAX,
        ensures
            old(self).mutating || old(self).wc is None ==> m is None && final(self).refused_early(old(self)),
            !old(self).mutating && old(self).wc is Some ==> match old(self).selected_view() {
                None => m is None && final(self).untouched(old(self)),
                Some((g, e)) => if e.unsupported {
                    m is None && final(self).only_text(old(self), lost_name_text("stage"@))
                } else {
                    &&& final(self).starts_mutation(old(self))
                    &&& final(self).message == old(self).message
                    &&& (if g == Group::Staged {
                        m matches Some(WcMutation::Unstage { paths }) && arg_views(paths@)
                            == toggle_paths(g, e)
                    } else {
                        m matches Some(WcMutation::Stage { paths }) && arg_views(paths@)
                            == toggle_paths(g, e)
                    })
                },
            },
    {
        if self.mutating || self.wc.is_none() {
            self.refuse_early();
            return None;
        }
        let (group, path, orig, index_status, unsupported) = match self.selected_row() {
            Some((g, e)) => (
                g,
                e.path.clone(),
                match &e.orig_path {
                    Some(o) => Some(o.clone()),
                    None => None,
                },
                e.index_status,
                e.unsupported,
            ),
            None => return None,
        };
        if unsupported {
            self.message = Some(
                String::from_str(
                    "filename contains characters git's output lost — stage this one in a terminal",
                ),
            );
            proof {
                assert(self.message.unwrap()@ =~= lost_name_text("stage"@)) by {
                    reveal_strlit(
                        "filename contains characters git's output lost — stage this one in a terminal",
                    );
                    reveal_strlit("filename contains characters git's output lost — ");
                    reveal_strlit("stage");
                    reveal_strlit(" this one in a terminal");
                }
            }
            return None;
        }
        let ghost e = self.selected_view().unwrap().1;
        let unstage = group == Group::Staged;
        let mut paths: Vec<String> = Vec::new();
        paths.push(path);
        if unstage && index_status == 'R' {
            match orig {
                Some(o) => paths.push(o),
                None => {},
            }
        }
        proof {
            assert(arg_views(paths@) =~= toggle_paths(group, e));
        }
        self.begin_mutation();
        if unstage {
            Some(WcMutation::Unstage { paths })
        } else {
            Some(WcMutation::Stage { paths })
        }
    }

    /// The paths "stage all" stages, and the number of conflicted rows
    /// it skips.
    fn stage_all_candidates(w: &WorkingCopy) -> (r: (Vec<String>, usize))
        ensures
            arg_views(r.0@) == stage_all_paths(grouped(w@.entries), w@.entries),
            r.1 == conflict_rows(grouped(w@.entries)),
    {
        let rows = crate::engine::working_copy::group_rows(w);
        let ghost es = w@.entries;
        let mut paths: Vec<String> = Vec::new();
        let mut conflicts: usize = 0;
        let mut i: usize = 0;
        proof {
            assert(rows@.take(0) =~= Seq::<(Group, usize)>::empty());
            assert(arg_views(paths@) =~= Seq::<Seq<char>>::empty());
        }
        while i < rows.len()
            invariant
                i <= rows@.len(),
                rows@ == grouped(es),
                es == w@.entries,
                arg_views(paths@) == stage_all_paths(rows@.take(i as int), es),
                conflicts == conflict_rows(rows@.take(i as int)),
                conflicts <= i,
            decreases rows@.len() - i,
        {
            proof {
                assert(rows@.take(i + 1).drop_last() =~= rows@.take(i as int));
                assert(rows@.take(i + 1).last() == rows@[i as int]);
            }
            let (g, k) = rows[i];
            let ghost before = arg_views(paths@);
            if g == Group::Conflicts {
                conflicts = conflicts + 1;
            } else if g != Group::Staged && k < w.entries.len() {
                proof {
                    assert(es[k as int] == w.entries@[k as int]@);
                }
                if !w.entries[k].unsupported {
                    paths.push(w.entries[k].path.clone());
                    proof {
                        assert(arg_views(paths@) =~= before + seq![es[k as int].path]);
                    }
                }
            }
            i += 1;
        }
        proof {
            assert(rows@.take(rows@.len() as int) =~= rows@);
        }
        (paths, conflicts)
    }

    /// `S`: stages every unstaged and untracked row (lost names skipped).
    /// Conflicts are skipped too, with a notice shown once the staging
    /// lands; with nothing to stage it says why instead of running git.
    pub fn stage_all(&mut self) -> (m: Option<WcMutation>)
        requires
            old(self).generation < u64::MAX,
            old(self).detail_generation < u64::MAX,
        ensures
            old(self).mutating || old(self).wc is None ==> m is None && final(self).refused_early(old(self)),
            !old(self).mutating && old(self).wc is Some ==> {
                let rows = old(self).row_view();
                let es = old(self).entry_views();
                let paths = stage_all_paths(rows, es);
                if paths.len() == 0 {
                    m is None && final(self).only_text(
                        old(self),
                        if conflict_rows(rows) > 0 {
                            "Conflicts must be resolved before they can be staged"@
                        } else {
                            "Nothing to stage"@
                        },
                    )
                } else {
                    &&& m matches Some(WcMutation::Stage { paths: p }) && arg_views(p@) == paths
                    &&& final(self).starts_mutation(old(self))
                    &&& final(self).message == old(self).message
                    &&& final(self).busy_hint == old(self).busy_hint
                    &&& conflict_rows(rows) > 0 ==> (final(self).pending_notice matches Some(n)
                        && n@ == "Conflicts were skipped — resolve them, then stage with s"@)
                    &&& conflict_rows(rows) == 0 ==> final(self).pending_notice == old(self).pending_notice
                }
            },
    {
        if self.mutating || self.wc.is_none() {
            self.refuse_early();
            return None;
        }
        let (paths, conflicts) = match &self.wc {
            Some(w) => Self::stage_all_candidates(w),
            None => (Vec::new(), 0),
        };
        if paths.len() == 0 {
            self.message = Some(
                if conflicts > 0 {
                    String::from_str("Conflicts must be resolved before they can be staged")
                } else {
                    String::from_str("Nothing to stage")
                },
            );
            return None;
        }
        if conflicts > 0 {
            self.pending_notice = Some(
                String::from_str("Conflicts were skipped — resolve them, then stage with s"),
            );
        }
        self.begin_mutation();
        Some(WcMutation::Stage { paths })
    }

    /// The hovered hunk as `hunk_cursor` clamps it.
    pub open spec fn clamped_cursor(&self) -> int {
        if self.bound() == 0 {
            0
        } else if self.hunk_cursor < self.bound() {
            self.hunk_cursor as int
        } else {
            self.bound() - 1
        }
    }

    /// `s` with the diff pane focused: stages the hovered hunk. The patch
    /// is the diff's byte-exact header plus the hunk's raw text, taken
    /// from the loaded diff now. Every refusal says why: a history action
    /// running, a mutation running, no snapshot yet, a lost name, a row
    /// that has no hunks to stage, a diff still loading for this row (the
    /// shown one may be another file's), a failed or hunk-less diff, a
    /// binary file.
    pub fn stage_hunk(&mut self) -> (m: Option<WcMutation>)
        requires
            old(self).generation < u64::MAX,
            old(self).detail_generation < u64::MAX,
        ensures
            old(self).history_busy ==> m is None && final(self).only_message(old(self)) && final(self).says(history_busy_text()),
            !old(self).history_busy && (old(self).mutating || old(self).wc is None) ==> m is None
                && final(self).refused_early(old(self)),
            !old(self).history_busy && !old(self).mutating && old(self).wc is Some ==> match old(self).selected_view() {
                None => m is None && final(self).untouched(old(self)),
                Some((g, e)) => {
                    let refusal: Option<Seq<char>> = if e.unsupported {
                        Some(lost_name_text("stage"@))
                    } else if g == Group::Staged {
                        Some(
                            "hunk staging applies to unstaged changes — select the file's unstaged row"@,
                        )
                    } else if g == Group::Conflicts {
                        Some("resolve conflicts in your editor, then press s to mark resolved"@)
                    } else if g == Group::Untracked {
                        Some("no hunks here — stage it with s on the file row"@)
                    } else if !(old(self).detail_of matches Some((p, k)) && p@ == e.path && k
                        == DetailKind::Unstaged) {
                        Some("diff is loading — try again"@)
                    } else {
                        match old(self).detail {
                            Some(FileDetail::Diff(ud)) => if ud.binary {
                                Some("binary file — stage it whole with s on the file row"@)
                            } else if old(self).clamped_cursor() < old(self).bound()
                                && old(self).clamped_cursor() < ud.hunks@.len() {
                                None
                            } else {
                                Some(no_hunks_text())
                            },
                            Some(FileDetail::Failed(_)) => Some(
                                "the diff failed to load — press r to retry"@,
                            ),
                            _ => Some(no_hunks_text()),
                        }
                    };
                    match refusal {
                        Some(text) => m is None && final(self).only_message(old(self)) && final(self).says(text),
                        None => {
                            &&& final(self).starts_mutation(old(self))
                            &&& final(self).message == old(self).message
                            &&& m matches Some(WcMutation::ApplyHunk { path, patch }) && path@
                                == e.path && (old(self).detail matches Some(FileDetail::Diff(ud))
                                && patch@ == content_patch_of(
                                ud.header_raw@,
                                ud.hunks@[old(self).clamped_cursor()].raw@,
                            ))
                        },
                    }
                },
            },
    {
        if self.history_busy {
            self.message = Some(
                String::from_str("Busy — a history action is finishing in this worktree"),
            );
            self.note_transient_hint();
            return None;
        }
        if self.mutating || self.wc.is_none() {
            self.refuse_early();
            return None;
        }
        let (group, path, unsupported) = match self.selected_row() {
            Some((g, e)) => (g, e.path.clone(), e.unsupported),
            None => return None,
        };
        if unsupported {
            self.message = Some(
                String::from_str(
                    "filename contains characters git's output lost — stage this one in a terminal",
                ),
            );
            proof {
                assert(self.message.unwrap()@ =~= lost_name_text("stage"@)) by {
                    reveal_strlit(
                        "filename contains characters git's output lost — stage this one in a terminal",
                    );
                    reveal_strlit("filename contains characters git's output lost — ");
                    reveal_strlit("stage");
                    reveal_strlit(" this one in a terminal");
                }
            }
            self.note_transient_hint();
            return None;
        }
        match group {
            Group::Unstaged => {},
            Group::Staged => {
                self.say_hint(
                    String::from_str(
                        "hunk staging applies to unstaged changes — select the file's unstaged row",
                    ),
                );
                return None;
            },
            Group::Conflicts => {
                self.say_hint(
                    String::from_str(
                        "resolve conflicts in your editor, then press s to mark resolved",
                    ),
                );
                return None;
            },
            Group::Untracked => {
                self.say_hint(String::from_str("no hunks here — stage it with s on the file row"));
                return None;
            },
        }
        let current = match &self.detail_of {
            Some((p, k)) => p.eq(&path) && *k == DetailKind::Unstaged,
            None => false,
        };
        if !current {
            self.say_hint(String::from_str("diff is loading — try again"));
            return None;
        }
        let cursor = self.hunk_cursor();
        let bound = self.hunk_bound();
        let patch = match &self.detail {
            Some(FileDetail::Diff(ud)) => {
                if ud.binary {
                    None
                } else if cursor < bound && cursor < ud.hunks.len() {
                    Some(content_patch(ud.header_raw.as_slice(), ud.hunks[cursor].raw.as_slice()))
                } else {
                    None
                }
            },
            _ => None,
        };
        match patch {
            Some(patch) => {
                self.begin_mutation();
                Some(WcMutation::ApplyHunk { path, patch })
            },
            None => {
                let text = match &self.detail {
                    Some(FileDetail::Diff(ud)) => if ud.binary {
                        String::from_str("binary file — stage it whole with s on the file row")
                    } else {
                        String::from_str(
                            "no hunks in this diff — stage the whole file with s on the file row",
                        )
                    },
                    Some(FileDetail::Failed(_)) => String::from_str(
                        "the diff failed to load — press r to retry",
                    ),
                    _ => String::from_str(
                        "no hunks in this diff — stage the whole file with s on the file row",
                    ),
                };
                self.say_hint(text);
                None
            },
        }
    }

    /// Sets a transient message.
    fn say_hint(&mut self, text: String)
        ensures
            final(self).says(text@),
            final(self).only_message(old(self)),
    {
        self.message = Some(text);
        self.busy_hint = true;
    }

    /// A mutation finished (applied whatever its generation: the disk
    /// effect is real whenever it lands). On success every cached diff is
    /// dropped (the next hunk stage waits for the fresh one), a pending
    /// notice becomes the message and the change is flagged for the home
    /// list; a failure is reported. Either way a reload starts.
    pub fn after_mutation(&mut self, result: Result<(), GitError>) -> (t: WcRefresh)
        requires
            old(self).generation < u64::MAX,
        ensures
            !final(self).mutating,
            !final(self).busy_hint,
            final(self).pending_notice is None,
            match result {
                Ok(()) => {
                    &&& final(self).detail is None
                    &&& final(self).detail_of is None
                    &&& final(self).message == old(self).pending_notice
                    &&& final(self).mutated
                },
                Err(e) => {
                    &&& final(self).detail == old(self).detail
                    &&& final(self).detail_of == old(self).detail_of
                    &&& final(self).says(shown_error(e.message@))
                    &&& final(self).mutated == old(self).mutated
                },
            },
            final(self).reloads(old(self), t),
    {
        self.mutating = false;
        self.busy_hint = false;
        match result {
            Ok(()) => {
                self.detail = None;
                self.detail_of = None;
                self.message = self.pending_notice.take();
                self.mutated = true;
            },
            Err(e) => {
                self.pending_notice = None;
                self.message = Some(shown_error_text(e));
            },
        }
        self.reload()
    }

    /// A reload started after an operation: the snapshot and selection
    /// stay, the generation moves on.
    pub open spec fn reloads(&self, before: &Self, t: WcRefresh) -> bool {
        &&& self.same_snapshot(before)
        &&& self.generation == before.generation + 1
        &&& t.gen == self.generation
        &&& opt_text(t.keep_path) == match before.selected_view() {
            Some((_, e)) => Some(e.path),
            None => None,
        }
        &&& self.detail_generation == before.detail_generation
        &&& self.hunk_cursor == before.hunk_cursor
    }

    /// Starts the reload that follows an operation (none runs now).
    fn reload(&mut self) -> (t: WcRefresh)
        requires
            !old(self).mutating,
            old(self).generation < u64::MAX,
        ensures
            final(self).generation == old(self).generation + 1,
            t.gen == final(self).generation,
            opt_text(t.keep_path) == match old(self).selected_view() {
                Some((_, e)) => Some(e.path),
                None => None,
            },
            final(self).same_snapshot(old(self)),
            final(self).same_detail(old(self)),
            final(self).mutating == old(self).mutating,
            final(self).mutated == old(self).mutated,
            final(self).history_changed == old(self).history_changed,
            final(self).editor_active == old(self).editor_active,
            final(self).pending_notice == old(self).pending_notice,
            final(self).message == old(self).message,
            final(self).busy_hint == old(self).busy_hint,
    {
        match self.refresh() {
            Some(t) => t,
            None => WcRefresh { gen: self.generation, keep_path: None },
        }
    }

    /// A hunk apply finished: a rejected patch suggests staging the whole
    /// file; a stale index is reported with its own remedy (a refresh).
    pub fn hunk_applied(&mut self, result: Result<(), ApplyError>) -> (t: WcRefresh)
        requires
            old(self).generation < u64::MAX,
        ensures
            !final(self).mutating,
            !final(self).busy_hint,
            final(self).pending_notice is None,
            match result {
                Ok(()) => {
                    &&& final(self).detail is None
                    &&& final(self).detail_of is None
                    &&& final(self).message == old(self).pending_notice
                    &&& final(self).mutated
                },
                Err(ApplyError::Git(g)) => final(self).says(
                    shown_error(g.message@ + " — stage the whole file instead (s on the file row)"@),
                ) && final(self).mutated == old(self).mutated,
                Err(ApplyError::StaleIndex) => final(self).says(shown_error(stale_index_message()))
                    && final(self).mutated == old(self).mutated,
            },
            final(self).reloads(old(self), t),
    {
        let mapped = match result {
            Ok(()) => Ok(()),
            Err(ApplyError::Git(g)) => {
                let mut m = g.message;
                m.append(" — stage the whole file instead (s on the file row)");
                Err(GitError { message: m })
            },
            Err(stale) => Err(GitError { message: stale.message() }),
        };
        self.after_mutation(mapped)
    }

    /// The first entry of the snapshot with path `p`.
    fn find_entry(w: &WorkingCopy, p: &String) -> (r: Option<usize>)
        ensures
            match r {
                Some(k) => first_entry_from(w@.entries, p@, 0) == Some(k as int) && k
                    < w.entries@.len(),
                None => first_entry_from(w@.entries, p@, 0) is None,
            },
    {
        let ghost es = w@.entries;
        let mut k: usize = 0;
        while k < w.entries.len()
            invariant
                k <= w.entries@.len(),
                es == w@.entries,
                es.len() == w.entries@.len(),
                first_entry_from(es, p@, 0) == first_entry_from(es, p@, k as int),
            decreases w.entries@.len() - k,
        {
            proof {
                assert(es[k as int] == w.entries@[k as int]@);
            }
            if w.entries[k].path.eq(p) {
                return Some(k);
            }
            k += 1;
        }
        None
    }

    /// The discard dialog's confirm for `path`: refused while a history
    /// action or a mutation runs, when the file left the working copy, for
    /// a lost name; a directory is never deleted. Otherwise the caller
    /// probes git for whether it tracks the file (`discard_step`).
    pub fn discard_path(&mut self, untracked_at_confirm: bool, path: String) -> (m: Option<
        WcMutation,
    >)
        requires
            old(self).generation < u64::MAX,
            old(self).detail_generation < u64::MAX,
        ensures
            old(self).history_busy ==> m is None && final(self).only_message(old(self)) && final(self).says(history_busy_text()),
            !old(self).history_busy && old(self).mutating ==> m is None && final(self).only_message(old(self)) && final(self).says(busy_text_for(old(self).editor_active)),
            !old(self).history_busy && !old(self).mutating ==> match first_entry_from(
                old(self).entry_views(),
                path@,
                0,
            ) {
                None => m is None && final(self).only_text(
                    old(self),
                    "That file is no longer in the working copy — reopen the dialog"@,
                ),
                Some(i) => {
                    let e = old(self).entry_views()[i];
                    if e.unsupported {
                        m is None && final(self).only_text(old(self), lost_name_text("discard"@))
                    } else if ends_with(e.path, seq!['/']) {
                        m is None && final(self).untouched(old(self))
                    } else {
                        &&& m matches Some(WcMutation::Discard { path: p, untracked_at_confirm: u })
                            && p@ == path@ && u == untracked_at_confirm
                        &&& final(self).starts_mutation(old(self))
                        &&& final(self).message == old(self).message
                    }
                },
            },
    {
        if self.history_busy {
            self.say_hint(
                String::from_str("Busy — a history action is finishing in this worktree"),
            );
            return None;
        }
        if self.mutating {
            self.busy_message();
            return None;
        }
        let found: Option<(bool, bool)> = match &self.wc {
            Some(w) => match Self::find_entry(w, &path) {
                Some(k) => {
                    proof {
                        assert(w@.entries[k as int] == w.entries@[k as int]@);
                    }
                    Some((w.entries[k].unsupported, w.entries[k].is_dir()))
                },
                None => None,
            },
            None => None,
        };
        match found {
            None => {
                self.message = Some(
                    String::from_str(
                        "That file is no longer in the working copy — reopen the dialog",
                    ),
                );
                None
            },
            Some((true, _)) => {
                self.message = Some(
                    String::from_str(
                        "filename contains characters git's output lost — discard this one in a terminal",
                    ),
                );
                proof {
                    assert(self.message.unwrap()@ =~= lost_name_text("discard"@)) by {
                        reveal_strlit(
                            "filename contains characters git's output lost — discard this one in a terminal",
                        );
                        reveal_strlit("filename contains characters git's output lost — ");
                        reveal_strlit("discard");
                        reveal_strlit(" this one in a terminal");
                    }
                }
                None
            },
            Some((false, true)) => None,
            Some((false, false)) => {
                self.begin_mutation();
                Some(WcMutation::Discard { path, untracked_at_confirm })
            },
        }
    }


    /// A discard was refused by the live probe (the file's tracked-ness
    /// changed since the dialog opened, or the probe failed): the section
    /// is idle again and a reload shows the current state.
    pub fn discard_refused(&mut self) -> (t: WcRefresh)
        requires
            old(self).generation < u64::MAX,
        ensures
            !final(self).mutating,
            !final(self).busy_hint,
            final(self).says("That file's state changed — reopen the dialog to try again"@),
            final(self).detail == old(self).detail,
            final(self).mutated == old(self).mutated,
            final(self).pending_notice == old(self).pending_notice,
            final(self).reloads(old(self), t),
    {
        self.mutating = false;
        self.busy_hint = false;
        self.message = Some(
            String::from_str("That file's state changed — reopen the dialog to try again"),
        );
        self.reload()
    }

    /// Why a paused operation cannot be driven now.
    pub open spec fn sequence_refusal(&self) -> Option<Seq<char>> {
        if self.mutating {
            Some("Busy — wait for the current operation"@)
        } else if self.history_busy {
            Some(history_busy_text())
        } else {
            None
        }
    }

    /// Shared pre-flight of the sequence keys (continue, skip, abort).
    pub fn sequence_blocker(&self) -> (b: Option<String>)
        ensures
            match self.sequence_refusal() {
                Some(t) => b matches Some(s) && s@ == t,
                None => b is None,
            },
    {
        if self.mutating {
            return Some(String::from_str("Busy — wait for the current operation"));
        }
        if self.history_busy {
            return Some(String::from_str("Busy — a history action is finishing in this worktree"));
        }
        None
    }

    /// A sequence step started, announced by `text`.
    pub open spec fn starts_step(&self, before: &Self, text: Seq<char>) -> bool {
        &&& self.mutating
        &&& self.says(text)
        &&& self.busy_hint
        &&& self.same_snapshot(before)
        &&& self.same_detail(before)
        &&& self.generation == before.generation
        &&& self.mutated == before.mutated
        &&& self.history_changed == before.history_changed
        &&& self.editor_active == before.editor_active
        &&& self.pending_notice == before.pending_notice
    }

    /// The refusal of a sequence key: blocked, or nothing paused.
    pub open spec fn sequence_refused(&self, before: &Self) -> bool {
        &&& self.only_message(before)
        &&& match before.sequence_refusal() {
            Some(t) => self.says(t),
            None => self.says("No operation in progress"@),
        }
    }

    /// Refuses a sequence key when blocked or nothing is paused; otherwise
    /// the paused operation.
    fn sequence_preflight(&mut self) -> (op: Option<InProgress>)
        ensures
            old(self).sequence_refusal() is None && old(self).in_progress is Some ==> op
                == old(self).in_progress && *final(self) == *old(self),
            !(old(self).sequence_refusal() is None && old(self).in_progress is Some) ==> op is None
                && final(self).sequence_refused(old(self)),
    {
        match self.sequence_blocker() {
            Some(b) => {
                self.say_hint(b);
                return None;
            },
            None => {},
        }
        match self.in_progress {
            Some(op) => Some(op),
            None => {
                self.say_hint(String::from_str("No operation in progress"));
                None
            },
        }
    }

    /// `g`: continues the paused operation with its stored message.
    pub fn continue_op(&mut self) -> (step: Option<SequenceStep>)
        ensures
            match (old(self).sequence_refusal(), old(self).in_progress) {
                (None, Some(op)) => step == Some(SequenceStep::Continue(op)) && final(self).starts_step(old(self), "Continuing "@ + command_of(op) + "…"@),
                _ => step is None && final(self).sequence_refused(old(self)),
            },
    {
        let op = match self.sequence_preflight() {
            Some(op) => op,
            None => return None,
        };
        let mut m = String::from_str("Continuing ");
        m.append(op.label());
        m.append("…");
        self.mutating = true;
        self.say_hint(m);
        Some(SequenceStep::Continue(op))
    }

    /// `K`: skips the current step of a paused rebase or cherry-pick.
    pub fn skip_op(&mut self) -> (step: Option<SequenceStep>)
        ensures
            match (old(self).sequence_refusal(), old(self).in_progress) {
                (None, Some(op)) => if op == InProgress::Rebase || op == InProgress::CherryPick {
                    step == Some(SequenceStep::Skip(op)) && final(self).starts_step(
                        old(self),
                        "Skipping…"@,
                    )
                } else {
                    step is None && final(self).only_message(old(self)) && final(self).says(
                        "A paused "@ + command_of(op) + " has no step to skip"@,
                    )
                },
                _ => step is None && final(self).sequence_refused(old(self)),
            },
    {
        let op = match self.sequence_preflight() {
            Some(op) => op,
            None => return None,
        };
        if !op.skippable() {
            let mut m = String::from_str("A paused ");
            m.append(op.label());
            m.append(" has no step to skip");
            self.say_hint(m);
            return None;
        }
        self.mutating = true;
        self.say_hint(String::from_str("Skipping…"));
        Some(SequenceStep::Skip(op))
    }

    /// `A`: aborts the paused operation, restoring the state before it.
    pub fn abort_op(&mut self) -> (step: Option<SequenceStep>)
        ensures
            match (old(self).sequence_refusal(), old(self).in_progress) {
                (None, Some(op)) => step == Some(SequenceStep::Abort(op)) && final(self).starts_step(old(self), "Aborting "@ + command_of(op) + "…"@),
                _ => step is None && final(self).sequence_refused(old(self)),
            },
    {
        let op = match self.sequence_preflight() {
            Some(op) => op,
            None => return None,
        };
        let mut m = String::from_str("Aborting ");
        m.append(op.label());
        m.append("…");
        self.mutating = true;
        self.say_hint(m);
        Some(SequenceStep::Abort(op))
    }

    /// A continue, skip or abort finished. A clean continue or skip made a
    /// commit (history and files changed); one that stopped on conflicts
    /// names them; a clean abort restored the files. Cached diffs are
    /// dropped and a reload re-probes the paused state.
    pub fn sequence_finished(&mut self, step: SequenceStep, result: Result<Vec<String>, GitError>) -> (t:
        WcRefresh)
        requires
            old(self).generation < u64::MAX,
        ensures
            !final(self).mutating,
            final(self).detail is None,
            final(self).detail_of is None,
            final(self).pending_notice == old(self).pending_notice,
            final(self).editor_active == old(self).editor_active,
            final(self).same_snapshot(old(self)),
            final(self).generation == old(self).generation + 1,
            t.gen == final(self).generation,
            match result {
                Ok(c) => {
                    &&& final(self).says(step_message(step, arg_views(c@)))
                    &&& final(self).busy_hint == !step_clean(step, arg_views(c@))
                    &&& final(self).mutated == (old(self).mutated || step_clean(
                        step,
                        arg_views(c@),
                    ))
                    &&& final(self).history_changed == (old(self).history_changed || (step_clean(
                        step,
                        arg_views(c@),
                    ) && !(step is Abort)))
                },
                Err(e) => {
                    &&& final(self).says(shown_error(e.message@))
                    &&& final(self).busy_hint
                    &&& final(self).mutated == old(self).mutated
                    &&& final(self).history_changed == old(self).history_changed
                },
            },
    {
        self.mutating = false;
        match result {
            Ok(c) => {
                let clean = match step {
                    SequenceStep::Abort(_) => true,
                    _ => c.len() == 0,
                };
                let text = match step {
                    SequenceStep::Continue(op) => if clean {
                        let mut m = capitalize(op.label());
                        m.append(" completed");
                        m
                    } else {
                        let mut m = String::from_str("Still unresolved: ");
                        m.append(join_strings(&c, ", ").as_str());
                        m.append(" — resolve, stage with s, then g");
                        m
                    },
                    SequenceStep::Skip(_) => if clean {
                        String::from_str("Step skipped")
                    } else {
                        let mut m = String::from_str("Next step conflicts in ");
                        m.append(join_strings(&c, ", ").as_str());
                        m.append(" — resolve, stage with s, then g");
                        m
                    },
                    SequenceStep::Abort(op) => {
                        let mut m = capitalize(op.label());
                        m.append(" aborted");
                        m
                    },
                };
                self.message = Some(text);
                if clean {
                    self.mutated = true;
                    self.busy_hint = false;
                    match step {
                        SequenceStep::Abort(_) => {},
                        _ => {
                            self.history_changed = true;
                        },
                    }
                } else {
                    self.busy_hint = true;
                }
            },
            Err(e) => {
                self.message = Some(shown_error_text(e));
                self.busy_hint = true;
            },
        }
        self.detail = None;
        self.detail_of = None;
        self.reload()
    }

    /// `c`: starts a commit through the editor, its template listing the
    /// staged files. Refused while a history action or a mutation runs,
    /// before the first snapshot, and with nothing staged.
    pub fn commit_with_editor(&mut self) -> (m: Option<WcMutation>)
        requires
            old(self).generation < u64::MAX,
            old(self).detail_generation < u64::MAX,
        ensures
            old(self).history_busy ==> m is None && final(self).only_message(old(self)) && final(self).says(history_busy_text()),
            !old(self).history_busy && (old(self).mutating || old(self).wc is None) ==> m is None
                && final(self).refused_early(old(self)),
            !old(self).history_busy && !old(self).mutating && old(self).wc is Some ==> if staged_rows(
                old(self).row_view(),
            ) == 0 {
                m is None && final(self).only_text(
                    old(self),
                    "Nothing staged — press s on files to stage them first"@,
                )
            } else {
                &&& m matches Some(WcMutation::Commit { summary }) && summary@ == summary_of(
                    dedup(staged_paths(old(self).row_view(), old(self).entry_views())),
                )
                &&& final(self).editor_active
                &&& final(self).says("Waiting for commit editor — esc abandons the commit"@)
                &&& final(self).busy_hint == old(self).busy_hint
                &&& final(self).starts_mutation(old(self))
                &&& final(self).pending_notice == old(self).pending_notice
            },
    {
        if self.history_busy {
            self.say_hint(
                String::from_str("Busy — a history action is finishing in this worktree"),
            );
            return None;
        }
        if self.mutating || self.wc.is_none() {
            self.refuse_early();
            return None;
        }
        if self.staged_count() == 0 {
            self.message = Some(
                String::from_str("Nothing staged — press s on files to stage them first"),
            );
            return None;
        }
        let summary = match &self.wc {
            Some(w) => staged_summary(w),
            None => String::new(),
        };
        self.begin_mutation();
        self.editor_active = true;
        self.message = Some(
            String::from_str("Waiting for commit editor — esc abandons the commit"),
        );
        Some(WcMutation::Commit { summary })
    }

    /// The commit session ended. A commit changed history and dropped the
    /// cached diffs; an empty message or an abandoned session keeps the
    /// staged changes and names any preserved draft; a failure keeps its
    /// own text (it may carry the preserved message's path), with lock
    /// contention noted after it. A reload starts.
    pub fn commit_finished(&mut self, result: Result<CommitOutcome, GitError>) -> (t: WcRefresh)
        requires
            old(self).generation < u64::MAX,
        ensures
            !final(self).mutating,
            !final(self).editor_active,
            !final(self).busy_hint,
            final(self).pending_notice == old(self).pending_notice,
            final(self).says(commit_message(result)),
            final(self).mutated == (old(self).mutated || result == Ok::<
                CommitOutcome,
                GitError,
            >(CommitOutcome::Committed)),
            final(self).history_changed == (old(self).history_changed || result == Ok::<
                CommitOutcome,
                GitError,
            >(CommitOutcome::Committed)),
            result == Ok::<CommitOutcome, GitError>(CommitOutcome::Committed) ==> final(self).detail is None && final(self).detail_of is None,
            result != Ok::<CommitOutcome, GitError>(CommitOutcome::Committed) ==> final(self).detail == old(self).detail && final(self).detail_of == old(self).detail_of,
            final(self).same_snapshot(old(self)),
            final(self).generation == old(self).generation + 1,
            t.gen == final(self).generation,
    {
        self.mutating = false;
        self.editor_active = false;
        self.busy_hint = false;
        let text = match result {
            Ok(CommitOutcome::Committed) => {
                self.detail = None;
                self.detail_of = None;
                self.mutated = true;
                self.history_changed = true;
                String::from_str("Committed")
            },
            Ok(CommitOutcome::AbortedEmpty { draft }) => match draft {
                Some(p) => {
                    let mut m = String::from_str(
                        "Commit aborted — empty message; your draft is preserved at ",
                    );
                    m.append(p.as_str());
                    m
                },
                None => String::from_str("Commit aborted — empty message"),
            },
            Ok(CommitOutcome::Abandoned { draft }) => match draft {
                Some(p) => {
                    let mut m = String::from_str(
                        "Commit abandoned — staged changes kept; your message draft is preserved at ",
                    );
                    m.append(p.as_str());
                    m
                },
                None => String::from_str("Commit abandoned — staged changes kept"),
            },
            Err(e) => {
                if e.is_lock_error() {
                    let mut m = e.message;
                    m.append(" — another git process may be using this worktree; retry");
                    m
                } else {
                    e.message
                }
            },
        };
        self.message = Some(text);
        self.reload()
    }

    /// Esc during a commit-editor session: asks the caller to close the
    /// editor (the session then ends as abandoned). Nothing happens
    /// without a session.
    pub fn abandon_commit(&mut self) -> (requested: bool)
        ensures
            requested == old(self).editor_active,
            requested ==> final(self).only_message(old(self)) && final(self).says(
                "Abandoning commit — closing the editor…"@,
            ),
            !requested ==> final(self).untouched(old(self)),
    {
        if !self.editor_active {
            return false;
        }
        self.say_hint(String::from_str("Abandoning commit — closing the editor…"));
        true
    }


    /// The refusal of a key that would mutate the worktree while a
    /// history action runs in it.
    pub fn history_busy_message(&mut self)
        ensures
            final(self).only_message(old(self)),
            final(self).says(history_busy_text()),
    {
        self.say_hint(String::from_str("Busy — a history action is finishing in this worktree"));
    }

    /// `d`: what the discard dialog opens for — the selected row's path,
    /// and whether it is untracked (deleted rather than restored). Only
    /// unstaged and untracked files qualify; any other row explains why,
    /// and nothing opens before the first snapshot or while a mutation
    /// runs.
    pub fn discard_target(&mut self) -> (t: Option<(String, bool)>)
        ensures
            old(self).mutating || old(self).wc is None ==> t is None && final(self).refused_early(old(self)),
            !old(self).mutating && old(self).wc is Some ==> match old(self).selected_view() {
                None => t is None && final(self).untouched(old(self)),
                Some((g, e)) => {
                    let hint: Option<Seq<char>> = if g == Group::Staged {
                        Some("staged changes — press s to unstage first, then discard if needed"@)
                    } else if g == Group::Conflicts {
                        Some("resolve conflicts in your editor, then press s to mark resolved"@)
                    } else if ends_with(e.path, seq!['/']) {
                        Some(
                            "directories can't be discarded — stage with S, then remove the path in a terminal"@,
                        )
                    } else if e.unsupported {
                        Some("non-UTF-8 name — discard this one in a terminal"@)
                    } else {
                        None
                    };
                    match hint {
                        Some(h) => t is None && final(self).only_message(old(self)) && final(self).says(h),
                        None => (t matches Some((p, u)) && p@ == e.path && u == e.untracked)
                            && final(self).untouched(old(self)),
                    }
                },
            },
    {
        if self.mutating || self.wc.is_none() {
            self.refuse_early();
            return None;
        }
        let (group, path, untracked, unsupported, dir) = match self.selected_row() {
            Some((g, e)) => (g, e.path.clone(), e.untracked, e.unsupported, e.is_dir()),
            None => return None,
        };
        if group == Group::Staged {
            self.say_hint(
                String::from_str(
                    "staged changes — press s to unstage first, then discard if needed",
                ),
            );
            return None;
        }
        if group == Group::Conflicts {
            self.say_hint(
                String::from_str("resolve conflicts in your editor, then press s to mark resolved"),
            );
            return None;
        }
        if dir {
            self.say_hint(
                String::from_str(
                    "directories can't be discarded — stage with S, then remove the path in a terminal",
                ),
            );
            return None;
        }
        if unsupported {
            self.say_hint(String::from_str("non-UTF-8 name — discard this one in a terminal"));
            return None;
        }
        Some((path, untracked))
    }

}

} // verus!

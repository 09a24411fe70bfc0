//! State of the History section of the worktree detail view: the commit
//! list with its graph rows, the selection-driven commit detail
//! (changed files and one file's diff), and the refusals and transient
//! messages of the history actions.

use crate::engine::diff::UnifiedDiff;
use crate::engine::history::{CommitFile, GraphRow, LogCommit};
use vstd::prelude::*;

verus! {

/// Commits fetched per batch; `L` grows the window by another batch.
pub const HISTORY_BATCH: usize = 500;

#[derive(Clone, Copy, Debug, PartialEq, Eq, Structural)]
pub enum Pane {
    Commits,
    Files,
}

pub struct HistoryStore {
    pub worktree: String,
    pub commits: Vec<LogCommit>,
    pub rows: Vec<GraphRow>,
    pub selected: Option<usize>,
    /// Files changed by the selected commit.
    pub files: Option<Vec<CommitFile>>,
    pub selected_file: Option<usize>,
    /// Unified diff of the selected file, or the load error text.
    pub file_diff: Result<UnifiedDiff, String>,
    /// Error from the last commit-files load.
    pub files_error: Option<String>,
    pub pane: Pane,
    /// Batch size for the next load-more.
    pub max_count: usize,
    pub message: Option<String>,
    pub busy_hint: bool,
    /// One successful worktree-affecting action (checkout, worktree add)
    /// → one home-list refresh.
    pub mutated: bool,
    /// The action rewrote this worktree's tracked files (checkout): the
    /// Working Copy section must refresh.
    pub worktree_files_changed: bool,
    /// Guards detail loads (files and diff).
    pub detail_generation: u64,
    /// Guards log loads (refresh and load-more).
    pub load_generation: u64,
    /// A load-more fetch is in flight.
    pub load_more_in_flight: bool,
    /// A retry of a failed first load is in flight.
    pub retrying: bool,
    /// Configured batch size.
    pub batch: usize,
    /// The first log load failed.
    pub load_failed: bool,
    /// The first load's error text.
    pub load_error: Option<String>,
    /// A worktree-affecting action (checkout / worktree add) is in
    /// flight; it blocks further actions until its completion lands.
    pub action_in_flight: bool,
    /// Which action is running.
    pub action_kind: Option<&'static str>,
    /// The log fetch returned the full batch: older commits likely exist.
    pub has_more: bool,
    /// The first log load completed (either way).
    pub initial_load_done: bool,
}

pub open spec fn busy_text() -> Seq<char> {
    "Busy — wait for the current operation"@
}

/// Why an action key cannot run: an action in flight, a retry running,
/// or no commits — still loading, failed to load, or none yet.
pub open spec fn blocker_of(
    action_in_flight: bool,
    retrying: bool,
    no_commits: bool,
    initial_load_done: bool,
    load_failed: bool,
) -> Option<Seq<char>> {
    if action_in_flight {
        Some(busy_text())
    } else if retrying {
        Some("Retrying…"@)
    } else if no_commits {
        if !initial_load_done {
            Some("Loading history…"@)
        } else if load_failed {
            Some("history failed to load — press r to retry"@)
        } else {
            Some("No commits yet"@)
        }
    } else {
        None
    }
}

/// The widest of the rows (0 for none).
pub open spec fn max_width(rows: Seq<GraphRow>) -> nat
    decreases rows.len(),
{
    if rows.len() == 0 {
        0
    } else {
        let w = max_width(rows.drop_last());
        if rows.last().cells@.len() > w {
            rows.last().cells@.len()
        } else {
            w
        }
    }
}

proof fn lemma_max_width(rows: Seq<GraphRow>)
    ensures
        forall|i: int| 0 <= i < rows.len() ==> (#[trigger] rows[i]).cells@.len() <= max_width(rows),
        rows.len() > 0 ==> exists|i: int|
            0 <= i < rows.len() && (#[trigger] rows[i]).cells@.len() == max_width(rows),
    decreases rows.len(),
{
    if rows.len() > 0 {
        lemma_max_width(rows.drop_last());
        let prev = rows.drop_last();
        assert forall|i: int| 0 <= i < rows.len() implies (#[trigger] rows[i]).cells@.len()
            <= max_width(rows) by {
            if i < prev.len() {
                assert(rows[i] == prev[i]);
            }
        }
        if rows.last().cells@.len() <= max_width(prev) && prev.len() > 0 {
            let i = choose|i: int|
                0 <= i < prev.len() && (#[trigger] prev[i]).cells@.len() == max_width(prev);
            assert(rows[i] == prev[i]);
        } else {
            assert(rows[rows.len() - 1] == rows.last());
        }
    }
}

impl HistoryStore {
    /// The list and its bookkeeping are as in `other`.
    pub open spec fn same_list(&self, other: &Self) -> bool {
        &&& self.worktree == other.worktree
        &&& self.commits == other.commits
        &&& self.rows == other.rows
        &&& self.selected == other.selected
        &&& self.pane == other.pane
        &&& self.max_count == other.max_count
        &&& self.batch == other.batch
        &&& self.has_more == other.has_more
        &&& self.initial_load_done == other.initial_load_done
        &&& self.load_failed == other.load_failed
        &&& self.load_error == other.load_error
        &&& self.retrying == other.retrying
        &&& self.load_generation == other.load_generation
        &&& self.load_more_in_flight == other.load_more_in_flight
        &&& self.action_in_flight == other.action_in_flight
        &&& self.action_kind == other.action_kind
        &&& self.mutated == other.mutated
        &&& self.worktree_files_changed == other.worktree_files_changed
    }

    /// The commit detail is as in `other`.
    pub open spec fn same_detail(&self, other: &Self) -> bool {
        &&& self.files == other.files
        &&& self.selected_file == other.selected_file
        &&& self.file_diff == other.file_diff
        &&& self.files_error == other.files_error
        &&& self.detail_generation == other.detail_generation
    }

    /// The message is `text`.
    pub open spec fn says(&self, text: Seq<char>) -> bool {
        self.message matches Some(m) && m@ == text
    }

    /// A store for the worktree with the given batch size, before its
    /// first load.
    pub fn new_with_batch(worktree: String, batch: usize) -> (s: Self)
        ensures
            s.worktree == worktree,
            s.batch == batch,
            s.max_count == batch,
            s.commits@.len() == 0,
            s.rows@.len() == 0,
            s.selected is None,
            s.files is None,
            s.pane == Pane::Commits,
            !s.action_in_flight,
            !s.initial_load_done,
            !s.mutated,
            !s.worktree_files_changed,
    {
        HistoryStore {
            worktree,
            commits: Vec::new(),
            rows: Vec::new(),
            selected: None,
            files: None,
            selected_file: None,
            file_diff: Err(String::new()),
            files_error: None,
            pane: Pane::Commits,
            max_count: batch,
            message: None,
            busy_hint: false,
            mutated: false,
            worktree_files_changed: false,
            detail_generation: 0,
            load_generation: 0,
            load_more_in_flight: false,
            retrying: false,
            batch,
            load_failed: false,
            load_error: None,
            action_in_flight: false,
            action_kind: None,
            has_more: false,
            initial_load_done: false,
        }
    }

    /// A store with the default batch.
    pub fn new(worktree: String) -> (s: Self)
        ensures
            s.worktree == worktree,
            s.batch == HISTORY_BATCH,
            s.max_count == HISTORY_BATCH,
            s.commits@.len() == 0,
            s.selected is None,
            !s.action_in_flight,
    {
        Self::new_with_batch(worktree, HISTORY_BATCH)
    }

    /// Reports and clears the "an action changed the worktree list" flag.
    pub fn take_mutated(&mut self) -> (m: bool)
        ensures
            m == old(self).mutated,
            !final(self).mutated,
            final(self).worktree_files_changed == old(self).worktree_files_changed,
            final(self).commits == old(self).commits,
    {
        let m = self.mutated;
        self.mutated = false;
        m
    }

    /// Reports and clears the "this worktree's files changed" flag
    /// (checkout does; a worktree added elsewhere does not).
    pub fn take_worktree_files_changed(&mut self) -> (c: bool)
        ensures
            c == old(self).worktree_files_changed,
            !final(self).worktree_files_changed,
            final(self).mutated == old(self).mutated,
            final(self).commits == old(self).commits,
    {
        let c = self.worktree_files_changed;
        self.worktree_files_changed = false;
        c
    }

    /// Marks the message as transient.
    pub fn note_transient_hint(&mut self)
        ensures
            final(self).busy_hint,
            final(self).message == old(self).message,
            final(self).same_list(old(self)),
            final(self).same_detail(old(self)),
    {
        self.busy_hint = true;
    }

    /// The hint for keys swallowed while the log is still loading.
    pub fn loading_message(&mut self)
        ensures
            final(self).message matches Some(m) && m@ == "Loading history…"@,
            final(self).busy_hint,
            final(self).same_list(old(self)),
            final(self).same_detail(old(self)),
    {
        self.message = Some(String::from_str("Loading history…"));
        self.note_transient_hint();
    }

    /// The hint for keys swallowed while an action runs.
    pub fn busy_message(&mut self)
        ensures
            final(self).message matches Some(m) && m@ == busy_text(),
            final(self).busy_hint,
            final(self).same_list(old(self)),
            final(self).same_detail(old(self)),
    {
        self.message = Some(String::from_str("Busy — wait for the current operation"));
        self.note_transient_hint();
    }

    /// Selects a commit (bounded by the fetched commits): the previous
    /// commit's detail is dropped and the commit pane takes the keys; the
    /// caller then loads the new commit's files.
    pub fn select(&mut self, idx: Option<usize>)
        ensures
            final(self).selected == (match idx {
                Some(i) if i < old(self).commits@.len() => Some(i),
                _ => None,
            }),
            final(self).selected_file is None,
            final(self).files is None,
            final(self).files_error is None,
            final(self).file_diff is Err,
            final(self).pane == Pane::Commits,
            final(self).commits == old(self).commits,
            final(self).rows == old(self).rows,
            final(self).detail_generation == old(self).detail_generation,
            final(self).message == old(self).message,
            final(self).busy_hint == old(self).busy_hint,
    {
        self.selected = match idx {
            Some(i) if i < self.commits.len() => Some(i),
            _ => None,
        };
        self.selected_file = None;
        self.files = None;
        self.files_error = None;
        self.file_diff = Err(String::new());
        self.pane = Pane::Commits;
    }

    /// Moves down one commit; nothing happens at the last commit or on
    /// an empty list. Returns whether the selection moved.
    pub fn select_next(&mut self) -> (moved: bool)
        ensures
            moved == (old(self).commits@.len() > 0 && match old(self).selected {
                None => true,
                Some(s) => s + 1 < old(self).commits@.len(),
            }),
            moved ==> final(self).selected == Some(
                match old(self).selected {
                    None => 0usize,
                    Some(s) => (s + 1) as usize,
                },
            ) && final(self).files is None && final(self).pane == Pane::Commits,
            !moved ==> final(self).selected == old(self).selected && final(self).files
                == old(self).files,
            final(self).commits == old(self).commits,
            final(self).detail_generation == old(self).detail_generation,
    {
        let n = self.commits.len();
        if n == 0 {
            return false;
        }
        let next = match self.selected {
            None => 0,
            Some(s) => {
                if s >= n - 1 {
                    return false;
                }
                s + 1
            },
        };
        self.select(Some(next));
        true
    }

    /// Moves up one commit; nothing happens at the first commit, without
    /// a selection, or on an empty list. Returns whether it moved.
    pub fn select_prev(&mut self) -> (moved: bool)
        ensures
            moved == (old(self).commits@.len() > 0 && match old(self).selected {
                Some(s) => s > 0,
                None => false,
            }),
            moved ==> final(self).selected == (match old(self).selected {
                Some(s) => if s - 1 < old(self).commits@.len() {
                    Some((s - 1) as usize)
                } else {
                    None
                },
                None => None,
            }) && final(self).files is None,
            !moved ==> final(self).selected == old(self).selected,
            final(self).commits == old(self).commits,
            final(self).detail_generation == old(self).detail_generation,
    {
        if self.commits.len() == 0 {
            return false;
        }
        match self.selected {
            Some(s) => if s > 0 {
                self.select(Some(s - 1));
                true
            } else {
                false
            },
            None => false,
        }
    }

    /// Selects a file of the commit (bounded by its files): the file pane
    /// takes the keys and the previous file's diff is dropped at once
    /// (the caller loads the new one).
    pub fn select_file(&mut self, idx: Option<usize>)
        ensures
            final(self).selected_file == (match (idx, old(self).files) {
                (Some(i), Some(f)) if i < f@.len() => Some(i),
                _ => None,
            }),
            final(self).pane == Pane::Files,
            final(self).file_diff is Err,
            final(self).files == old(self).files,
            final(self).selected == old(self).selected,
    {
        let n: Option<usize> = match &self.files {
            Some(f) => Some(f.len()),
            None => None,
        };
        self.selected_file = match (idx, n) {
            (Some(i), Some(len)) if i < len => Some(i),
            _ => None,
        };
        self.pane = Pane::Files;
        self.file_diff = Err(String::new());
    }

    /// The number of files of the selected commit (0 while unloaded).
    pub open spec fn file_count(&self) -> nat {
        match self.files {
            Some(f) => f@.len(),
            None => 0,
        }
    }

    /// Moves down one file; nothing happens at the last file or without
    /// files.
    pub fn select_file_next(&mut self) -> (moved: bool)
        ensures
            moved == (old(self).file_count() > 0 && match old(self).selected_file {
                None => true,
                Some(s) => s + 1 < old(self).file_count(),
            }),
            moved ==> final(self).selected_file == Some(
                match old(self).selected_file {
                    None => 0usize,
                    Some(s) => (s + 1) as usize,
                },
            ),
            !moved ==> final(self).selected_file == old(self).selected_file,
            final(self).files == old(self).files,
    {
        let n = match &self.files {
            Some(f) => f.len(),
            None => 0,
        };
        if n == 0 {
            return false;
        }
        let next = match self.selected_file {
            None => 0,
            Some(s) => {
                if s >= n - 1 {
                    return false;
                }
                s + 1
            },
        };
        self.select_file(Some(next));
        true
    }

    /// Moves up one file; nothing happens at the first file or without a
    /// file selected.
    pub fn select_file_prev(&mut self) -> (moved: bool)
        ensures
            moved == (match old(self).selected_file {
                Some(s) => s > 0,
                None => false,
            }),
            moved ==> final(self).selected_file == (match (old(self).selected_file, old(self).files) {
                (Some(s), Some(f)) if s - 1 < f@.len() => Some((s - 1) as usize),
                _ => None,
            }),
            !moved ==> final(self).selected_file == old(self).selected_file,
            final(self).files == old(self).files,
    {
        match self.selected_file {
            Some(s) => if s > 0 {
                self.select_file(Some(s - 1));
                true
            } else {
                false
            },
            None => false,
        }
    }

    /// Moves the keys between the commit list and the file list.
    pub fn toggle_pane(&mut self)
        ensures
            final(self).pane == (if old(self).pane == Pane::Commits {
                Pane::Files
            } else {
                Pane::Commits
            }),
            final(self).selected == old(self).selected,
            final(self).selected_file == old(self).selected_file,
    {
        self.pane = match self.pane {
            Pane::Commits => Pane::Files,
            Pane::Files => Pane::Commits,
        };
    }

    /// An action (checkout / worktree add) is in flight.
    pub fn busy(&self) -> (b: bool)
        ensures
            b == self.action_in_flight,
    {
        self.action_in_flight
    }

    /// Name of the in-flight action, for accurate busy messages.
    pub fn action_name(&self) -> (n: Option<&'static str>)
        ensures
            n == self.action_kind,
    {
        self.action_kind
    }

    /// Widest graph row of the loaded list (the lanes at the busiest
    /// commit); the view sizes the commit column from it.
    pub fn graph_width(&self) -> (w: usize)
        ensures
            w == max_width(self.rows@),
            forall|i: int| 0 <= i < self.rows@.len() ==> (#[trigger] self.rows@[i]).cells@.len() <= w,
    {
        let mut w: usize = 0;
        let mut i: usize = 0;
        proof {
            assert(self.rows@.take(0) =~= Seq::<GraphRow>::empty());
        }
        while i < self.rows.len()
            invariant
                i <= self.rows@.len(),
                w == max_width(self.rows@.take(i as int)),
            decreases self.rows@.len() - i,
        {
            proof {
                assert(self.rows@.take(i + 1).drop_last() =~= self.rows@.take(i as int));
                assert(self.rows@.take(i + 1).last() == self.rows@[i as int]);
            }
            let n = self.rows[i].cells.len();
            if n > w {
                w = n;
            }
            i += 1;
        }
        proof {
            assert(self.rows@.take(self.rows@.len() as int) =~= self.rows@);
            lemma_max_width(self.rows@);
        }
        w
    }

    /// Why an action key cannot run now, or `None` when it can. A failed
    /// first load is finished, not loading, and points at retrying.
    pub fn action_blocker(&self) -> (b: Option<String>)
        ensures
            match (b, blocker_of(
                self.action_in_flight,
                self.retrying,
                self.commits@.len() == 0,
                self.initial_load_done,
                self.load_failed,
            )) {
                (Some(s), Some(t)) => s@ == t,
                (None, None) => true,
                _ => false,
            },
    {
        if self.busy() {
            return Some(String::from_str("Busy — wait for the current operation"));
        }
        if self.retrying {
            return Some(String::from_str("Retrying…"));
        }
        if self.commits.len() == 0 {
            if !self.initial_load_done {
                return Some(String::from_str("Loading history…"));
            }
            if self.load_failed {
                return Some(String::from_str("history failed to load — press r to retry"));
            }
            return Some(String::from_str("No commits yet"));
        }
        None
    }
}

} // verus!

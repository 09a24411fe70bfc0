//! The History section's loads and actions, each split at its git run:
//! an entry point decides and says what the caller must run, a completion
//! applies what the run reported. Log loads carry the load generation and
//! detail loads (files, diff) the detail generation; stale completions are
//! dropped.

use crate::engine::diff::UnifiedDiff;
use crate::engine::history::{
    assign_lanes, commit_views, lane_fold, row_views, with_lanes, CommitFile, CommitFileView,
    CommitView, LogCommit,
};
use crate::engine::GitError;
use crate::history_store::HistoryStore;
use crate::text::{decimal, u64_to_string};
use crate::wc_actions::{shown_error, shown_error_text};
use vstd::prelude::*;

verus! {

/// A log fetch the caller runs: `git log --skip <skip> --max-count
/// <max_count>` (one more than wanted, so a full window shows that older
/// commits exist).
pub struct LogLoad {
    pub gen: u64,
    pub skip: usize,
    pub max_count: usize,
}

/// A changed-files fetch of one commit; a merge is diffed against its
/// first parent.
pub struct FilesLoad {
    pub gen: u64,
    pub sha: String,
    pub first_parent: bool,
}

/// A fetch of one file's diff in one commit.
pub struct DiffLoad {
    pub gen: u64,
    pub sha: String,
    pub path: String,
}

/// A worktree-affecting action the caller runs.
pub enum HistoryAction {
    /// Checks the commit out in this worktree (detached HEAD).
    Checkout { sha: String, short: String },
    /// Adds a new worktree at the commit.
    OpenWorktree { sha: String, short: String },
}

/// The first commit (from `k`) with hash `h`.
pub open spec fn first_with_hash(cs: Seq<CommitView>, h: Seq<char>, k: int) -> Option<int>
    decreases cs.len() - k,
{
    if k < 0 || k >= cs.len() {
        None
    } else if cs[k].hash == h {
        Some(k)
    } else {
        first_with_hash(cs, h, k + 1)
    }
}

/// The selection after a reload: the same commit when it is still
/// listed, else the same position when it still exists, else the newest
/// commit (none in an empty list).
pub open spec fn reload_selection(keep: Option<Seq<char>>, old_sel: Option<usize>, cs: Seq<
    CommitView,
>) -> Option<usize> {
    let found = match keep {
        Some(h) => first_with_hash(cs, h, 0),
        None => None,
    };
    match found {
        Some(k) if 0 <= k => Some(k as usize),
        _ => match old_sel {
            Some(s) if s < cs.len() => Some(s),
            _ => if cs.len() > 0 {
                Some(0usize)
            } else {
                None
            },
        },
    }
}

/// The first `n` fetched commits.
pub open spec fn window(fetched: Seq<LogCommit>, n: usize) -> Seq<CommitView> {
    if fetched.len() <= n {
        commit_views(fetched)
    } else {
        commit_views(fetched).take(n as int)
    }
}

/// Some commit of `new` is already in `known` (the repository gained
/// commits above the fetched window, which shifted it).
pub open spec fn overlaps(known: Seq<CommitView>, new: Seq<CommitView>) -> bool {
    exists|i: int, j: int| 0 <= i < known.len() && 0 <= j < new.len() && known[i].hash == new[j].hash
}

impl HistoryStore {
    /// The selected commit.
    pub open spec fn selected_commit(&self) -> Option<CommitView> {
        match self.selected {
            Some(i) if i < self.commits@.len() => Some(self.commits@[i as int]@),
            _ => None,
        }
    }

    /// The selected file of the selected commit.
    pub open spec fn selected_file_view(&self) -> Option<CommitFileView> {
        match (self.selected_file, self.files) {
            (Some(i), Some(f)) if i < f@.len() => Some(f@[i as int]@),
            _ => None,
        }
    }

    /// What starting the selected commit's files load did, from the
    /// selected commit `sel`, the detail counter `gen0` and the files
    /// `files0` before it.
    pub open spec fn starts_files(
        &self,
        sel: Option<CommitView>,
        gen0: u64,
        files0: Option<Vec<CommitFile>>,
        load: Option<FilesLoad>,
    ) -> bool {
        &&& self.detail_generation == gen0 + 1
        &&& self.files_error is None
        &&& match sel {
            None => self.files is None && load is None,
            Some(c) => self.files == files0 && (load matches Some(l) && l.gen == gen0 + 1 && l.sha@
                == c.hash && l.first_parent == (c.parents.len() > 1)),
        }
    }

    /// What starting the selected file's diff load did.
    pub open spec fn starts_diff(
        &self,
        sel: Option<CommitView>,
        file: Option<CommitFileView>,
        gen0: u64,
        diff0: Result<UnifiedDiff, String>,
        load: Option<DiffLoad>,
    ) -> bool {
        &&& self.detail_generation == gen0 + 1
        &&& match sel {
            None => load is None && self.file_diff == diff0,
            Some(c) => match file {
                None => load is None && (self.file_diff matches Err(e) && e@.len() == 0),
                Some(f) => self.file_diff == diff0 && (load matches Some(l) && l.gen == gen0 + 1
                    && l.sha@ == c.hash && l.path@ == f.path),
            },
        }
    }

    /// Starts a reload of the log with the current depth, keeping the
    /// batch size. A retry of a failed first load shows that it runs.
    pub fn refresh(&mut self) -> (load: LogLoad)
        requires
            old(self).load_generation < u64::MAX,
            old(self).max_count < usize::MAX,
        ensures
            load.gen == old(self).load_generation + 1,
            load.skip == 0,
            load.max_count == old(self).max_count + 1,
            final(self).load_generation == load.gen,
            old(self).load_failed ==> {
                &&& !final(self).load_failed
                &&& final(self).load_error is None
                &&& final(self).retrying
                &&& final(self).says("Retrying…"@)
                &&& final(self).busy_hint
            },
            !old(self).load_failed ==> final(self).load_failed == old(self).load_failed
                && final(self).load_error == old(self).load_error && final(self).retrying == old(self).retrying && final(self).message == old(self).message && final(self).busy_hint
                == old(self).busy_hint,
            final(self).commits == old(self).commits,
            final(self).rows == old(self).rows,
            final(self).selected == old(self).selected,
            final(self).max_count == old(self).max_count,
            final(self).batch == old(self).batch,
            final(self).has_more == old(self).has_more,
            final(self).initial_load_done == old(self).initial_load_done,
            final(self).load_more_in_flight == old(self).load_more_in_flight,
            final(self).action_in_flight == old(self).action_in_flight,
            final(self).action_kind == old(self).action_kind,
            final(self).mutated == old(self).mutated,
            final(self).worktree_files_changed == old(self).worktree_files_changed,
            final(self).worktree == old(self).worktree,
            final(self).pane == old(self).pane,
            final(self).same_detail(old(self)),
    {
        if self.load_failed {
            self.load_failed = false;
            self.load_error = None;
            self.retrying = true;
            self.message = Some(String::from_str("Retrying…"));
            self.busy_hint = true;
        }
        self.load_generation = self.load_generation + 1;
        LogLoad { gen: self.load_generation, skip: 0, max_count: self.max_count + 1 }
    }

    /// The first commit of the list with hash `h`.
    fn find_hash(&self, h: &String) -> (r: Option<usize>)
        ensures
            match r {
                Some(k) => first_with_hash(commit_views(self.commits@), h@, 0) == Some(k as int),
                None => first_with_hash(commit_views(self.commits@), h@, 0) is None,
            },
    {
        let ghost cs = commit_views(self.commits@);
        let mut k: usize = 0;
        while k < self.commits.len()
            invariant
                k <= self.commits@.len(),
                cs == commit_views(self.commits@),
                first_with_hash(cs, h@, 0) == first_with_hash(cs, h@, k as int),
            decreases self.commits@.len() - k,
        {
            proof {
                assert(cs[k as int] == self.commits@[k as int]@);
            }
            if self.commits[k].hash.eq(h) {
                return Some(k);
            }
            k += 1;
        }
        None
    }

    /// A log reload finished. A stale one is dropped. Otherwise an
    /// in-flight load-more and a retry are over; on success the list is
    /// the fetched window with its lanes, the selection stays on its
    /// commit (`reload_selection`), the commit detail is dropped and the
    /// selected commit's files load starts; a failure of the first load
    /// takes the error pane, a later one only the message.
    pub fn refreshed(&mut self, load: &LogLoad, result: Result<Vec<LogCommit>, GitError>) -> (files:
        Option<FilesLoad>)
        requires
            old(self).detail_generation < u64::MAX,
        ensures
            load.gen != old(self).load_generation ==> files is None && final(self).same_list(old(self)) && final(self).same_detail(old(self)) && final(self).message == old(self).message,
            load.gen == old(self).load_generation ==> {
                &&& !final(self).load_more_in_flight
                &&& !final(self).retrying
                &&& final(self).initial_load_done
                &&& final(self).load_generation == old(self).load_generation
                &&& final(self).max_count == old(self).max_count
                &&& final(self).action_in_flight == old(self).action_in_flight
                &&& final(self).mutated == old(self).mutated
                &&& match result {
                    Ok(fetched) => {
                        let w = window(fetched@, old(self).max_count);
                        &&& !final(self).load_failed
                        &&& final(self).has_more == (fetched@.len() > old(self).max_count)
                        &&& commit_views(final(self).commits@) == with_lanes(w, lane_fold(w).1)
                        &&& row_views(final(self).rows@) == lane_fold(w).2
                        &&& final(self).selected == reload_selection(
                            match old(self).selected_commit() {
                                Some(c) => Some(c.hash),
                                None => None,
                            },
                            old(self).selected,
                            commit_views(final(self).commits@),
                        )
                        &&& final(self).selected_file is None
                        &&& final(self).file_diff matches Err(e) && e@.len() == 0
                        &&& final(self).starts_files(
                            final(self).selected_commit(),
                            old(self).detail_generation,
                            None,
                            files,
                        )
                        &&& (if old(self).busy_hint && !old(self).action_in_flight {
                            final(self).message is None && !final(self).busy_hint
                        } else {
                            final(self).message == old(self).message && final(self).busy_hint
                                == old(self).busy_hint
                        })
                    },
                    Err(e) => {
                        let first = old(self).commits@.len() == 0;
                        &&& files is None
                        &&& final(self).load_failed == first
                        &&& (first ==> (final(self).load_error matches Some(t) && t@ == shown_error(
                            e.message@,
                        )))
                        &&& (!first ==> final(self).load_error == old(self).load_error)
                        &&& final(self).says(shown_error(e.message@))
                        &&& final(self).busy_hint
                        &&& final(self).commits == old(self).commits
                        &&& final(self).selected == old(self).selected
                        &&& final(self).same_detail(old(self))
                    },
                }
            },
    {
        if load.gen != self.load_generation {
            return None;
        }
        self.load_more_in_flight = false;
        self.retrying = false;
        let keep: Option<String> = match self.selected {
            Some(i) => if i < self.commits.len() {
                Some(self.commits[i].hash.clone())
            } else {
                None
            },
            None => None,
        };
        match result {
            Ok(fetched) => {
                let mut fetched = fetched;
                let ghost orig = fetched@;
                self.load_failed = false;
                self.initial_load_done = true;
                self.has_more = fetched.len() > self.max_count;
                fetched.truncate(self.max_count);
                proof {
                    assert(commit_views(fetched@) =~= window(orig, self.max_count)) by {
                        if orig.len() > self.max_count {
                            assert(commit_views(fetched@) =~= commit_views(orig).take(
                                self.max_count as int,
                            ));
                        }
                    }
                }
                let rows = assign_lanes(&mut fetched);
                let old_sel = self.selected;
                self.rows = rows;
                self.commits = fetched;
                let found = match &keep {
                    Some(h) => self.find_hash(h),
                    None => None,
                };
                self.selected = match found {
                    Some(k) => Some(k),
                    None => match old_sel {
                        Some(s) if s < self.commits.len() => Some(s),
                        _ => if self.commits.len() > 0 {
                            Some(0)
                        } else {
                            None
                        },
                    },
                };
                self.files = None;
                self.selected_file = None;
                self.file_diff = Err(String::new());
                if self.busy_hint && !self.action_in_flight {
                    self.message = None;
                    self.busy_hint = false;
                }
                self.load_commit_files()
            },
            Err(e) => {
                let first = self.commits.len() == 0;
                self.initial_load_done = true;
                self.load_failed = first;
                let text = shown_error_text(e);
                if first {
                    self.load_error = Some(text.clone());
                }
                self.message = Some(text);
                self.busy_hint = true;
                None
            },
        }
    }

    /// Starts loading the selected commit's changed files (cancelling any
    /// detail load in flight); without a selected commit the files are
    /// cleared.
    pub fn load_commit_files(&mut self) -> (load: Option<FilesLoad>)
        requires
            old(self).detail_generation < u64::MAX,
        ensures
            final(self).starts_files(
                old(self).selected_commit(),
                old(self).detail_generation,
                old(self).files,
                load,
            ),
            final(self).same_list(old(self)),
            final(self).selected_file == old(self).selected_file,
            final(self).file_diff == old(self).file_diff,
            final(self).message == old(self).message,
            final(self).busy_hint == old(self).busy_hint,
    {
        self.detail_generation = self.detail_generation + 1;
        self.files_error = None;
        let (sha, first_parent) = match self.selected {
            Some(i) => if i < self.commits.len() {
                (self.commits[i].hash.clone(), self.commits[i].parents.len() > 1)
            } else {
                self.files = None;
                return None;
            },
            None => {
                self.files = None;
                return None;
            },
        };
        proof {
            assert(self.commits@[self.selected.unwrap() as int]@.parents.len()
                == self.commits@[self.selected.unwrap() as int].parents@.len());
        }
        Some(FilesLoad { gen: self.detail_generation, sha, first_parent })
    }

    /// A files load finished. A stale one is dropped. The files arrive
    /// with the first one selected and its diff load started; a failure
    /// is shown in the pane and the message.
    pub fn files_loaded(&mut self, load: &FilesLoad, result: Result<Vec<CommitFile>, GitError>) -> (diff:
        Option<DiffLoad>)
        requires
            old(self).detail_generation < u64::MAX,
        ensures
            final(self).same_list(old(self)),
            load.gen != old(self).detail_generation ==> diff is None && final(self).same_detail(old(self)) && final(self).message == old(self).message,
            load.gen == old(self).detail_generation ==> match result {
                Ok(fs) => {
                    &&& final(self).files == Some(fs)
                    &&& final(self).selected_file == (if fs@.len() > 0 {
                        Some(0usize)
                    } else {
                        None
                    })
                    &&& final(self).starts_diff(
                        old(self).selected_commit(),
                        final(self).selected_file_view(),
                        old(self).detail_generation,
                        old(self).file_diff,
                        diff,
                    )
                    &&& final(self).files_error == old(self).files_error
                    &&& final(self).message == old(self).message
                },
                Err(e) => {
                    &&& diff is None
                    &&& final(self).files is None
                    &&& final(self).files_error matches Some(t) && t@ == shown_error(e.message@)
                    &&& final(self).says(shown_error(e.message@))
                    &&& final(self).busy_hint
                    &&& final(self).detail_generation == old(self).detail_generation
                    &&& final(self).selected_file == old(self).selected_file
                },
            },
    {
        if load.gen != self.detail_generation {
            return None;
        }
        match result {
            Ok(fs) => {
                let any = fs.len() > 0;
                self.files = Some(fs);
                self.selected_file = if any {
                    Some(0)
                } else {
                    None
                };
                self.load_file_diff()
            },
            Err(e) => {
                let text = shown_error_text(e);
                self.files = None;
                self.files_error = Some(text.clone());
                self.message = Some(text);
                self.busy_hint = true;
                None
            },
        }
    }

    /// Starts loading the selected file's diff (cancelling any detail
    /// load in flight); without a selected file the diff is cleared.
    pub fn load_file_diff(&mut self) -> (load: Option<DiffLoad>)
        requires
            old(self).detail_generation < u64::MAX,
        ensures
            final(self).starts_diff(
                old(self).selected_commit(),
                old(self).selected_file_view(),
                old(self).detail_generation,
                old(self).file_diff,
                load,
            ),
            final(self).same_list(old(self)),
            final(self).files == old(self).files,
            final(self).selected_file == old(self).selected_file,
            final(self).files_error == old(self).files_error,
            final(self).message == old(self).message,
            final(self).busy_hint == old(self).busy_hint,
    {
        self.detail_generation = self.detail_generation + 1;
        let sha = match self.selected {
            Some(i) => if i < self.commits.len() {
                self.commits[i].hash.clone()
            } else {
                return None;
            },
            None => return None,
        };
        let path = match (&self.files, self.selected_file) {
            (Some(f), Some(k)) => if k < f.len() {
                f[k].path.clone()
            } else {
                self.file_diff = Err(String::new());
                return None;
            },
            _ => {
                self.file_diff = Err(String::new());
                return None;
            },
        };
        Some(DiffLoad { gen: self.detail_generation, sha, path })
    }

    /// A diff load finished; a stale one is dropped.
    pub fn file_diff_loaded(&mut self, load: &DiffLoad, result: Result<UnifiedDiff, GitError>)
        ensures
            final(self).same_list(old(self)),
            final(self).files == old(self).files,
            final(self).selected_file == old(self).selected_file,
            final(self).files_error == old(self).files_error,
            final(self).detail_generation == old(self).detail_generation,
            final(self).message == old(self).message,
            load.gen != old(self).detail_generation ==> final(self).file_diff == old(self).file_diff,
            load.gen == old(self).detail_generation ==> match result {
                Ok(d) => final(self).file_diff == Ok::<UnifiedDiff, String>(d),
                Err(e) => final(self).file_diff matches Err(t) && t@ == e.message@,
            },
    {
        if load.gen != self.detail_generation {
            return;
        }
        self.file_diff = match result {
            Ok(d) => Ok(d),
            Err(e) => Err(e.message),
        };
    }

    /// Whether any fetched commit is already listed.
    fn any_known(&self, fetched: &Vec<LogCommit>) -> (b: bool)
        ensures
            b == overlaps(commit_views(self.commits@), commit_views(fetched@)),
    {
        let ghost known = commit_views(self.commits@);
        let ghost new = commit_views(fetched@);
        let mut j: usize = 0;
        while j < fetched.len()
            invariant
                j <= fetched@.len(),
                known == commit_views(self.commits@),
                new == commit_views(fetched@),
                forall|i: int, jj: int|
                    0 <= i < known.len() && 0 <= jj < j ==> known[i].hash != new[jj].hash,
            decreases fetched@.len() - j,
        {
            let mut i: usize = 0;
            while i < self.commits.len()
                invariant
                    i <= self.commits@.len(),
                    j < fetched@.len(),
                    known == commit_views(self.commits@),
                    new == commit_views(fetched@),
                    forall|ii: int| 0 <= ii < i ==> known[ii].hash != new[j as int].hash,
                decreases self.commits@.len() - i,
            {
                proof {
                    assert(known[i as int] == self.commits@[i as int]@);
                    assert(new[j as int] == fetched@[j as int]@);
                }
                if self.commits[i].hash.eq(&fetched[j].hash) {
                    proof {
                        assert(known[i as int].hash == new[j as int].hash);
                    }
                    return true;
                }
                i += 1;
            }
            j += 1;
        }
        false
    }

    /// `L`: starts loading the next batch of older commits (the window
    /// after the listed ones). Says so instead when no older commits
    /// exist or the load already runs.
    pub fn load_more(&mut self) -> (load: Option<LogLoad>)
        requires
            old(self).load_generation < u64::MAX,
            old(self).batch < usize::MAX,
        ensures
            final(self).commits == old(self).commits,
            final(self).selected == old(self).selected,
            final(self).same_detail(old(self)),
            final(self).busy_hint,
            !old(self).has_more ==> load is None && final(self).says("No older commits to load"@)
                && final(self).same_list(old(self)),
            old(self).has_more && old(self).load_more_in_flight ==> load is None && final(self).says("Already loading older commits…"@) && final(self).same_list(old(self)),
            old(self).has_more && !old(self).load_more_in_flight ==> {
                &&& load == Some(
                    LogLoad {
                        gen: (old(self).load_generation + 1) as u64,
                        skip: old(self).commits@.len() as usize,
                        max_count: (old(self).batch + 1) as usize,
                    },
                )
                &&& final(self).load_more_in_flight
                &&& final(self).load_generation == old(self).load_generation + 1
                &&& final(self).says(
                    "Loading "@ + decimal(old(self).batch as nat) + " older commits…"@,
                )
            },
    {
        if !self.has_more {
            self.message = Some(String::from_str("No older commits to load"));
            self.busy_hint = true;
            return None;
        }
        if self.load_more_in_flight {
            self.message = Some(String::from_str("Already loading older commits…"));
            self.busy_hint = true;
            return None;
        }
        self.load_more_in_flight = true;
        self.load_generation = self.load_generation + 1;
        let mut m = String::from_str("Loading ");
        m.append(u64_to_string(self.batch as u64).as_str());
        m.append(" older commits…");
        self.message = Some(m);
        self.busy_hint = true;
        Some(LogLoad { gen: self.load_generation, skip: self.commits.len(), max_count: self.batch + 1 })
    }

    /// A load-more finished. A stale one is dropped. The new window is
    /// appended and the lanes reassigned over the whole list (the depth a
    /// reload fetches follows); when part of the window was already
    /// listed, or nothing new came, the repository gained commits above
    /// it: the depth grows by a batch and a reload from the tip starts.
    pub fn more_loaded(&mut self, load: &LogLoad, result: Result<Vec<LogCommit>, GitError>) -> (reload:
        Option<LogLoad>)
        requires
            old(self).load_generation < u64::MAX,
            old(self).max_count + old(self).batch < usize::MAX,
        ensures
            load.gen != old(self).load_generation ==> reload is None && final(self).same_list(old(self)) && final(self).same_detail(old(self)) && final(self).message == old(self).message,
            load.gen == old(self).load_generation ==> {
                &&& !final(self).load_more_in_flight
                &&& final(self).selected == old(self).selected
                &&& final(self).same_detail(old(self))
                &&& match result {
                    Ok(fetched) => {
                        let w = window(fetched@, old(self).batch);
                        let known = commit_views(old(self).commits@);
                        &&& !final(self).load_failed
                        &&& final(self).has_more == (fetched@.len() > old(self).batch)
                        &&& if overlaps(known, w) || w.len() == 0 {
                            &&& final(self).max_count == old(self).max_count + old(self).batch
                            &&& reload == Some(
                                LogLoad {
                                    gen: (old(self).load_generation + 1) as u64,
                                    skip: 0,
                                    max_count: (old(self).max_count + old(self).batch
                                        + 1) as usize,
                                },
                            )
                            &&& final(self).commits == old(self).commits
                            &&& final(self).rows == old(self).rows
                        } else {
                            &&& reload is None
                            &&& commit_views(final(self).commits@) == with_lanes(
                                known + w,
                                lane_fold(known + w).1,
                            )
                            &&& row_views(final(self).rows@) == lane_fold(known + w).2
                            &&& final(self).max_count == final(self).commits@.len()
                            &&& (if old(self).busy_hint && !old(self).action_in_flight {
                                final(self).message is None && !final(self).busy_hint
                            } else {
                                final(self).message == old(self).message && final(self).busy_hint
                                    == old(self).busy_hint
                            })
                        }
                    },
                    Err(e) => {
                        &&& reload is None
                        &&& final(self).says(shown_error(e.message@))
                        &&& final(self).busy_hint
                        &&& final(self).commits == old(self).commits
                        &&& final(self).max_count == old(self).max_count
                    },
                }
            },
    {
        if load.gen != self.load_generation {
            return None;
        }
        self.load_more_in_flight = false;
        match result {
            Ok(fetched) => {
                let mut fetched = fetched;
                let ghost orig = fetched@;
                self.load_failed = false;
                self.has_more = fetched.len() > self.batch;
                fetched.truncate(self.batch);
                proof {
                    assert(commit_views(fetched@) =~= window(orig, self.batch)) by {
                        if orig.len() > self.batch {
                            assert(commit_views(fetched@) =~= commit_views(orig).take(
                                self.batch as int,
                            ));
                        }
                    }
                }
                if self.any_known(&fetched) || fetched.len() == 0 {
                    self.max_count = self.max_count + self.batch;
                    return Some(self.refresh());
                }
                let mut commits: Vec<LogCommit> = Vec::new();
                std::mem::swap(&mut commits, &mut self.commits);
                let ghost known = commit_views(commits@);
                commits.append(&mut fetched);
                proof {
                    assert(commit_views(commits@) =~= known + window(orig, self.batch));
                }
                let rows = assign_lanes(&mut commits);
                self.rows = rows;
                self.commits = commits;
                self.max_count = self.commits.len();
                if self.busy_hint && !self.action_in_flight {
                    self.message = None;
                    self.busy_hint = false;
                }
                None
            },
            Err(e) => {
                self.message = Some(shown_error_text(e));
                self.busy_hint = true;
                None
            },
        }
    }

    /// `y`: the selected commit's full hash, for the clipboard; the
    /// message names its short form.
    pub fn copy_hash(&mut self) -> (hash: Option<String>)
        ensures
            final(self).same_list(old(self)),
            final(self).same_detail(old(self)),
            match old(self).selected_commit() {
                None => hash is None && final(self).message == old(self).message
                    && final(self).busy_hint == old(self).busy_hint,
                Some(c) => (hash matches Some(h) && h@ == c.hash) && final(self).says(
                    "Copied "@ + c.short + " to the clipboard"@,
                ) && final(self).busy_hint,
            },
    {
        let (hash, short) = match self.selected {
            Some(i) => if i < self.commits.len() {
                (self.commits[i].hash.clone(), self.commits[i].short.clone())
            } else {
                return None;
            },
            None => return None,
        };
        let mut m = String::from_str("Copied ");
        m.append(short.as_str());
        m.append(" to the clipboard");
        self.message = Some(m);
        self.busy_hint = true;
        Some(hash)
    }

    /// Starts an action on the selected commit: refused while one runs;
    /// nothing happens without a selected commit.
    fn start_action(&mut self, checkout: bool) -> (act: Option<HistoryAction>)
        ensures
            final(self).same_detail(old(self)),
            final(self).commits == old(self).commits,
            final(self).selected == old(self).selected,
            final(self).load_generation == old(self).load_generation,
            final(self).mutated == old(self).mutated,
            final(self).worktree_files_changed == old(self).worktree_files_changed,
            old(self).action_in_flight ==> act is None && final(self).says(
                "Busy — wait for the current operation"@,
            ) && final(self).busy_hint && final(self).action_in_flight,
            !old(self).action_in_flight ==> match old(self).selected_commit() {
                None => act is None && final(self).same_list(old(self)) && final(self).message
                    == old(self).message && final(self).busy_hint == old(self).busy_hint,
                Some(c) => {
                    &&& final(self).action_in_flight
                    &&& final(self).busy_hint
                    &&& if checkout {
                        &&& act matches Some(HistoryAction::Checkout { sha, short }) && sha@
                            == c.hash && short@ == c.short
                        &&& final(self).says("Checking out "@ + c.short + "…"@)
                        &&& final(self).action_kind matches Some(k) && k@ == "checkout"@
                    } else {
                        &&& act matches Some(HistoryAction::OpenWorktree { sha, short }) && sha@
                            == c.hash && short@ == c.short
                        &&& final(self).says("Creating worktree at "@ + c.short + "…"@)
                        &&& final(self).action_kind matches Some(k) && k@ == "worktree add"@
                    }
                },
            },
    {
        if self.action_in_flight {
            self.busy_message();
            return None;
        }
        let (sha, short) = match self.selected {
            Some(i) => if i < self.commits.len() {
                (self.commits[i].hash.clone(), self.commits[i].short.clone())
            } else {
                return None;
            },
            None => return None,
        };
        let mut m = String::from_str(
            if checkout {
                "Checking out "
            } else {
                "Creating worktree at "
            },
        );
        m.append(short.as_str());
        m.append("…");
        self.message = Some(m);
        self.busy_hint = true;
        self.action_in_flight = true;
        if checkout {
            self.action_kind = Some("checkout");
            Some(HistoryAction::Checkout { sha, short })
        } else {
            self.action_kind = Some("worktree add");
            Some(HistoryAction::OpenWorktree { sha, short })
        }
    }

    /// `x`: checks the selected commit out in this worktree (detached).
    pub fn checkout(&mut self) -> (act: Option<HistoryAction>)
        ensures
            old(self).starts_action(true, final(self), act),
    {
        self.start_action(true)
    }

    /// `w`: opens a new worktree at the selected commit.
    pub fn open_worktree(&mut self) -> (act: Option<HistoryAction>)
        ensures
            old(self).starts_action(false, final(self), act),
    {
        self.start_action(false)
    }

    /// What starting a checkout (or a worktree add) did.
    pub open spec fn starts_action(&self, checkout: bool, after: &Self, act: Option<HistoryAction>) -> bool {
        &&& after.same_detail(self)
        &&& after.commits == self.commits
        &&& after.selected == self.selected
        &&& self.action_in_flight ==> act is None && after.says(
            "Busy — wait for the current operation"@,
        ) && after.busy_hint
        &&& !self.action_in_flight ==> match self.selected_commit() {
            None => act is None && after.same_list(self) && after.message == self.message,
            Some(c) => {
                &&& after.action_in_flight
                &&& after.busy_hint
                &&& if checkout {
                    &&& act matches Some(HistoryAction::Checkout { sha, short }) && sha@ == c.hash
                        && short@ == c.short
                    &&& after.says("Checking out "@ + c.short + "…"@)
                    &&& after.action_kind matches Some(k) && k@ == "checkout"@
                } else {
                    &&& act matches Some(HistoryAction::OpenWorktree { sha, short }) && sha@
                        == c.hash && short@ == c.short
                    &&& after.says("Creating worktree at "@ + c.short + "…"@)
                    &&& after.action_kind matches Some(k) && k@ == "worktree add"@
                }
            },
        }
    }

    /// A checkout finished: on success HEAD moved (this worktree's files
    /// and the worktree list changed) and the log reloads.
    pub fn checked_out(&mut self, short: &str, result: Result<(), GitError>) -> (reload: Option<
        LogLoad,
    >)
        requires
            old(self).load_generation < u64::MAX,
            old(self).max_count < usize::MAX,
        ensures
            !final(self).action_in_flight,
            final(self).action_kind is None,
            final(self).commits == old(self).commits,
            final(self).selected == old(self).selected,
            match result {
                Ok(()) => {
                    &&& !old(self).load_failed ==> final(self).says(
                        "Checked out "@ + short@ + " (detached HEAD)"@,
                    ) && !final(self).busy_hint
                    &&& old(self).load_failed ==> final(self).says("Retrying…"@)
                    &&& final(self).mutated
                    &&& final(self).worktree_files_changed
                    &&& reload matches Some(l) && l.gen == old(self).load_generation + 1 && l.skip
                        == 0 && l.max_count == old(self).max_count + 1
                },
                Err(e) => {
                    &&& final(self).says(e.message@)
                    &&& final(self).busy_hint
                    &&& reload is None
                    &&& final(self).mutated == old(self).mutated
                    &&& final(self).worktree_files_changed == old(self).worktree_files_changed
                },
            },
    {
        self.action_in_flight = false;
        self.action_kind = None;
        match result {
            Ok(()) => {
                let mut m = String::from_str("Checked out ");
                m.append(short);
                m.append(" (detached HEAD)");
                self.message = Some(m);
                self.mutated = true;
                self.worktree_files_changed = true;
                self.busy_hint = false;
                let l = self.refresh();
                Some(l)
            },
            Err(e) => {
                self.message = Some(e.message);
                self.busy_hint = true;
                None
            },
        }
    }

    /// A worktree add finished: on success the worktree list changed (this
    /// worktree's files did not) and the message names the new path.
    pub fn worktree_opened(&mut self, result: Result<String, GitError>)
        ensures
            !final(self).action_in_flight,
            final(self).action_kind is None,
            final(self).commits == old(self).commits,
            final(self).selected == old(self).selected,
            final(self).load_generation == old(self).load_generation,
            final(self).worktree_files_changed == old(self).worktree_files_changed,
            match result {
                Ok(p) => final(self).says("Worktree created at "@ + p@) && final(self).mutated
                    && !final(self).busy_hint,
                Err(e) => final(self).says(e.message@) && final(self).busy_hint && final(self).mutated == old(self).mutated,
            },
    {
        self.action_in_flight = false;
        self.action_kind = None;
        match result {
            Ok(p) => {
                let mut m = String::from_str("Worktree created at ");
                m.append(p.as_str());
                self.message = Some(m);
                self.mutated = true;
                self.busy_hint = false;
            },
            Err(e) => {
                self.message = Some(e.message);
                self.busy_hint = true;
            },
        }
    }


    /// Why an action key cannot run now (see `action_blocker`).
    pub open spec fn blocker(&self) -> Option<Seq<char>> {
        crate::history_store::blocker_of(
            self.action_in_flight,
            self.retrying,
            self.commits@.len() == 0,
            self.initial_load_done,
            self.load_failed,
        )
    }

    /// Lets an action key through, or explains why it cannot run.
    pub fn guard_action(&mut self) -> (ok: bool)
        ensures
            ok == (old(self).blocker() is None),
            final(self).same_list(old(self)),
            final(self).same_detail(old(self)),
            ok ==> final(self).message == old(self).message && final(self).busy_hint == old(self).busy_hint,
            !ok ==> final(self).says(old(self).blocker().unwrap()) && final(self).busy_hint,
    {
        match self.action_blocker() {
            Some(b) => {
                self.message = Some(b);
                self.busy_hint = true;
                false
            },
            None => true,
        }
    }

    /// `r`: reloads the log, except while an action or a retry runs (a
    /// mid-flight checkout must not race a second log). Failed loads and
    /// empty repositories reload like any other state.
    pub fn refresh_key(&mut self) -> (load: Option<LogLoad>)
        requires
            old(self).load_generation < u64::MAX,
            old(self).max_count < usize::MAX,
        ensures
            old(self).action_in_flight || old(self).retrying ==> load is None && final(self).says("Busy — wait for the current operation"@) && final(self).busy_hint
                && final(self).same_list(old(self)),
            !(old(self).action_in_flight || old(self).retrying) ==> (load matches Some(l) && l.gen
                == old(self).load_generation + 1 && l.skip == 0 && l.max_count == old(self).max_count
                + 1 && final(self).load_generation == l.gen),
            final(self).same_detail(old(self)),
    {
        if self.action_in_flight || self.retrying {
            self.busy_message();
            return None;
        }
        Some(self.refresh())
    }

    /// `up`/`down` on the commit list: before any commit is listed the
    /// key explains itself; otherwise the selection moves (a move starts
    /// the new commit's files load) and the position to keep on screen is
    /// returned.
    pub fn list_key(&mut self, down: bool) -> (r: Option<(Option<usize>, Option<FilesLoad>)>)
        requires
            old(self).detail_generation < u64::MAX,
        ensures
            old(self).commits@.len() == 0 ==> r is None && final(self).same_list(old(self))
                && final(self).same_detail(old(self)) && match old(self).blocker() {
                Some(b) => final(self).says(b) && final(self).busy_hint,
                None => final(self).message == old(self).message,
            },
            old(self).commits@.len() > 0 ==> {
                &&& r matches Some((pos, files)) && pos == final(self).selected && (files is Some
                    ==> final(self).selected != old(self).selected) && (final(self).selected != old(self).selected && final(self).selected_commit() is Some ==> files is Some)
                &&& final(self).commits == old(self).commits
                &&& final(self).selected == ({
                    let n = old(self).commits@.len();
                    match old(self).selected {
                        None => if down {
                            Some(0usize)
                        } else {
                            None
                        },
                        Some(s) => if down && s + 1 < n {
                            Some((s + 1) as usize)
                        } else if !down && s > 0 {
                            if s - 1 < n {
                                Some((s - 1) as usize)
                            } else {
                                None
                            }
                        } else {
                            Some(s)
                        },
                    }
                })
            },
    {
        if self.commits.len() == 0 {
            match self.action_blocker() {
                Some(b) => {
                    self.message = Some(b);
                    self.busy_hint = true;
                },
                None => {},
            }
            return None;
        }
        let moved = if down {
            self.select_next()
        } else {
            self.select_prev()
        };
        let files = if moved {
            self.load_commit_files()
        } else {
            None
        };
        Some((self.selected, files))
    }

    /// `L`: loads older commits when an action may run and older commits
    /// exist; otherwise says why not.
    pub fn load_more_key(&mut self) -> (load: Option<LogLoad>)
        requires
            old(self).load_generation < u64::MAX,
            old(self).batch < usize::MAX,
        ensures
            old(self).blocker() is Some ==> load is None && final(self).says(
                old(self).blocker().unwrap(),
            ) && final(self).same_list(old(self)),
            old(self).blocker() is None && !old(self).has_more ==> load is None && final(self).says("No older commits to load"@) && final(self).same_list(old(self)),
            old(self).blocker() is None && old(self).has_more && !old(self).load_more_in_flight
                ==> load is Some && final(self).load_more_in_flight,
            old(self).blocker() is None && old(self).has_more && old(self).load_more_in_flight
                ==> load is None && final(self).says("Already loading older commits…"@),
            final(self).same_detail(old(self)),
            final(self).commits == old(self).commits,
    {
        if !self.guard_action() {
            return None;
        }
        self.load_more()
    }

}

} // verus!

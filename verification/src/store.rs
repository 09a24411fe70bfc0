//! The home list's state: the worktrees, the filter, and the selection
//! within the filtered rows. The selection always names a filtered row,
//! and re-filtering keeps the selected worktree selected while it still
//! matches.

use crate::git::GitError;
use crate::model::{matches_filter, matches_filter_spec, EntryView, WorktreeEntry};
use crate::model::entry_views;
use crate::text::{eq_str, chars_of, opt_text};
use vstd::prelude::*;

verus! {

/// The indices of the first `n` entries that match the filter, in order.
pub open spec fn matching(es: Seq<EntryView>, filter: Seq<char>, n: int) -> Seq<usize>
    decreases n,
{
    if n <= 0 {
        seq![]
    } else if matches_filter_spec(es[n - 1], filter) {
        matching(es, filter, n - 1).push((n - 1) as usize)
    } else {
        matching(es, filter, n - 1)
    }
}

/// `j` is the first filtered row whose entry has the path.
pub open spec fn is_first_row(es: Seq<EntryView>, idx: Seq<usize>, path: Seq<char>, j: int) -> bool {
    &&& 0 <= j < idx.len()
    &&& es[idx[j] as int].path == path
    &&& forall|k: int| 0 <= k < j ==> es[idx[k] as int].path != path
}

/// The selection after filtering: the row of the kept path while it
/// still matches, else the first row, else none.
pub open spec fn selection_after(es: Seq<EntryView>, idx: Seq<usize>, keep: Option<Seq<char>>) -> Option<
    int,
> {
    if keep is Some && exists|j: int| is_first_row(es, idx, keep->0, j) {
        Some(choose|j: int| is_first_row(es, idx, keep->0, j))
    } else if idx.len() > 0 {
        Some(0)
    } else {
        None
    }
}

pub open spec fn opt_index(o: Option<usize>) -> Option<int> {
    match o {
        Some(i) => Some(i as int),
        None => None,
    }
}

proof fn lemma_matching(es: Seq<EntryView>, filter: Seq<char>, n: int)
    requires
        0 <= n <= es.len(),
    ensures
        matching(es, filter, n).len() <= n,
        forall|j: int|
            0 <= j < matching(es, filter, n).len() ==> (#[trigger] matching(es, filter, n)[j]) < n,
    decreases n,
{
    if n > 0 {
        lemma_matching(es, filter, n - 1);
    }
}

/// Re-filters: the indices of the matching entries, and the new
/// selection (a position among them), keeping the previously selected
/// path selected when it still matches.
pub fn apply_filter(entries: &Vec<WorktreeEntry>, filter: &str, keep_path: Option<&str>) -> (r: (
    Vec<usize>,
    Option<usize>,
))
    ensures
        r.0@ == matching(entry_views(entries@), filter@, entries@.len() as int),
        opt_index(r.1) == selection_after(entry_views(entries@), r.0@, opt_text(keep_path)),
{
    let ghost es = entry_views(entries@);
    let mut indices: Vec<usize> = Vec::new();
    let mut i: usize = 0;
    while i < entries.len()
        invariant
            i <= entries.len(),
            es == entry_views(entries@),
            indices@ == matching(es, filter@, i as int),
        decreases entries.len() - i,
    {
        proof {
            assert(es[i as int] == entries@[i as int]@);
        }
        if matches_filter(&entries[i], filter) {
            indices.push(i);
        }
        i += 1;
    }
    proof {
        lemma_matching(es, filter@, entries@.len() as int);
    }
    let mut selected: Option<usize> = None;
    match keep_path {
        Some(p) => {
            let mut j: usize = 0;
            while j < indices.len() && selected.is_none()
                invariant
                    j <= indices.len(),
                    selected is None || (selected == Some(j) && j < indices@.len()
                        && selection_after(es, indices@, Some(p@)) == Some(j as int)),
                    es == entry_views(entries@),
                    indices@ == matching(es, filter@, entries@.len() as int),
                    forall|k: int| 0 <= k < indices@.len() ==> indices@[k] < entries@.len(),
                    forall|k: int| 0 <= k < j ==> es[indices@[k] as int].path != p@,
                decreases indices.len() - j + (if selected is None {
                    1int
                } else {
                    0int
                }),
            {
                let e = &entries[indices[j]];
                proof {
                    assert(es[indices@[j as int] as int] == entries@[indices@[j as int] as int]@);
                }
                if eq_str(&chars_of(e.path.as_str()), p) {
                    proof {
                        assert(is_first_row(es, indices@, p@, j as int));
                        let c = choose|c: int| is_first_row(es, indices@, p@, c);
                        assert(is_first_row(es, indices@, p@, c));
                        if c < j {
                            assert(es[indices@[c] as int].path != p@);
                        } else if c > j {
                            assert(es[indices@[j as int] as int].path != p@);
                        }
                        assert(c == j);
                        let keep: Option<Seq<char>> = Some(p@);
                        assert(keep->0 == p@);
                        assert(exists|k: int| is_first_row(es, indices@, keep->0, k));
                        assert(selection_after(es, indices@, keep) == Some(j as int));
                    }
                    selected = Some(j);
                } else {
                    j += 1;
                }
            }
            proof {
                if selected is None {
                    if exists|c: int| is_first_row(es, indices@, p@, c) {
                        let c = choose|c: int| is_first_row(es, indices@, p@, c);
                        assert(es[indices@[c] as int].path == p@);
                    }
                }
            }
        },
        None => {},
    }
    if selected.is_none() && indices.len() > 0 {
        selected = Some(0);
    }
    (indices, selected)
}

/// The home list.
pub struct WorktreeStore {
    pub repo_root: Option<String>,
    pub entries: Vec<WorktreeEntry>,
    /// Indices into `entries` that match the current filter.
    pub filtered: Vec<usize>,
    pub filter: String,
    /// Index into `filtered` (not `entries`).
    pub selected: Option<usize>,
    pub status_message: Option<String>,
    pub busy: bool,
    /// Loaded after repo detection; "main" until the git call returns.
    pub default_base: String,
    pub local_branches: Vec<String>,
}

impl WorktreeStore {
    /// The list is consistent: every filtered index names an entry, and
    /// the selection names a filtered row.
    pub open spec fn wf(&self) -> bool {
        &&& forall|k: int|
            0 <= k < self.filtered@.len() ==> (#[trigger] self.filtered@[k]) < self.entries@.len()
        &&& match self.selected {
            Some(s) => s < self.filtered@.len(),
            None => true,
        }
    }

    /// The selected entry, if any.
    pub open spec fn selected_view(&self) -> Option<EntryView> {
        match self.selected {
            Some(s) => if s < self.filtered@.len() && self.filtered@[s as int]
                < self.entries@.len() {
                Some(self.entries@[self.filtered@[s as int] as int]@)
            } else {
                None
            },
            None => None,
        }
    }

    /// An empty list with no repository.
    pub fn new() -> (s: Self)
        ensures
            s.wf(),
            s.repo_root is None,
            s.entries@.len() == 0,
            s.filtered@.len() == 0,
            s.filter@.len() == 0,
            s.selected is None,
            !s.busy,
            s.default_base@ == "main"@,
    {
        WorktreeStore {
            repo_root: None,
            entries: Vec::new(),
            filtered: Vec::new(),
            filter: String::new(),
            selected: None,
            status_message: None,
            busy: false,
            default_base: String::from_str("main"),
            local_branches: Vec::new(),
        }
    }

    /// The selected entry.
    pub fn selected_entry(&self) -> (e: Option<&WorktreeEntry>)
        ensures
            match e {
                Some(x) => self.selected_view() == Some(x@),
                None => self.selected_view() is None,
            },
    {
        match self.selected {
            Some(s) => {
                if s < self.filtered.len() && self.filtered[s] < self.entries.len() {
                    Some(&self.entries[self.filtered[s]])
                } else {
                    None
                }
            },
            None => None,
        }
    }

    fn refilter(&mut self)
        ensures
            final(self).entries == old(self).entries,
            final(self).filter == old(self).filter,
            final(self).repo_root == old(self).repo_root,
            final(self).busy == old(self).busy,
            final(self).wf(),
            final(self).filtered@ == matching(
                entry_views(old(self).entries@),
                old(self).filter@,
                old(self).entries@.len() as int,
            ),
            opt_index(final(self).selected) == selection_after(
                entry_views(old(self).entries@),
                final(self).filtered@,
                match old(self).selected_view() {
                    Some(v) => Some(v.path),
                    None => None,
                },
            ),
    {
        let keep: Option<String> = match self.selected_entry() {
            Some(e) => Some(e.path.clone()),
            None => None,
        };
        let (filtered, selected) = match &keep {
            Some(p) => apply_filter(&self.entries, self.filter.as_str(), Some(p.as_str())),
            None => apply_filter(&self.entries, self.filter.as_str(), None),
        };
        proof {
            lemma_matching(entry_views(self.entries@), self.filter@, self.entries@.len() as int);
            assert forall|k: int| 0 <= k < filtered@.len() implies (#[trigger] filtered@[k])
                < self.entries@.len() by {
                assert(matching(entry_views(self.entries@), self.filter@, self.entries@.len() as int)[k]
                    < self.entries@.len());
            }
            match selected {
                Some(s) => {
                    let keepv = match keep {
                        Some(p) => Some(p@),
                        None => None,
                    };
                    if keepv is Some && exists|j: int|
                        is_first_row(entry_views(self.entries@), filtered@, keepv->0, j) {
                        let j = choose|j: int|
                            is_first_row(entry_views(self.entries@), filtered@, keepv->0, j);
                    }
                },
                None => {},
            }
        }
        self.filtered = filtered;
        self.selected = selected;
    }

    /// Replaces the entries (a refresh finished), keeping the selected
    /// worktree selected while it still matches the filter.
    pub fn set_entries(&mut self, entries: Vec<WorktreeEntry>)
        ensures
            final(self).wf(),
            final(self).busy == old(self).busy,
            final(self).repo_root == old(self).repo_root,
            final(self).status_message == old(self).status_message,
            final(self).default_base == old(self).default_base,
            final(self).local_branches == old(self).local_branches,
            final(self).entries@ == entries@,
            final(self).filter == old(self).filter,
            final(self).filtered@ == matching(
                entry_views(entries@),
                old(self).filter@,
                entries@.len() as int,
            ),
            opt_index(final(self).selected) == selection_after(
                entry_views(entries@),
                final(self).filtered@,
                match old(self).selected_view() {
                    Some(v) => Some(v.path),
                    None => None,
                },
            ),
    {
        let keep: Option<String> = match self.selected_entry() {
            Some(e) => Some(e.path.clone()),
            None => None,
        };
        self.entries = entries;
        let (filtered, selected) = match &keep {
            Some(p) => apply_filter(&self.entries, self.filter.as_str(), Some(p.as_str())),
            None => apply_filter(&self.entries, self.filter.as_str(), None),
        };
        proof {
            lemma_matching(entry_views(self.entries@), self.filter@, self.entries@.len() as int);
            assert forall|k: int| 0 <= k < filtered@.len() implies (#[trigger] filtered@[k])
                < self.entries@.len() by {
                assert(matching(entry_views(self.entries@), self.filter@, self.entries@.len() as int)[k]
                    < self.entries@.len());
            }
            match selected {
                Some(s) => {
                    let keepv = match keep {
                        Some(p) => Some(p@),
                        None => None,
                    };
                    if keepv is Some && exists|j: int|
                        is_first_row(entry_views(self.entries@), filtered@, keepv->0, j) {
                        let j = choose|j: int|
                            is_first_row(entry_views(self.entries@), filtered@, keepv->0, j);
                    }
                },
                None => {},
            }
        }
        self.filtered = filtered;
        self.selected = selected;
    }

    /// Sets the filter text, keeping the selected worktree selected while
    /// it still matches.
    pub fn set_filter(&mut self, filter: String)
        ensures
            final(self).wf(),
            final(self).entries == old(self).entries,
            final(self).filter == filter,
            final(self).filtered@ == matching(
                entry_views(old(self).entries@),
                filter@,
                old(self).entries@.len() as int,
            ),
            opt_index(final(self).selected) == selection_after(
                entry_views(old(self).entries@),
                final(self).filtered@,
                match old(self).selected_view() {
                    Some(v) => Some(v.path),
                    None => None,
                },
            ),
    {
        let keep: Option<String> = match self.selected_entry() {
            Some(e) => Some(e.path.clone()),
            None => None,
        };
        self.filter = filter;
        let (filtered, selected) = match &keep {
            Some(p) => apply_filter(&self.entries, self.filter.as_str(), Some(p.as_str())),
            None => apply_filter(&self.entries, self.filter.as_str(), None),
        };
        proof {
            lemma_matching(entry_views(self.entries@), self.filter@, self.entries@.len() as int);
            assert forall|k: int| 0 <= k < filtered@.len() implies (#[trigger] filtered@[k])
                < self.entries@.len() by {
                assert(matching(entry_views(self.entries@), self.filter@, self.entries@.len() as int)[k]
                    < self.entries@.len());
            }
            match selected {
                Some(s) => {
                    let keepv = match keep {
                        Some(p) => Some(p@),
                        None => None,
                    };
                    if keepv is Some && exists|j: int|
                        is_first_row(entry_views(self.entries@), filtered@, keepv->0, j) {
                        let j = choose|j: int|
                            is_first_row(entry_views(self.entries@), filtered@, keepv->0, j);
                    }
                },
                None => {},
            }
        }
        self.filtered = filtered;
        self.selected = selected;
    }

    /// Selects a filtered row; an index past the rows clears the
    /// selection.
    pub fn select(&mut self, idx: Option<usize>)
        requires
            old(self).wf(),
        ensures
            final(self).wf(),
            final(self).entries == old(self).entries,
            final(self).filtered == old(self).filtered,
            final(self).filter == old(self).filter,
            final(self).selected == match idx {
                Some(i) => if i < old(self).filtered@.len() {
                    Some(i)
                } else {
                    None
                },
                None => None,
            },
    {
        self.selected = match idx {
            Some(i) => if i < self.filtered.len() {
                Some(i)
            } else {
                None
            },
            None => None,
        };
    }

    /// Moves the selection down one row, stopping at the last (from no
    /// selection, to the first row).
    pub fn select_next(&mut self)
        requires
            old(self).wf(),
        ensures
            final(self).wf(),
            final(self).entries == old(self).entries,
            final(self).filtered == old(self).filtered,
            final(self).selected == (if old(self).filtered@.len() == 0 {
                None
            } else {
                match old(self).selected {
                    Some(s) => Some(
                        if s + 1 < old(self).filtered@.len() {
                            (s + 1) as usize
                        } else {
                            (old(self).filtered@.len() - 1) as usize
                        },
                    ),
                    None => Some(0usize),
                }
            }),
    {
        let n = self.filtered.len();
        let next: usize = match self.selected {
            Some(s) => s + 1,
            None => 0,
        };
        let last = if self.filtered.len() > 0 {
            self.filtered.len() - 1
        } else {
            0
        };
        let target = if next < last {
            next
        } else {
            last
        };
        self.select(Some(target));
    }

    /// Moves the selection up one row, stopping at the first.
    pub fn select_prev(&mut self)
        requires
            old(self).wf(),
        ensures
            final(self).wf(),
            final(self).entries == old(self).entries,
            final(self).filtered == old(self).filtered,
            final(self).selected == (if old(self).filtered@.len() == 0 {
                None
            } else {
                match old(self).selected {
                    Some(s) => Some(
                        if s > 0 {
                            (s - 1) as usize
                        } else {
                            0usize
                        },
                    ),
                    None => Some(0usize),
                }
            }),
    {
        let prev: usize = match self.selected {
            Some(s) => if s > 0 {
                s - 1
            } else {
                0
            },
            None => 0,
        };
        self.select(Some(prev));
    }

    /// A repository was loaded: its root is set and the filter and
    /// status message cleared (the caller then refreshes).
    pub fn load_repo(&mut self, root: String)
        requires
            old(self).wf(),
        ensures
            final(self).wf(),
            final(self).repo_root == Some(root),
            final(self).filter@.len() == 0,
            final(self).status_message is None,
            final(self).entries == old(self).entries,
            final(self).filtered == old(self).filtered,
            final(self).selected == old(self).selected,
    {
        self.repo_root = Some(root);
        self.filter = String::new();
        self.status_message = None;
    }
}

/// A worktree-list operation the caller runs against the repository at
/// `root`; its completion goes to `WorktreeStore::operation_finished`.
pub enum HomeAction {
    /// `git worktree add` of `path`, on a new `branch` from `base` (or
    /// checking `base` out when no branch is named).
    Add { root: String, path: String, branch: Option<String>, base: String },
    /// `git worktree remove` of `path`.
    Remove { root: String, path: String, force: bool },
    /// `git worktree prune`.
    Prune { root: String },
}

/// The message after an operation finished well.
pub open spec fn done_text(a: HomeAction) -> Seq<char> {
    match a {
        HomeAction::Add { path, .. } => "Created "@ + path@,
        HomeAction::Remove { path, .. } => "Removed "@ + path@,
        HomeAction::Prune { .. } => "Pruned stale entries"@,
    }
}

impl WorktreeStore {
    /// The status message is `text`.
    pub open spec fn says(&self, text: Seq<char>) -> bool {
        self.status_message matches Some(m) && m@ == text
    }

    /// The list is as in `other`.
    pub open spec fn same_list(&self, other: &Self) -> bool {
        &&& self.entries == other.entries
        &&& self.filtered == other.filtered
        &&& self.selected == other.selected
        &&& self.filter == other.filter
    }

    /// Starts a reload of the worktree list (with each worktree's status),
    /// returning the repository to list; nothing happens without one.
    pub fn refresh(&mut self) -> (root: Option<String>)
        requires
            old(self).wf(),
        ensures
            final(self).wf(),
            final(self).same_list(old(self)),
            final(self).repo_root == old(self).repo_root,
            final(self).default_base == old(self).default_base,
            final(self).local_branches == old(self).local_branches,
            match old(self).repo_root {
                None => root is None && final(self).busy == old(self).busy
                    && final(self).status_message == old(self).status_message,
                Some(r) => root == Some(r) && final(self).busy && final(self).says("Refreshing…"@),
            },
    {
        let root = match &self.repo_root {
            Some(r) => r.clone(),
            None => return None,
        };
        self.busy = true;
        self.status_message = Some(String::from_str("Refreshing…"));
        Some(root)
    }

    /// A reload finished: the entries are replaced (the selected worktree
    /// stays selected while it still matches), or the failure is shown.
    pub fn refreshed(&mut self, result: Result<Vec<WorktreeEntry>, GitError>)
        requires
            old(self).wf(),
        ensures
            final(self).wf(),
            !final(self).busy,
            final(self).repo_root == old(self).repo_root,
            final(self).filter == old(self).filter,
            match result {
                Ok(es) => {
                    &&& final(self).status_message is None
                    &&& final(self).entries@ == es@
                    &&& final(self).filtered@ == matching(
                        entry_views(es@),
                        old(self).filter@,
                        es@.len() as int,
                    )
                    &&& opt_index(final(self).selected) == selection_after(
                        entry_views(es@),
                        final(self).filtered@,
                        match old(self).selected_view() {
                            Some(v) => Some(v.path),
                            None => None,
                        },
                    )
                },
                Err(e) => final(self).says(e.message@) && final(self).same_list(old(self)),
            },
    {
        self.busy = false;
        match result {
            Ok(es) => {
                self.status_message = None;
                self.set_entries(es);
            },
            Err(e) => {
                self.status_message = Some(e.message);
            },
        }
    }

    /// Repository detection from the launch directory starts.
    pub fn detect_repo(&mut self)
        ensures
            final(self).busy,
            final(self).same_list(old(self)),
            final(self).repo_root == old(self).repo_root,
            final(self).status_message == old(self).status_message,
    {
        self.busy = true;
    }

    /// The launch directory's repository root was probed: the repository
    /// loads (returning the root whose branches and worktrees the caller
    /// loads next), else the user is asked for a path.
    pub fn repo_detected(&mut self, result: Result<String, GitError>) -> (root: Option<String>)
        requires
            old(self).wf(),
        ensures
            final(self).wf(),
            match result {
                Ok(r) => root == Some(r) && final(self).repo_root == Some(r) && final(self).busy
                    && final(self).says("Refreshing…"@) && final(self).filter@.len() == 0,
                Err(_) => root is None && !final(self).busy && final(self).says(
                    "Not inside a git repository — enter a path below."@,
                ) && final(self).same_list(old(self)),
            },
    {
        self.busy = false;
        match result {
            Ok(r) => {
                self.load_repo(r);
                self.refresh()
            },
            Err(_) => {
                self.status_message = Some(
                    String::from_str("Not inside a git repository — enter a path below."),
                );
                None
            },
        }
    }

    /// A path typed by the user is being checked as a repository.
    pub fn load_repo_from_user_path(&mut self)
        ensures
            final(self).busy,
            final(self).says("Opening repository…"@),
            final(self).same_list(old(self)),
            final(self).repo_root == old(self).repo_root,
    {
        self.busy = true;
        self.status_message = Some(String::from_str("Opening repository…"));
    }

    /// The typed path was probed: its repository loads (the root returned
    /// as by `repo_detected`), else git's refusal is shown.
    pub fn user_path_checked(&mut self, result: Result<String, GitError>) -> (root: Option<String>)
        requires
            old(self).wf(),
        ensures
            final(self).wf(),
            match result {
                Ok(r) => root == Some(r) && final(self).repo_root == Some(r) && final(self).busy
                    && final(self).says("Refreshing…"@) && final(self).filter@.len() == 0,
                Err(e) => root is None && !final(self).busy && final(self).says(
                    "Not a git repository: "@ + e.message@,
                ) && final(self).same_list(old(self)),
            },
    {
        self.busy = false;
        match result {
            Ok(r) => {
                self.load_repo(r);
                self.refresh()
            },
            Err(e) => {
                let mut m = String::from_str("Not a git repository: ");
                m.append(e.message.as_str());
                self.status_message = Some(m);
                None
            },
        }
    }

    /// The repository's default branch and local branches arrived.
    pub fn branch_metadata_loaded(&mut self, default_base: String, branches: Vec<String>)
        ensures
            final(self).default_base == default_base,
            final(self).local_branches == branches,
            final(self).same_list(old(self)),
            final(self).repo_root == old(self).repo_root,
            final(self).busy == old(self).busy,
            final(self).status_message == old(self).status_message,
    {
        self.default_base = default_base;
        self.local_branches = branches;
    }

    /// Starts an operation against the loaded repository; nothing happens
    /// without one.
    fn start(&mut self, text: &str) -> (root: Option<String>)
        ensures
            final(self).same_list(old(self)),
            final(self).repo_root == old(self).repo_root,
            match old(self).repo_root {
                None => root is None && final(self).busy == old(self).busy
                    && final(self).status_message == old(self).status_message,
                Some(r) => root == Some(r) && final(self).busy && final(self).says(text@),
            },
    {
        let root = match &self.repo_root {
            Some(r) => r.clone(),
            None => return None,
        };
        self.busy = true;
        self.status_message = Some(String::from_str(text));
        Some(root)
    }

    /// Starts adding a worktree at `path`.
    pub fn add(&mut self, path: String, branch: Option<String>, base: String) -> (act: Option<
        HomeAction,
    >)
        ensures
            final(self).same_list(old(self)),
            final(self).repo_root == old(self).repo_root,
            match old(self).repo_root {
                None => act is None && final(self).busy == old(self).busy,
                Some(r) => act == Some(HomeAction::Add { root: r, path, branch, base })
                    && final(self).busy && final(self).says("Creating worktree…"@),
            },
    {
        match self.start("Creating worktree…") {
            Some(root) => Some(HomeAction::Add { root, path, branch, base }),
            None => None,
        }
    }

    /// Starts removing the worktree at `path`.
    pub fn remove(&mut self, path: String, force: bool) -> (act: Option<HomeAction>)
        ensures
            final(self).same_list(old(self)),
            final(self).repo_root == old(self).repo_root,
            match old(self).repo_root {
                None => act is None && final(self).busy == old(self).busy,
                Some(r) => act == Some(HomeAction::Remove { root: r, path, force })
                    && final(self).busy && final(self).says("Removing worktree…"@),
            },
    {
        match self.start("Removing worktree…") {
            Some(root) => Some(HomeAction::Remove { root, path, force }),
            None => None,
        }
    }

    /// Starts pruning stale worktree entries.
    pub fn prune(&mut self) -> (act: Option<HomeAction>)
        ensures
            final(self).same_list(old(self)),
            final(self).repo_root == old(self).repo_root,
            match old(self).repo_root {
                None => act is None && final(self).busy == old(self).busy,
                Some(r) => act == Some(HomeAction::Prune { root: r }) && final(self).busy
                    && final(self).says("Pruning…"@),
            },
    {
        match self.start("Pruning…") {
            Some(root) => Some(HomeAction::Prune { root }),
            None => None,
        }
    }

    /// An operation finished: its outcome is the message until the reload
    /// that always follows (returned like `refresh`) replaces it.
    pub fn operation_finished(&mut self, action: &HomeAction, result: Result<(), GitError>) -> (root:
        Option<String>)
        requires
            old(self).wf(),
        ensures
            final(self).wf(),
            final(self).same_list(old(self)),
            final(self).repo_root == old(self).repo_root,
            match old(self).repo_root {
                Some(r) => root == Some(r) && final(self).busy && final(self).says("Refreshing…"@),
                None => root is None && !final(self).busy && match result {
                    Ok(()) => final(self).says(done_text(*action)),
                    Err(e) => final(self).says(e.message@),
                },
            },
    {
        self.busy = false;
        match result {
            Ok(()) => {
                let text = match action {
                    HomeAction::Add { path, .. } => {
                        let mut m = String::from_str("Created ");
                        m.append(path.as_str());
                        m
                    },
                    HomeAction::Remove { path, .. } => {
                        let mut m = String::from_str("Removed ");
                        m.append(path.as_str());
                        m
                    },
                    HomeAction::Prune { .. } => String::from_str("Pruned stale entries"),
                };
                self.status_message = Some(text);
            },
            Err(e) => {
                self.status_message = Some(e.message);
            },
        }
        self.refresh()
    }
}

proof fn lemma_matching_complete(es: Seq<EntryView>, filter: Seq<char>, n: int, i: int)
    requires
        0 <= i < n <= es.len(),
        es.len() <= usize::MAX,
        matches_filter_spec(es[i], filter),
    ensures
        exists|j: int|
            0 <= j < matching(es, filter, n).len() && matching(es, filter, n)[j] == i as usize,
    decreases n,
{
    if i < n - 1 {
        lemma_matching_complete(es, filter, n - 1, i);
        let j = choose|j: int|
            0 <= j < matching(es, filter, n - 1).len() && #[trigger] matching(es, filter, n - 1)[j]
                == i as usize;
        if matches_filter_spec(es[n - 1], filter) {
            assert(matching(es, filter, n) == matching(es, filter, n - 1).push((n - 1) as usize));
            assert(matching(es, filter, n)[j] == matching(es, filter, n - 1)[j]);
        } else {
            assert(matching(es, filter, n) == matching(es, filter, n - 1));
        }
        assert(matching(es, filter, n)[j] == i as usize);
    } else {
        let m = matching(es, filter, n);
        assert(m == matching(es, filter, n - 1).push((n - 1) as usize));
        assert(m[m.len() - 1] == i as usize);
    }
}

/// Re-filtering keeps the selected worktree selected while it still
/// matches: when some entry with the kept path matches the new filter,
/// the new selection is a filtered row holding that path.
pub proof fn filter_keeps_selected_path(es: Seq<EntryView>, filter: Seq<char>, keep: Seq<char>, i: int)
    requires
        0 <= i < es.len(),
        es.len() <= usize::MAX,
        es[i].path == keep,
        matches_filter_spec(es[i], filter),
    ensures
        ({
            let idx = matching(es, filter, es.len() as int);
            selection_after(es, idx, Some(keep)) matches Some(j) && 0 <= j < idx.len()
                && es[idx[j] as int].path == keep
        }),
{
    let idx = matching(es, filter, es.len() as int);
    lemma_matching(es, filter, es.len() as int);
    lemma_matching_complete(es, filter, es.len() as int, i);
    let j0 = choose|j: int| 0 <= j < idx.len() && idx[j] == i as usize;
    assert(idx[j0] as int == i);
    lemma_first_row_exists(es, idx, keep, j0);
    let c = choose|c: int| is_first_row(es, idx, keep, c);
    let ko = Some(keep);
    assert(is_first_row(es, idx, ko->0, c));
    let s = choose|j: int| is_first_row(es, idx, ko->0, j);
    assert(is_first_row(es, idx, ko->0, s));
    assert(selection_after(es, idx, ko) == Some(s));
}

proof fn lemma_first_row_exists(es: Seq<EntryView>, idx: Seq<usize>, path: Seq<char>, j: int)
    requires
        0 <= j < idx.len(),
        forall|k: int| 0 <= k < idx.len() ==> (idx[k] as int) < es.len(),
        es[idx[j] as int].path == path,
    ensures
        exists|c: int| is_first_row(es, idx, path, c),
    decreases j,
{
    if exists|k: int| 0 <= k < j && es[idx[k] as int].path == path {
        let k = choose|k: int| 0 <= k < j && es[idx[k] as int].path == path;
        lemma_first_row_exists(es, idx, path, k);
    } else {
        assert(is_first_row(es, idx, path, j));
    }
}

/// The selection after filtering always names a filtered row, and there
/// is one whenever some entry matches.
pub proof fn selection_is_a_row(es: Seq<EntryView>, filter: Seq<char>, keep: Option<Seq<char>>)
    ensures
        ({
            let idx = matching(es, filter, es.len() as int);
            &&& selection_after(es, idx, keep) matches Some(j) ==> 0 <= j < idx.len()
            &&& selection_after(es, idx, keep) is None <==> idx.len() == 0
        }),
{
    let idx = matching(es, filter, es.len() as int);
    if keep is Some && exists|j: int| is_first_row(es, idx, keep->0, j) {
        let j = choose|j: int| is_first_row(es, idx, keep->0, j);
    }
}

} // verus!

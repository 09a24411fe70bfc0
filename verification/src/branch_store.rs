//! State of the Branches section of the worktree detail view: the branch
//! list, the stash entries, each list's cursor, and the refusals and
//! transient messages of the branch and stash actions.

use crate::engine::branches::{branch_views, BranchInfo, BranchView};
use crate::engine::stash::{stash_views, StashEntry, StashView};
use crate::engine::{arg_views, join_strings};
use crate::text::{decimal, join, u64_to_string};
use vstd::prelude::*;

verus! {

/// Which list the section's keyboard selection operates on.
#[derive(Clone, Copy, Debug, PartialEq, Eq, Structural)]
pub enum Pane {
    Branches,
    Stashes,
}

pub struct BranchStore {
    pub worktree: String,
    pub branches: Vec<BranchInfo>,
    pub selected: Option<usize>,
    pub stashes: Vec<StashEntry>,
    pub selected_stash: Option<usize>,
    pub pane: Pane,
    pub load_failed: bool,
    pub message: Option<String>,
    pub busy_hint: bool,
    /// A working-copy or history operation is running git on this
    /// worktree: switch, merge, rebase and stash must wait.
    pub wc_mutating: bool,
    pub mutated: bool,
    pub load_generation: u64,
    pub busy: bool,
    /// Set on the first force-push press; the second press on the same
    /// branch executes. Any completed refresh disarms it.
    pub force_armed: Option<String>,
}

/// The row after the cursor, staying on the last row.
pub open spec fn next_cursor(cur: Option<usize>, len: nat) -> int {
    match cur {
        None => 0,
        Some(s) => if s >= len - 1 {
            s as int
        } else {
            s + 1
        },
    }
}

/// A row of a list of `len` rows, `None` past its end.
pub open spec fn in_list(i: int, len: nat) -> Option<usize> {
    if 0 <= i < len {
        Some(i as usize)
    } else {
        None
    }
}

pub open spec fn busy_text() -> Seq<char> {
    "Busy — wait for the current operation"@
}

pub open spec fn other_section_busy_text() -> Seq<char> {
    "Busy — another section is changing this worktree"@
}

pub open spec fn nothing_selected_text() -> Seq<char> {
    "Nothing selected"@
}

/// The position of the current branch, 0 when none is current.
pub open spec fn current_position(bs: Seq<BranchView>) -> int {
    if exists|i: int| 0 <= i < bs.len() && bs[i].is_current {
        choose|i: int|
            0 <= i < bs.len() && bs[i].is_current && forall|j: int|
                0 <= j < i ==> !bs[j].is_current
    } else {
        0
    }
}

fn copy_branch(b: &BranchInfo) -> (c: BranchInfo)
    ensures
        c@ == b@,
{
    BranchInfo {
        ref_name: b.ref_name.clone(),
        short: b.short.clone(),
        is_current: b.is_current,
        is_remote: b.is_remote,
        ahead: b.ahead,
        behind: b.behind,
    }
}

impl BranchStore {
    /// A store for the worktree, before its first load.
    pub fn new(worktree: String) -> (s: Self)
        ensures
            s.worktree == worktree,
            s.branches@.len() == 0,
            s.stashes@.len() == 0,
            s.selected is None,
            s.selected_stash is None,
            s.pane == Pane::Branches,
            !s.busy,
            !s.wc_mutating,
            s.message is None,
            s.generation() == 0,
            !s.is_mutated(),
    {
        BranchStore {
            worktree,
            branches: Vec::new(),
            selected: None,
            stashes: Vec::new(),
            selected_stash: None,
            pane: Pane::Branches,
            load_failed: false,
            message: None,
            busy_hint: false,
            wc_mutating: false,
            mutated: false,
            load_generation: 0,
            busy: false,
            force_armed: None,
        }
    }

    pub open spec fn is_mutated(&self) -> bool {
        self.mutated
    }

    pub open spec fn generation(&self) -> u64 {
        self.load_generation
    }

    /// Reports and clears the "a branch action changed the worktree"
    /// flag: one mutation, one home-list refresh.
    pub fn take_mutated(&mut self) -> (m: bool)
        ensures
            m == old(self).is_mutated(),
            !final(self).is_mutated(),
            final(self).branches == old(self).branches,
            final(self).selected == old(self).selected,
    {
        let m = self.mutated;
        self.mutated = false;
        m
    }

    /// Starts a reload: the generation that its completion must carry.
    pub fn refresh(&mut self) -> (gen: u64)
        requires
            old(self).generation() < u64::MAX,
        ensures
            gen == old(self).generation() + 1,
            final(self).generation() == gen,
            final(self).worktree == old(self).worktree,
            final(self).branches == old(self).branches,
            final(self).stashes == old(self).stashes,
            final(self).selected == old(self).selected,
            final(self).selected_stash == old(self).selected_stash,
            final(self).pane == old(self).pane,
            final(self).load_failed == old(self).load_failed,
            final(self).wc_mutating == old(self).wc_mutating,
            final(self).mutated == old(self).mutated,
            final(self).busy == old(self).busy,
            final(self).busy_hint == old(self).busy_hint,
            final(self).message == old(self).message,
            final(self).force_armed == old(self).force_armed,
    {
        self.load_generation = self.load_generation + 1;
        self.load_generation
    }

    /// A reload finished. A stale one (an older generation) is dropped.
    /// Otherwise a transient message yields to fresh state, the armed
    /// force-push is disarmed, and on success the lists are replaced with
    /// the cursors clamped to them (the branch cursor starts at the
    /// current branch); a failed branch listing is reported instead.
    pub fn refreshed(
        &mut self,
        gen: u64,
        branches: Result<Vec<BranchInfo>, String>,
        stashes: Vec<StashEntry>,
    )
        ensures
            gen != old(self).generation() ==> final(self).branches == old(self).branches
                && final(self).selected == old(self).selected && final(self).message
                == old(self).message,
            gen == old(self).generation() ==> match branches {
                Ok(bs) => {
                    &&& branch_views(final(self).branches@) == branch_views(bs@)
                    &&& stash_views(final(self).stashes@) == stash_views(stashes@)
                    &&& !final(self).load_failed
                    &&& final(self).selected == Some(
                        ({
                            let s = match old(self).selected {
                                Some(s) => s as int,
                                None => current_position(branch_views(bs@)),
                            };
                            let last = if bs@.len() > 0 {
                                bs@.len() - 1
                            } else {
                                0
                            };
                            if s < last {
                                s
                            } else {
                                last
                            }
                        }) as usize,
                    )
                    &&& final(self).selected_stash == (if stashes@.len() == 0 {
                        None
                    } else {
                        Some(
                            ({
                                let s = match old(self).selected_stash {
                                    Some(s) => s as int,
                                    None => 0,
                                };
                                if s < stashes@.len() - 1 {
                                    s
                                } else {
                                    stashes@.len() - 1
                                }
                            }) as usize,
                        )
                    })
                },
                Err(m) => {
                    &&& final(self).load_failed
                    &&& final(self).message == Some(m)
                    &&& final(self).busy_hint
                    &&& final(self).branches == old(self).branches
                },
            },
    {
        if gen != self.load_generation {
            return;
        }
        if self.busy_hint && !self.busy {
            self.message = None;
            self.busy_hint = false;
        }
        self.force_armed = None;
        match branches {
            Ok(bs) => {
                self.load_failed = false;
                let ghost bv = branch_views(bs@);
                let mut current: usize = 0;
                let mut i: usize = 0;
                let mut found = false;
                while i < bs.len() && !found
                    invariant
                        i <= bs.len(),
                        bv == branch_views(bs@),
                        found ==> i < bs.len() && bs@[i as int].is_current && current == i,
                        forall|j: int| 0 <= j < i ==> !bs@[j].is_current,
                        !found ==> current == 0,
                    decreases bs.len() - i + (if found {
                        0int
                    } else {
                        1int
                    }),
                {
                    if bs[i].is_current {
                        current = i;
                        found = true;
                    } else {
                        i += 1;
                    }
                }
                proof {
                    if found {
                        assert(bv[i as int].is_current);
                        let c = choose|c: int|
                            0 <= c < bv.len() && bv[c].is_current && forall|j: int|
                                0 <= j < c ==> !bv[j].is_current;
                        if c < i {
                            assert(!bs@[c].is_current);
                        } else if c > i {
                            assert(!bv[i as int].is_current);
                        }
                    } else {
                        if exists|c: int| 0 <= c < bv.len() && bv[c].is_current {
                            let c = choose|c: int| 0 <= c < bv.len() && bv[c].is_current;
                            assert(!bs@[c].is_current);
                        }
                    }
                }
                let start = match self.selected {
                    Some(s) => s,
                    None => current,
                };
                let last = if bs.len() > 0 {
                    bs.len() - 1
                } else {
                    0
                };
                self.branches = bs;
                self.selected = Some(
                    if start < last {
                        start
                    } else {
                        last
                    },
                );
                let n = stashes.len();
                self.selected_stash = if n == 0 {
                    None
                } else {
                    let s = match self.selected_stash {
                        Some(s) => s,
                        None => 0,
                    };
                    Some(
                        if s < n - 1 {
                            s
                        } else {
                            n - 1
                        },
                    )
                };
                self.stashes = stashes;
            },
            Err(m) => {
                self.load_failed = true;
                self.message = Some(m);
                self.busy_hint = true;
            },
        }
    }

    /// Selects a row of the active list; an index past it clears that
    /// list's cursor.
    pub fn select(&mut self, idx: Option<usize>)
        ensures
            final(self).pane == old(self).pane,
            final(self).branches == old(self).branches,
            final(self).stashes == old(self).stashes,
            old(self).pane == Pane::Branches ==> final(self).selected == (match idx {
                Some(i) if i < old(self).branches@.len() => Some(i),
                _ => None,
            }) && final(self).selected_stash == old(self).selected_stash,
            old(self).pane == Pane::Stashes ==> final(self).selected_stash == (match idx {
                Some(i) if i < old(self).stashes@.len() => Some(i),
                _ => None,
            }) && final(self).selected == old(self).selected,
    {
        match self.pane {
            Pane::Branches => {
                self.selected = match idx {
                    Some(i) if i < self.branches.len() => Some(i),
                    _ => None,
                };
            },
            Pane::Stashes => {
                self.selected_stash = match idx {
                    Some(i) if i < self.stashes.len() => Some(i),
                    _ => None,
                };
            },
        }
    }

    /// The active list's length.
    pub open spec fn active_len(&self) -> nat {
        match self.pane {
            Pane::Branches => self.branches@.len(),
            Pane::Stashes => self.stashes@.len(),
        }
    }

    /// The active pane's cursor position, for scroll reveal.
    pub fn active_selected(&self) -> (r: Option<usize>)
        ensures
            r == match self.pane {
                Pane::Branches => self.selected,
                Pane::Stashes => self.selected_stash,
            },
    {
        match self.pane {
            Pane::Branches => self.selected,
            Pane::Stashes => self.selected_stash,
        }
    }

    /// Moves the active cursor down, staying on the last row (nothing
    /// happens on an empty list; from no cursor, to the first row).
    pub fn select_next(&mut self)
        ensures
            final(self).pane == old(self).pane,
            final(self).branches == old(self).branches,
            final(self).stashes == old(self).stashes,
            old(self).active_len() == 0 ==> final(self).selected == old(self).selected
                && final(self).selected_stash == old(self).selected_stash,
            old(self).active_len() > 0 ==> final(self).active_cursor() == in_list(
                next_cursor(old(self).active_cursor(), old(self).active_len()),
                old(self).active_len(),
            ),
    {
        let len = match self.pane {
            Pane::Branches => self.branches.len(),
            Pane::Stashes => self.stashes.len(),
        };
        if len == 0 {
            return;
        }
        let next = match self.active_selected() {
            None => 0,
            Some(s) => if s >= len - 1 {
                s
            } else {
                s + 1
            },
        };
        self.select(Some(next));
    }

    /// The active cursor.
    pub open spec fn active_cursor(&self) -> Option<usize> {
        match self.pane {
            Pane::Branches => self.selected,
            Pane::Stashes => self.selected_stash,
        }
    }

    /// Moves the active cursor up, staying on the first row.
    pub fn select_prev(&mut self)
        ensures
            final(self).pane == old(self).pane,
            final(self).branches == old(self).branches,
            final(self).stashes == old(self).stashes,
            final(self).active_cursor() == in_list(
                match old(self).active_cursor() {
                    Some(s) if s > 0 => s - 1,
                    _ => 0,
                },
                old(self).active_len(),
            ),
    {
        let prev = match self.active_selected() {
            Some(s) if s > 0 => s - 1,
            _ => 0,
        };
        self.select(Some(prev));
    }

    /// Moves the keyboard selection to the other list (each list keeps
    /// its own cursor; an unset cursor starts at the first row).
    pub fn toggle_pane(&mut self)
        ensures
            final(self).pane == (if old(self).pane == Pane::Branches {
                Pane::Stashes
            } else {
                Pane::Branches
            }),
            final(self).pane == Pane::Branches ==> final(self).selected == (match old(self).selected {
                None => Some(0usize),
                s => s,
            }) && final(self).selected_stash == old(self).selected_stash,
            final(self).pane == Pane::Stashes ==> final(self).selected_stash == (match old(
                self,
            ).selected_stash {
                None => Some(0usize),
                s => s,
            }) && final(self).selected == old(self).selected,
    {
        self.pane = match self.pane {
            Pane::Branches => Pane::Stashes,
            Pane::Stashes => Pane::Branches,
        };
        match self.pane {
            Pane::Branches => {
                if self.selected.is_none() {
                    self.selected = Some(0);
                }
            },
            Pane::Stashes => {
                if self.selected_stash.is_none() {
                    self.selected_stash = Some(0);
                }
            },
        }
    }

    /// The selected branch, if the cursor names one.
    pub fn selected_branch(&self) -> (b: Option<&BranchInfo>)
        ensures
            match self.selected {
                Some(i) if i < self.branches@.len() => b == Some(&self.branches@[i as int]),
                _ => b is None,
            },
    {
        match self.selected {
            Some(i) => if i < self.branches.len() {
                Some(&self.branches[i])
            } else {
                None
            },
            None => None,
        }
    }

    /// The selected stash entry, if the cursor names one.
    pub fn selected_stash_entry(&self) -> (e: Option<&StashEntry>)
        ensures
            match self.selected_stash {
                Some(i) if i < self.stashes@.len() => e == Some(&self.stashes@[i as int]),
                _ => e is None,
            },
    {
        match self.selected_stash {
            Some(i) => if i < self.stashes.len() {
                Some(&self.stashes[i])
            } else {
                None
            },
            None => None,
        }
    }

    /// Marks the message as transient: the next completed refresh
    /// clears it.
    pub fn note_transient_hint(&mut self)
        ensures
            final(self).busy_hint,
            final(self).message == old(self).message,
            final(self).same_lists(old(self)),
            final(self).force_armed == old(self).force_armed,
            final(self).busy == old(self).busy,
    {
        self.busy_hint = true;
    }

    /// The refusal for a key pressed while an action runs.
    pub fn busy_message(&mut self)
        ensures
            final(self).message matches Some(m) && m@ == busy_text(),
            final(self).busy_hint,
            final(self).same_lists(old(self)),
            final(self).force_armed == old(self).force_armed,
            final(self).busy == old(self).busy,
    {
        self.message = Some(String::from_str("Busy — wait for the current operation"));
        self.note_transient_hint();
    }

    /// Shared pre-flight of the mutating actions: refused (with the
    /// message set) while this section's action runs or another section
    /// is changing the worktree.
    pub fn ready_for_action(&mut self) -> (ok: bool)
        ensures
            ok == (!old(self).busy && !old(self).wc_mutating),
            old(self).busy ==> (final(self).message matches Some(m) && m@ == busy_text()),
            !old(self).busy && old(self).wc_mutating ==> (final(self).message matches Some(m) && m@
                == other_section_busy_text()),
            ok ==> final(self).message == old(self).message && final(self).busy_hint == old(
                self,
            ).busy_hint,
            !ok ==> final(self).busy_hint,
            final(self).same_lists(old(self)),
            final(self).force_armed == old(self).force_armed,
            final(self).busy == old(self).busy,
    {
        if self.busy {
            self.busy_message();
            return false;
        }
        if self.wc_mutating {
            self.message = Some(String::from_str("Busy — another section is changing this worktree"));
            self.note_transient_hint();
            return false;
        }
        true
    }

    /// The selected row when it is a local branch, for actions that
    /// cannot target a remote-tracking ref; otherwise the refusal is
    /// explained in the message.
    pub fn selected_local_branch(&mut self, action: &str) -> (b: Option<BranchInfo>)
        ensures
            final(self).same_lists(old(self)),
            final(self).force_armed == old(self).force_armed,
            final(self).busy == old(self).busy,
            b is None ==> final(self).busy_hint,
            b is Some ==> final(self).message == old(self).message && final(self).busy_hint == old(
                self,
            ).busy_hint,
            match old(self).selected {
                Some(i) if i < old(self).branches@.len() => {
                    let sel = old(self).branches@[i as int];
                    if sel.is_remote {
                        b is None && (final(self).message matches Some(m) && m@ == action@
                            + " needs a local branch — '"@ + sel.short@ + "' is remote-tracking"@)
                    } else {
                        b matches Some(x) && x@ == sel@
                    }
                },
                _ => b is None && (final(self).message matches Some(m) && m@
                    == nothing_selected_text()),
            },
    {
        let branch = match self.selected_branch() {
            Some(b) => copy_branch(b),
            None => {
                self.message = Some(String::from_str("Nothing selected"));
                self.note_transient_hint();
                return None;
            },
        };
        if branch.is_remote {
            let mut m = String::from_str(action);
            m.append(" needs a local branch — '");
            m.append(branch.short.as_str());
            m.append("' is remote-tracking");
            self.message = Some(m);
            self.note_transient_hint();
            return None;
        }
        Some(branch)
    }
}

/// A git operation the section asks its caller to run in the background;
/// the caller reports back through `BranchStore::finished`.
pub enum BranchAction {
    Switch { name: String },
    Create { name: String },
    Rename { old: String, new_name: String },
    /// `current` is the checked-out branch's name ("" when none).
    Delete { name: String, current: String },
    Merge { name: String },
    Rebase { onto: String },
    /// Stash push, then a stash listing; `before` is the entry count
    /// when the push started.
    StashPush { before: usize },
    /// `stash pop` (drop_after) or `stash apply` of one entry.
    StashApply { index: usize, drop_after: bool, display_ref: String },
    StashDrop { index: usize, display_ref: String },
    Fetch,
    Push { branch: String },
    ForcePush { branch: String },
    Pull,
}

/// What a successful run of a `BranchAction` reported.
pub enum ActionReply {
    Done,
    /// A merge or rebase paused on these conflicted files.
    Conflicts(Vec<String>),
    /// The number of stash entries after a stash push.
    StashCount(usize),
}

pub open spec fn conflicts_of(r: ActionReply) -> Seq<Seq<char>> {
    match r {
        ActionReply::Conflicts(v) => arg_views(v@),
        _ => seq![],
    }
}

/// The stash push changed nothing (`git stash push` succeeds on a clean
/// tree without adding an entry).
pub open spec fn stash_unchanged(before: usize, r: ActionReply) -> bool {
    r matches ActionReply::StashCount(n) && n == before
}

/// The message after a successful run.
pub open spec fn done_message(a: BranchAction, r: ActionReply) -> Seq<char> {
    match a {
        BranchAction::Switch { name } => "Switched to "@ + name@,
        BranchAction::Create { name } => "Created "@ + name@,
        BranchAction::Rename { new_name, .. } => "Renamed to "@ + new_name@,
        BranchAction::Delete { name, .. } => "Deleted "@ + name@,
        BranchAction::Merge { name } => if conflicts_of(r).len() == 0 {
            "Merged "@ + name@
        } else {
            "Merge conflicts in "@ + join(conflicts_of(r), ", "@)
                + " — resolve in the Working Copy section, then g to continue (A aborts)"@
        },
        BranchAction::Rebase { onto } => if conflicts_of(r).len() == 0 {
            "Rebased onto "@ + onto@
        } else {
            "Rebase onto "@ + onto@
                + " paused on conflicts — resolve in the Working Copy section, then g (A aborts)"@
        },
        BranchAction::StashPush { before } => if stash_unchanged(before, r) {
            "Nothing to stash — working copy is clean"@
        } else {
            "Stashed working copy"@
        },
        BranchAction::StashApply { display_ref, .. } => "Applied "@ + display_ref@,
        BranchAction::StashDrop { display_ref, .. } => "Dropped "@ + display_ref@,
        BranchAction::Fetch => "Fetched"@,
        BranchAction::Push { branch } => "Pushed "@ + branch@,
        BranchAction::ForcePush { branch } => "Force-pushed "@ + branch@,
        BranchAction::Pull => "Pulled"@,
    }
}

/// The message after a failed run: git's error, with a pointer to
/// conflict resolution for a stash apply (its unmerged paths resolve like
/// any conflict).
pub open spec fn failed_message(a: BranchAction, e: Seq<char>) -> Seq<char> {
    match a {
        BranchAction::StashApply { .. } => e + " — resolve in the Working Copy section"@,
        _ => e,
    }
}

/// A successful run changed the worktree's files (the other sections must
/// re-read them).
pub open spec fn done_mutates(a: BranchAction, r: ActionReply) -> bool {
    match a {
        BranchAction::Switch { .. } | BranchAction::Merge { .. } | BranchAction::Rebase { .. }
        | BranchAction::StashApply { .. } | BranchAction::Pull => true,
        BranchAction::StashPush { before } => !stash_unchanged(before, r),
        _ => false,
    }
}

/// Whether the message stays transient after a successful run.
pub open spec fn done_hint(a: BranchAction, r: ActionReply, hint: bool) -> bool {
    match a {
        BranchAction::Rebase { .. } => conflicts_of(r).len() != 0,
        BranchAction::StashPush { before } => if stash_unchanged(before, r) {
            hint
        } else {
            false
        },
        _ => false,
    }
}

/// The first branch that is checked out and local.
pub open spec fn is_current_local(b: BranchView) -> bool {
    b.is_current && !b.is_remote
}

/// The checked-out local branch's name, if any.
pub open spec fn current_local(bs: Seq<BranchView>) -> Option<Seq<char>>
    decreases bs.len(),
{
    if bs.len() == 0 {
        None
    } else if is_current_local(bs[0]) {
        Some(bs[0].short)
    } else {
        current_local(bs.drop_first())
    }
}

/// The checked-out branch's name, "" when none is marked current.
pub open spec fn current_name(bs: Seq<BranchView>) -> Seq<char>
    decreases bs.len(),
{
    if bs.len() == 0 {
        seq![]
    } else if bs[0].is_current {
        bs[0].short
    } else {
        current_name(bs.drop_first())
    }
}

pub open spec fn no_current_text() -> Seq<char> {
    "No current branch to push (detached HEAD?)"@
}

pub open spec fn stash_ref_text(index: usize) -> Seq<char> {
    "stash@{"@ + decimal(index as nat) + "}"@
}

impl BranchStore {
    /// The message is `text`.
    pub open spec fn says(&self, text: Seq<char>) -> bool {
        self.message matches Some(m) && m@ == text
    }

    /// Neither this section nor another one is changing the worktree.
    pub open spec fn ready(&self) -> bool {
        !self.busy && !self.wc_mutating
    }

    /// Why an action is refused when the store is not ready.
    pub open spec fn refusal(&self) -> Seq<char> {
        if self.busy {
            busy_text()
        } else {
            other_section_busy_text()
        }
    }

    /// The selected branch.
    pub open spec fn selected_view(&self) -> Option<BranchView> {
        match self.selected {
            Some(i) if i < self.branches@.len() => Some(self.branches@[i as int]@),
            _ => None,
        }
    }

    /// The selected stash entry.
    pub open spec fn selected_stash_view(&self) -> Option<StashView> {
        match self.selected_stash {
            Some(i) if i < self.stashes@.len() => Some(self.stashes@[i as int]@),
            _ => None,
        }
    }

    /// Everything but the message, the hints, the busy flag and the
    /// force-push arming is as in `other`.
    pub open spec fn same_lists(&self, other: &Self) -> bool {
        &&& self.worktree == other.worktree
        &&& self.branches == other.branches
        &&& self.stashes == other.stashes
        &&& self.selected == other.selected
        &&& self.selected_stash == other.selected_stash
        &&& self.pane == other.pane
        &&& self.load_failed == other.load_failed
        &&& self.wc_mutating == other.wc_mutating
        &&& self.mutated == other.mutated
        &&& self.load_generation == other.load_generation
    }

    /// An action was refused with `text`: nothing starts.
    pub open spec fn refused_with(&self, before: &Self, text: Seq<char>) -> bool {
        &&& self.says(text)
        &&& self.busy_hint
        &&& self.busy == before.busy
    }

    /// An action started, announced by `text`.
    pub open spec fn started_with(&self, text: Seq<char>) -> bool {
        &&& self.says(text)
        &&& self.busy_hint
        &&& self.busy
    }

    /// Sets a transient message.
    fn say(&mut self, text: String)
        ensures
            final(self).says(text@),
            final(self).busy_hint,
            final(self).busy == old(self).busy,
            final(self).same_lists(old(self)),
            final(self).force_armed == old(self).force_armed,
    {
        self.message = Some(text);
        self.busy_hint = true;
    }

    /// Marks an action as running, announced by `text`.
    fn start(&mut self, text: String)
        ensures
            final(self).started_with(text@),
            final(self).same_lists(old(self)),
            final(self).force_armed == old(self).force_armed,
    {
        self.busy = true;
        self.say(text);
    }

    /// The checked-out local branch's name.
    fn find_current_local(&self) -> (r: Option<String>)
        ensures
            match current_local(branch_views(self.branches@)) {
                Some(n) => r matches Some(x) && x@ == n,
                None => r is None,
            },
    {
        let ghost bv = branch_views(self.branches@);
        let mut i: usize = 0;
        proof {
            assert(bv.skip(0) =~= bv);
        }
        while i < self.branches.len()
            invariant
                i <= self.branches@.len(),
                bv == branch_views(self.branches@),
                current_local(bv) == current_local(bv.skip(i as int)),
            decreases self.branches@.len() - i,
        {
            proof {
                assert(bv.skip(i as int)[0] == bv[i as int]);
                assert(bv.skip(i as int).drop_first() =~= bv.skip(i + 1));
            }
            if self.branches[i].is_current && !self.branches[i].is_remote {
                return Some(self.branches[i].short.clone());
            }
            i += 1;
        }
        proof {
            assert(bv.skip(i as int).len() == 0);
        }
        None
    }

    /// The checked-out branch's name, "" when none.
    fn find_current_name(&self) -> (r: String)
        ensures
            r@ == current_name(branch_views(self.branches@)),
    {
        let ghost bv = branch_views(self.branches@);
        let mut i: usize = 0;
        proof {
            assert(bv.skip(0) =~= bv);
        }
        while i < self.branches.len()
            invariant
                i <= self.branches@.len(),
                bv == branch_views(self.branches@),
                current_name(bv) == current_name(bv.skip(i as int)),
            decreases self.branches@.len() - i,
        {
            proof {
                assert(bv.skip(i as int)[0] == bv[i as int]);
                assert(bv.skip(i as int).drop_first() =~= bv.skip(i + 1));
            }
            if self.branches[i].is_current {
                return self.branches[i].short.clone();
            }
            i += 1;
        }
        proof {
            assert(bv.skip(i as int).len() == 0);
        }
        String::new()
    }

    /// Starts switching to the selected local branch. Unconflicted local
    /// changes carry over; git refuses a switch that would overwrite one.
    pub fn switch(&mut self) -> (act: Option<BranchAction>)
        ensures
            final(self).same_lists(old(self)),
            final(self).force_armed == old(self).force_armed,
            !old(self).ready() ==> act is None && final(self).refused_with(
                old(self),
                old(self).refusal(),
            ),
            old(self).ready() ==> match old(self).selected_view() {
                None => act is None && final(self).refused_with(old(self), nothing_selected_text()),
                Some(b) => if b.is_remote {
                    act is None && final(self).refused_with(
                        old(self),
                        "Switch"@ + " needs a local branch — '"@ + b.short + "' is remote-tracking"@,
                    )
                } else if b.is_current {
                    act is None && final(self).refused_with(old(self), "Already on this branch"@)
                } else {
                    &&& act matches Some(BranchAction::Switch { name }) && name@ == b.short
                    &&& final(self).started_with("Switching to "@ + b.short + "…"@)
                },
            },
    {
        if !self.ready_for_action() {
            return None;
        }
        let branch = match self.selected_local_branch("Switch") {
            Some(b) => b,
            None => return None,
        };
        if branch.is_current {
            self.say(String::from_str("Already on this branch"));
            return None;
        }
        let mut m = String::from_str("Switching to ");
        m.append(branch.short.as_str());
        m.append("…");
        self.start(m);
        Some(BranchAction::Switch { name: branch.short })
    }

    /// Starts creating a branch at the current HEAD (no switch).
    pub fn create_branch(&mut self, name: &str) -> (act: Option<BranchAction>)
        ensures
            final(self).same_lists(old(self)),
            final(self).force_armed == old(self).force_armed,
            !old(self).ready() ==> act is None && final(self).refused_with(
                old(self),
                old(self).refusal(),
            ),
            old(self).ready() ==> {
                &&& act matches Some(BranchAction::Create { name: n }) && n@ == name@
                &&& final(self).started_with("Creating "@ + name@ + "…"@)
            },
    {
        if !self.ready_for_action() {
            return None;
        }
        let mut m = String::from_str("Creating ");
        m.append(name);
        m.append("…");
        self.start(m);
        Some(BranchAction::Create { name: String::from_str(name) })
    }

    /// Starts renaming the selected local branch.
    pub fn rename_branch(&mut self, new_name: &str) -> (act: Option<BranchAction>)
        ensures
            final(self).same_lists(old(self)),
            final(self).force_armed == old(self).force_armed,
            !old(self).ready() ==> act is None && final(self).refused_with(
                old(self),
                old(self).refusal(),
            ),
            old(self).ready() ==> match old(self).selected_view() {
                None => act is None && final(self).refused_with(old(self), nothing_selected_text()),
                Some(b) => if b.is_remote {
                    act is None && final(self).refused_with(
                        old(self),
                        "Rename"@ + " needs a local branch — '"@ + b.short + "' is remote-tracking"@,
                    )
                } else {
                    &&& act matches Some(BranchAction::Rename { old: o, new_name: n }) && o@
                        == b.short && n@ == new_name@
                    &&& final(self).started_with(
                        "Renaming "@ + b.short + " to "@ + new_name@ + "…"@,
                    )
                },
            },
    {
        if !self.ready_for_action() {
            return None;
        }
        let branch = match self.selected_local_branch("Rename") {
            Some(b) => b,
            None => return None,
        };
        let mut m = String::from_str("Renaming ");
        m.append(branch.short.as_str());
        m.append(" to ");
        m.append(new_name);
        m.append("…");
        self.start(m);
        Some(BranchAction::Rename { old: branch.short, new_name: String::from_str(new_name) })
    }

    /// Starts deleting the selected local branch (git refuses the current
    /// one). A remote-tracking or missing selection is refused as
    /// "Nothing selected".
    pub fn delete_branch(&mut self) -> (act: Option<BranchAction>)
        ensures
            final(self).same_lists(old(self)),
            final(self).force_armed == old(self).force_armed,
            !old(self).ready() ==> act is None && final(self).refused_with(
                old(self),
                old(self).refusal(),
            ),
            old(self).ready() ==> match old(self).selected_view() {
                Some(b) if !b.is_remote => {
                    &&& act matches Some(BranchAction::Delete { name, current }) && name@
                        == b.short && current@ == current_name(branch_views(old(self).branches@))
                    &&& final(self).started_with("Deleting "@ + b.short + "…"@)
                },
                _ => act is None && final(self).refused_with(old(self), nothing_selected_text()),
            },
    {
        if !self.ready_for_action() {
            return None;
        }
        let current = self.find_current_name();
        let branch = match self.selected_local_branch("Delete") {
            Some(b) => b,
            None => {
                self.say(String::from_str("Nothing selected"));
                return None;
            },
        };
        let mut m = String::from_str("Deleting ");
        m.append(branch.short.as_str());
        m.append("…");
        self.start(m);
        Some(BranchAction::Delete { name: branch.short, current })
    }

    /// Starts merging the selected branch into the current one.
    pub fn merge(&mut self) -> (act: Option<BranchAction>)
        ensures
            final(self).same_lists(old(self)),
            final(self).force_armed == old(self).force_armed,
            !old(self).ready() ==> act is None && final(self).refused_with(
                old(self),
                old(self).refusal(),
            ),
            old(self).ready() ==> match old(self).selected_view() {
                None => act is None && final(self).refused_with(old(self), nothing_selected_text()),
                Some(b) => if b.is_current {
                    act is None && final(self).refused_with(
                        old(self),
                        "Cannot merge a branch into itself"@,
                    )
                } else {
                    &&& act matches Some(BranchAction::Merge { name }) && name@ == b.short
                    &&& final(self).started_with("Merging "@ + b.short + "…"@)
                },
            },
    {
        if !self.ready_for_action() {
            return None;
        }
        let short = match self.selected_branch() {
            None => {
                self.say(String::from_str("Nothing selected"));
                return None;
            },
            Some(b) => {
                if b.is_current {
                    self.say(String::from_str("Cannot merge a branch into itself"));
                    return None;
                }
                b.short.clone()
            },
        };
        let mut m = String::from_str("Merging ");
        m.append(short.as_str());
        m.append("…");
        self.start(m);
        Some(BranchAction::Merge { name: short })
    }

    /// Starts rebasing the current branch onto the selected one.
    pub fn rebase_onto(&mut self) -> (act: Option<BranchAction>)
        ensures
            final(self).same_lists(old(self)),
            final(self).force_armed == old(self).force_armed,
            !old(self).ready() ==> act is None && final(self).refused_with(
                old(self),
                old(self).refusal(),
            ),
            old(self).ready() ==> match old(self).selected_view() {
                None => act is None && final(self).refused_with(old(self), nothing_selected_text()),
                Some(b) => if b.is_current {
                    act is None && final(self).refused_with(
                        old(self),
                        "Cannot rebase onto the current branch"@,
                    )
                } else {
                    &&& act matches Some(BranchAction::Rebase { onto }) && onto@ == b.short
                    &&& final(self).started_with("Rebasing onto "@ + b.short + "…"@)
                },
            },
    {
        if !self.ready_for_action() {
            return None;
        }
        let short = match self.selected_branch() {
            None => {
                self.say(String::from_str("Nothing selected"));
                return None;
            },
            Some(b) => {
                if b.is_current {
                    self.say(String::from_str("Cannot rebase onto the current branch"));
                    return None;
                }
                b.short.clone()
            },
        };
        let mut m = String::from_str("Rebasing onto ");
        m.append(short.as_str());
        m.append("…");
        self.start(m);
        Some(BranchAction::Rebase { onto: short })
    }

    /// Starts stashing the working copy's changes (tracked and untracked).
    pub fn stash_push(&mut self) -> (act: Option<BranchAction>)
        ensures
            final(self).same_lists(old(self)),
            final(self).force_armed == old(self).force_armed,
            !old(self).ready() ==> act is None && final(self).refused_with(
                old(self),
                old(self).refusal(),
            ),
            old(self).ready() ==> {
                &&& act == Some(BranchAction::StashPush { before: old(self).stashes@.len() as usize })
                &&& final(self).started_with("Stashing changes…"@)
            },
    {
        if !self.ready_for_action() {
            return None;
        }
        let before = self.stashes.len();
        self.start(String::from_str("Stashing changes…"));
        Some(BranchAction::StashPush { before })
    }

    /// Starts applying the selected stash and dropping it.
    pub fn stash_pop(&mut self) -> (act: Option<BranchAction>)
        ensures
            final(self).same_lists(old(self)),
            final(self).force_armed == old(self).force_armed,
            old(self).applies(true, final(self), act),
    {
        self.stash_apply_impl(true)
    }

    /// Starts applying the selected stash, keeping the entry.
    pub fn stash_apply(&mut self) -> (act: Option<BranchAction>)
        ensures
            final(self).same_lists(old(self)),
            final(self).force_armed == old(self).force_armed,
            old(self).applies(false, final(self), act),
    {
        self.stash_apply_impl(false)
    }

    /// What starting a stash apply (pop when `drop_after`) does.
    pub open spec fn applies(&self, drop_after: bool, after: &Self, act: Option<BranchAction>) -> bool {
        &&& !self.ready() ==> act is None && after.refused_with(self, self.refusal())
        &&& self.ready() ==> match self.selected_stash_view() {
            None => act is None && after.refused_with(self, "No stash selected"@),
            Some(e) => {
                &&& act matches Some(BranchAction::StashApply { index, drop_after: d, display_ref })
                    && index == e.index && d == drop_after && display_ref@ == e.ref_name
                &&& after.started_with(
                    (if drop_after {
                        "Popping "@
                    } else {
                        "Applying "@
                    }) + stash_ref_text(e.index) + "…"@,
                )
            },
        }
    }

    fn stash_apply_impl(&mut self, drop_after: bool) -> (act: Option<BranchAction>)
        ensures
            final(self).same_lists(old(self)),
            final(self).force_armed == old(self).force_armed,
            old(self).applies(drop_after, final(self), act),
    {
        if !self.ready_for_action() {
            return None;
        }
        let (index, display_ref) = match self.selected_stash_entry() {
            Some(e) => (e.index, e.ref_name.clone()),
            None => {
                self.say(String::from_str("No stash selected"));
                return None;
            },
        };
        let mut m = if drop_after {
            String::from_str("Popping ")
        } else {
            String::from_str("Applying ")
        };
        m.append("stash@{");
        m.append(u64_to_string(index as u64).as_str());
        m.append("}…");
        proof {
            assert(m@ =~= (if drop_after {
                "Popping "@
            } else {
                "Applying "@
            }) + stash_ref_text(index) + "…"@) by {
                reveal_strlit("}…");
                reveal_strlit("}");
                reveal_strlit("…");
            }
        }
        self.start(m);
        Some(BranchAction::StashApply { index, drop_after, display_ref })
    }

    /// Starts dropping the selected stash entry (the working copy is
    /// untouched; the entry is gone for good).
    pub fn stash_drop(&mut self) -> (act: Option<BranchAction>)
        ensures
            final(self).same_lists(old(self)),
            final(self).force_armed == old(self).force_armed,
            !old(self).ready() ==> act is None && final(self).refused_with(
                old(self),
                old(self).refusal(),
            ),
            old(self).ready() ==> match old(self).selected_stash_view() {
                None => act is None && final(self).refused_with(old(self), nothing_selected_text()),
                Some(e) => {
                    &&& act matches Some(BranchAction::StashDrop { index, display_ref }) && index
                        == e.index && display_ref@ == e.ref_name
                    &&& final(self).started_with("Dropping "@ + stash_ref_text(e.index) + "…"@)
                },
            },
    {
        if !self.ready_for_action() {
            return None;
        }
        let (index, display_ref) = match self.selected_stash_entry() {
            Some(e) => (e.index, e.ref_name.clone()),
            None => {
                self.say(String::from_str("Nothing selected"));
                return None;
            },
        };
        let mut m = String::from_str("Dropping stash@{");
        m.append(u64_to_string(index as u64).as_str());
        m.append("}…");
        proof {
            assert(m@ =~= "Dropping "@ + stash_ref_text(index) + "…"@) by {
                reveal_strlit("Dropping stash@{");
                reveal_strlit("Dropping ");
                reveal_strlit("stash@{");
                reveal_strlit("}…");
                reveal_strlit("}");
                reveal_strlit("…");
            }
        }
        self.start(m);
        Some(BranchAction::StashDrop { index, display_ref })
    }

    /// Starts fetching all remotes (with prune).
    pub fn fetch_remotes(&mut self) -> (act: Option<BranchAction>)
        ensures
            final(self).same_lists(old(self)),
            final(self).force_armed == old(self).force_armed,
            !old(self).ready() ==> act is None && final(self).refused_with(
                old(self),
                old(self).refusal(),
            ),
            old(self).ready() ==> act == Some(BranchAction::Fetch) && final(self).started_with(
                "Fetching…"@,
            ),
    {
        if !self.ready_for_action() {
            return None;
        }
        self.start(String::from_str("Fetching…"));
        Some(BranchAction::Fetch)
    }

    /// Starts pulling the current branch's upstream (fast-forward only).
    pub fn pull_current(&mut self) -> (act: Option<BranchAction>)
        ensures
            final(self).same_lists(old(self)),
            final(self).force_armed == old(self).force_armed,
            !old(self).ready() ==> act is None && final(self).refused_with(
                old(self),
                old(self).refusal(),
            ),
            old(self).ready() ==> act == Some(BranchAction::Pull) && final(self).started_with(
                "Pulling…"@,
            ),
    {
        if !self.ready_for_action() {
            return None;
        }
        self.start(String::from_str("Pulling…"));
        Some(BranchAction::Pull)
    }

    /// Starts pushing the checked-out local branch to its upstream's
    /// remote (setting the upstream).
    pub fn push_current(&mut self) -> (act: Option<BranchAction>)
        ensures
            final(self).same_lists(old(self)),
            final(self).force_armed == old(self).force_armed,
            !old(self).ready() ==> act is None && final(self).refused_with(
                old(self),
                old(self).refusal(),
            ),
            old(self).ready() ==> match current_local(branch_views(old(self).branches@)) {
                None => act is None && final(self).refused_with(old(self), no_current_text()),
                Some(c) => {
                    &&& act matches Some(BranchAction::Push { branch }) && branch@ == c
                    &&& final(self).started_with("Pushing "@ + c + "…"@)
                },
            },
    {
        if !self.ready_for_action() {
            return None;
        }
        let current = match self.find_current_local() {
            Some(c) => c,
            None => {
                self.say(String::from_str("No current branch to push (detached HEAD?)"));
                return None;
            },
        };
        let mut m = String::from_str("Pushing ");
        m.append(current.as_str());
        m.append("…");
        self.start(m);
        Some(BranchAction::Push { branch: current })
    }

    /// Force-pushes the checked-out branch with lease, in two presses: the
    /// first arms and asks for confirmation, the second on the same branch
    /// starts the push.
    pub fn force_push_current(&mut self) -> (act: Option<BranchAction>)
        ensures
            final(self).same_lists(old(self)),
            !old(self).ready() ==> act is None && final(self).refused_with(
                old(self),
                old(self).refusal(),
            ) && final(self).force_armed == old(self).force_armed,
            old(self).ready() ==> match current_local(branch_views(old(self).branches@)) {
                None => act is None && final(self).refused_with(old(self), no_current_text())
                    && final(self).force_armed == old(self).force_armed,
                Some(c) => if old(self).force_armed matches Some(a) && a@ == c {
                    &&& act matches Some(BranchAction::ForcePush { branch }) && branch@ == c
                    &&& final(self).force_armed is None
                    &&& final(self).started_with("Force-pushing "@ + c + "…"@)
                } else {
                    &&& act is None
                    &&& final(self).force_armed matches Some(a) && a@ == c
                    &&& final(self).refused_with(
                        old(self),
                        "Force-push "@ + c + " (with lease)? Press F again to confirm"@,
                    )
                },
            },
    {
        if !self.ready_for_action() {
            return None;
        }
        let current = match self.find_current_local() {
            Some(c) => c,
            None => {
                self.say(String::from_str("No current branch to push (detached HEAD?)"));
                return None;
            },
        };
        let armed = match &self.force_armed {
            Some(a) => a.eq(&current),
            None => false,
        };
        if !armed {
            let mut m = String::from_str("Force-push ");
            m.append(current.as_str());
            m.append(" (with lease)? Press F again to confirm");
            self.force_armed = Some(current);
            self.say(m);
            return None;
        }
        self.force_armed = None;
        let mut m = String::from_str("Force-pushing ");
        m.append(current.as_str());
        m.append("…");
        self.start(m);
        Some(BranchAction::ForcePush { branch: current })
    }

    /// The selected branch's full ref name, for the clipboard; the message
    /// confirms the copy.
    pub fn copy_name(&mut self) -> (name: Option<String>)
        ensures
            final(self).same_lists(old(self)),
            final(self).force_armed == old(self).force_armed,
            final(self).busy == old(self).busy,
            final(self).busy_hint,
            match old(self).selected_view() {
                None => name is None && final(self).says(nothing_selected_text()),
                Some(b) => name matches Some(n) && n@ == b.ref_name && final(self).says(
                    "Copied "@ + b.ref_name,
                ),
            },
    {
        let name = match self.selected_branch() {
            Some(b) => b.ref_name.clone(),
            None => {
                self.say(String::from_str("Nothing selected"));
                return None;
            },
        };
        let mut m = String::from_str("Copied ");
        m.append(name.as_str());
        self.say(m);
        Some(name)
    }

    /// The caller finished running `action`. The section is idle again;
    /// the message reports the outcome; a run that changed the worktree's
    /// files is flagged for the other sections; and a reload starts (its
    /// generation returned) after every success and after a failed stash
    /// apply, whose unmerged paths are now in the worktree.
    pub fn finished(&mut self, action: &BranchAction, result: Result<ActionReply, String>) -> (gen:
        Option<u64>)
        requires
            old(self).generation() < u64::MAX,
        ensures
            !final(self).busy,
            final(self).worktree == old(self).worktree,
            final(self).branches == old(self).branches,
            final(self).stashes == old(self).stashes,
            final(self).selected == old(self).selected,
            final(self).selected_stash == old(self).selected_stash,
            final(self).pane == old(self).pane,
            final(self).load_failed == old(self).load_failed,
            final(self).wc_mutating == old(self).wc_mutating,
            final(self).force_armed == old(self).force_armed,
            match result {
                Ok(r) => {
                    &&& final(self).says(done_message(*action, r))
                    &&& final(self).busy_hint == done_hint(*action, r, old(self).busy_hint)
                    &&& final(self).mutated == (old(self).mutated || done_mutates(*action, r))
                    &&& gen == Some((old(self).generation() + 1) as u64)
                },
                Err(e) => {
                    &&& final(self).says(failed_message(*action, e@))
                    &&& final(self).busy_hint
                    &&& final(self).mutated == old(self).mutated
                    &&& gen == (if action is StashApply {
                        Some((old(self).generation() + 1) as u64)
                    } else {
                        None
                    })
                },
            },
            final(self).generation() == match gen {
                Some(g) => g,
                None => old(self).generation(),
            },
    {
        self.busy = false;
        match result {
            Ok(r) => {
                let (text, mutates, hint) = Self::done_outcome(action, &r, self.busy_hint);
                self.message = Some(text);
                self.busy_hint = hint;
                if mutates {
                    self.mutated = true;
                }
                Some(self.refresh())
            },
            Err(e) => {
                let is_apply = match action {
                    BranchAction::StashApply { .. } => true,
                    _ => false,
                };
                let mut text = e;
                if is_apply {
                    text.append(" — resolve in the Working Copy section");
                }
                self.message = Some(text);
                self.busy_hint = true;
                if is_apply {
                    Some(self.refresh())
                } else {
                    None
                }
            },
        }
    }

    fn done_outcome(action: &BranchAction, r: &ActionReply, hint: bool) -> (o: (String, bool, bool))
        ensures
            o.0@ == done_message(*action, *r),
            o.1 == done_mutates(*action, *r),
            o.2 == done_hint(*action, *r, hint),
    {
        let no_conflicts = match r {
            ActionReply::Conflicts(v) => v.len() == 0,
            _ => true,
        };
        proof {
            assert(no_conflicts == (conflicts_of(*r).len() == 0));
        }
        match action {
            BranchAction::Switch { name } => (Self::text2("Switched to ", name), true, false),
            BranchAction::Create { name } => (Self::text2("Created ", name), false, false),
            BranchAction::Rename { new_name, .. } => (Self::text2("Renamed to ", new_name), false, false),
            BranchAction::Delete { name, .. } => (Self::text2("Deleted ", name), false, false),
            BranchAction::Merge { name } => {
                if no_conflicts {
                    (Self::text2("Merged ", name), true, false)
                } else {
                    let files = match r {
                        ActionReply::Conflicts(v) => join_strings(v, ", "),
                        _ => String::new(),
                    };
                    let mut m = String::from_str("Merge conflicts in ");
                    m.append(files.as_str());
                    m.append(" — resolve in the Working Copy section, then g to continue (A aborts)");
                    (m, true, false)
                }
            },
            BranchAction::Rebase { onto } => {
                if no_conflicts {
                    (Self::text2("Rebased onto ", onto), true, false)
                } else {
                    let mut m = String::from_str("Rebase onto ");
                    m.append(onto.as_str());
                    m.append(" paused on conflicts — resolve in the Working Copy section, then g (A aborts)");
                    (m, true, true)
                }
            },
            BranchAction::StashPush { before } => {
                let unchanged = match r {
                    ActionReply::StashCount(n) => *n == *before,
                    _ => false,
                };
                if unchanged {
                    (String::from_str("Nothing to stash — working copy is clean"), false, hint)
                } else {
                    (String::from_str("Stashed working copy"), true, false)
                }
            },
            BranchAction::StashApply { display_ref, .. } => (Self::text2("Applied ", display_ref), true, false),
            BranchAction::StashDrop { display_ref, .. } => (Self::text2("Dropped ", display_ref), false, false),
            BranchAction::Fetch => (String::from_str("Fetched"), false, false),
            BranchAction::Push { branch } => (Self::text2("Pushed ", branch), false, false),
            BranchAction::ForcePush { branch } => (Self::text2("Force-pushed ", branch), false, false),
            BranchAction::Pull => (String::from_str("Pulled"), true, false),
        }
    }

    fn text2(head: &str, tail: &String) -> (s: String)
        ensures
            s@ == head@ + tail@,
    {
        let mut s = String::from_str(head);
        s.append(tail.as_str());
        s
    }
}

} // verus!

//! What the Branches section shows: the header of the checked-out
//! branch, the pane titles and key hints, and the rows of the active
//! list (branches with a current marker, or stashes).

use crate::branch_store::{stash_ref_text, BranchStore, Pane};
use crate::engine::branches::{branch_views, BranchInfo, BranchView};
use crate::engine::stash::StashEntry;
use crate::text::{decimal, u64_to_string};
use crate::views::badges::{arrows, arrows_of};
use vstd::prelude::*;

verus! {

/// The first branch marked current.
pub open spec fn first_current(bs: Seq<BranchView>) -> Option<BranchView>
    decreases bs.len(),
{
    if bs.len() == 0 {
        None
    } else if bs[0].is_current {
        Some(bs[0])
    } else {
        first_current(bs.drop_first())
    }
}

/// The section header: the current branch and its divergence from
/// upstream, "(no branch)" when none is current.
pub open spec fn header_of(bs: Seq<BranchView>) -> Seq<char> {
    match first_current(bs) {
        Some(b) => b.short + " "@ + arrows_of(b.ahead, b.behind),
        None => "(no branch) "@,
    }
}

pub open spec fn count_text(n: nat) -> Seq<char> {
    "("@ + decimal(n) + ")"@
}

/// The header of the active list and the hint to reach the other one.
pub open spec fn pane_titles_of(pane: Pane, branches: nat, stashes: nat) -> (Seq<char>, Seq<char>) {
    match pane {
        Pane::Branches => ("BRANCHES "@ + count_text(branches), "tab → stashes "@ + count_text(
            stashes,
        )),
        Pane::Stashes => ("STASHES "@ + count_text(stashes), "tab → branches "@ + count_text(
            branches,
        )),
    }
}

pub open spec fn branch_keys_hint() -> Seq<char> {
    "↑↓ branch · enter switch · m merge · R rebase · d delete · M rename · n new · y copy · z stash · tab stashes · esc back"@
}

pub open spec fn stash_keys_hint() -> Seq<char> {
    "↑↓ stash · p pop · a apply · D drop · tab branches · esc back"@
}

/// The footer: the section keys while the list is not focused, else the
/// active pane's keys.
pub open spec fn footer_of(pane: Pane, list_focused: bool) -> Seq<char> {
    if !list_focused {
        "1/2/3 section · esc back"@
    } else {
        match pane {
            Pane::Branches => branch_keys_hint(),
            Pane::Stashes => stash_keys_hint(),
        }
    }
}

fn current_of(bs: &Vec<BranchInfo>) -> (r: Option<usize>)
    ensures
        match r {
            Some(i) => i < bs@.len() && first_current(branch_views(bs@)) == Some(bs@[i as int]@),
            None => first_current(branch_views(bs@)) is None,
        },
{
    let mut i: usize = 0;
    proof {
        assert(branch_views(bs@).skip(0) =~= branch_views(bs@));
    }
    while i < bs.len()
        invariant
            i <= bs@.len(),
            first_current(branch_views(bs@)) == first_current(branch_views(bs@).skip(i as int)),
        decreases bs@.len() - i,
    {
        let ghost rest = branch_views(bs@).skip(i as int);
        proof {
            assert(rest[0] == bs@[i as int]@);
            assert(rest.drop_first() =~= branch_views(bs@).skip(i + 1));
        }
        if bs[i].is_current {
            return Some(i);
        }
        i += 1;
    }
    proof {
        assert(branch_views(bs@).skip(i as int).len() == 0);
    }
    None
}

fn count_label(prefix: &str, n: usize) -> (s: String)
    ensures
        s@ == prefix@ + count_text(n as nat),
{
    let mut s = String::from_str(prefix);
    s.append("(");
    s.append(u64_to_string(n as u64).as_str());
    s.append(")");
    proof {
        assert(s@ =~= prefix@ + count_text(n as nat));
    }
    s
}

/// The texts around the Branches section's list.
pub struct BranchesChrome {
    pub header: String,
    pub pane_title: String,
    pub tab_hint: String,
    pub footer: String,
}

/// The header follows the section's own store: the current marker comes
/// from the refreshed branch list, so it moves as soon as a switch lands.
pub fn branches_chrome(store: &BranchStore, list_focused: bool) -> (c: BranchesChrome)
    ensures
        c.header@ == header_of(branch_views(store.branches@)),
        c.pane_title@ == pane_titles_of(
            store.pane,
            store.branches@.len(),
            store.stashes@.len(),
        ).0,
        c.tab_hint@ == pane_titles_of(store.pane, store.branches@.len(), store.stashes@.len()).1,
        c.footer@ == footer_of(store.pane, list_focused),
{
    let header = match current_of(&store.branches) {
        Some(i) => {
            let b = &store.branches[i];
            let mut h = b.short.clone();
            h.append(" ");
            h.append(arrows(b.ahead, b.behind).as_str());
            h
        },
        None => String::from_str("(no branch) "),
    };
    let nb = store.branches.len();
    let ns = store.stashes.len();
    let (pane_title, tab_hint) = match store.pane {
        Pane::Branches => (count_label("BRANCHES ", nb), count_label("tab → stashes ", ns)),
        Pane::Stashes => (count_label("STASHES ", ns), count_label("tab → branches ", nb)),
    };
    let footer = if !list_focused {
        String::from_str("1/2/3 section · esc back")
    } else {
        match store.pane {
            Pane::Branches => String::from_str(
                "↑↓ branch · enter switch · m merge · R rebase · d delete · M rename · n new · y copy · z stash · tab stashes · esc back",
            ),
            Pane::Stashes => String::from_str(
                "↑↓ stash · p pop · a apply · D drop · tab branches · esc back",
            ),
        }
    };
    BranchesChrome { header, pane_title, tab_hint, footer }
}

/// One row of the active list.
pub struct BranchRow {
    pub selected: bool,
    /// "●" on the checked-out branch, blank on other branches, "⋯" on a
    /// stash.
    pub marker: String,
    pub label: String,
    /// A stash's message (nothing for a branch).
    pub hint: String,
    /// A remote-tracking branch, labeled as such: switch and delete
    /// refuse it.
    pub remote: bool,
}

/// What the list area holds.
pub enum BranchList {
    /// Loading failed: the store's message.
    Failed(String),
    /// The active pane is empty.
    Empty(String),
    Rows(Vec<BranchRow>),
}

pub open spec fn branch_row_ok(r: BranchRow, b: BranchInfo, selected: bool) -> bool {
    &&& r.selected == selected
    &&& r.marker@ == (if b.is_current {
        "●"@
    } else {
        " "@
    })
    &&& r.label@ == b.short@
    &&& r.hint@.len() == 0
    &&& r.remote == b.is_remote
}

pub open spec fn stash_row_ok(r: BranchRow, e: StashEntry, selected: bool) -> bool {
    &&& r.selected == selected
    &&& r.marker@ == "⋯"@
    &&& r.label@ == stash_ref_text(e.index)
    &&& r.hint@ == e.message@
    &&& !r.remote
}

fn stash_label(index: usize) -> (s: String)
    ensures
        s@ == stash_ref_text(index),
{
    let mut s = String::from_str("stash@{");
    s.append(u64_to_string(index as u64).as_str());
    s.append("}");
    s
}

/// The list area: the failure, the empty text of the pane, or its rows
/// with the cursor's row selected.
pub fn branch_list(store: &BranchStore) -> (l: BranchList)
    ensures
        store.load_failed ==> (l matches BranchList::Failed(m) && m@ == (match store.message {
            Some(t) => t@,
            None => seq![],
        })),
        !store.load_failed ==> (match store.pane {
            Pane::Branches => if store.branches@.len() == 0 {
                l matches BranchList::Empty(t) && t@ == "No branches"@
            } else {
                l matches BranchList::Rows(rows) && rows@.len() == store.branches@.len() && forall|
                    i: int,
                |
                    0 <= i < rows@.len() ==> branch_row_ok(
                        #[trigger] rows@[i],
                        store.branches@[i],
                        store.selected == Some(i as usize),
                    )
            },
            Pane::Stashes => if store.stashes@.len() == 0 {
                l matches BranchList::Empty(t) && t@ == "No stashes — z stashes the working copy"@
            } else {
                l matches BranchList::Rows(rows) && rows@.len() == store.stashes@.len() && forall|
                    i: int,
                |
                    0 <= i < rows@.len() ==> stash_row_ok(
                        #[trigger] rows@[i],
                        store.stashes@[i],
                        store.selected_stash == Some(i as usize),
                    )
            },
        }),
{
    if store.load_failed {
        let m = match &store.message {
            Some(t) => t.clone(),
            None => String::new(),
        };
        return BranchList::Failed(m);
    }
    match store.pane {
        Pane::Branches => {
            if store.branches.len() == 0 {
                return BranchList::Empty(String::from_str("No branches"));
            }
            let mut rows: Vec<BranchRow> = Vec::new();
            let mut i: usize = 0;
            while i < store.branches.len()
                invariant
                    i <= store.branches@.len(),
                    rows@.len() == i,
                    forall|j: int|
                        0 <= j < i ==> branch_row_ok(
                            #[trigger] rows@[j],
                            store.branches@[j],
                            store.selected == Some(j as usize),
                        ),
                decreases store.branches@.len() - i,
            {
                let b = &store.branches[i];
                let marker = if b.is_current {
                    String::from_str("●")
                } else {
                    String::from_str(" ")
                };
                rows.push(
                    BranchRow {
                        selected: store.selected == Some(i),
                        marker,
                        label: b.short.clone(),
                        hint: String::new(),
                        remote: b.is_remote,
                    },
                );
                i += 1;
            }
            BranchList::Rows(rows)
        },
        Pane::Stashes => {
            if store.stashes.len() == 0 {
                return BranchList::Empty(
                    String::from_str("No stashes — z stashes the working copy"),
                );
            }
            let mut rows: Vec<BranchRow> = Vec::new();
            let mut i: usize = 0;
            while i < store.stashes.len()
                invariant
                    i <= store.stashes@.len(),
                    rows@.len() == i,
                    forall|j: int|
                        0 <= j < i ==> stash_row_ok(
                            #[trigger] rows@[j],
                            store.stashes@[j],
                            store.selected_stash == Some(j as usize),
                        ),
                decreases store.stashes@.len() - i,
            {
                let e = &store.stashes[i];
                rows.push(
                    BranchRow {
                        selected: store.selected_stash == Some(i),
                        marker: String::from_str("⋯"),
                        label: stash_label(e.index),
                        hint: e.message.clone(),
                        remote: false,
                    },
                );
                i += 1;
            }
            BranchList::Rows(rows)
        },
    }
}

} // verus!

//! What the home list shows: a row per worktree, the selected
//! worktree's title in the detail bar, and the status bar.

use crate::model::WorktreeEntry;
use crate::text::{decimal, u64_to_string};
use crate::views::badges::{badge_of, status_badge, Tone};
use vstd::prelude::*;

verus! {

/// The status bar's left side: working, or how long ago the list was
/// refreshed (in seconds), or that it never was.
pub fn status_left(busy: bool, refreshed_ago: Option<u64>) -> (s: String)
    ensures
        s@ == (if busy {
            "Working…"@
        } else {
            match refreshed_ago {
                Some(n) => "refreshed "@ + decimal(n as nat) + "s ago"@,
                None => "never refreshed"@,
            }
        }),
{
    if busy {
        String::from_str("Working…")
    } else {
        match refreshed_ago {
            Some(n) => {
                let mut s = String::from_str("refreshed ");
                s.append(u64_to_string(n).as_str());
                s.append("s ago");
                s
            },
            None => String::from_str("never refreshed"),
        }
    }
}

/// A worktree's row on the home list.
pub struct HomeRow {
    /// The branch, or the detached head in parentheses.
    pub branch: String,
    pub path: String,
    /// "main" for the main worktree, else "linked".
    pub kind: String,
    pub badge: String,
    pub tone: Tone,
}

pub open spec fn row_branch_of(e: WorktreeEntry) -> Seq<char> {
    match e.branch {
        Some(b) => b@,
        None => "("@ + (match e.head {
            Some(h) => h@,
            None => seq![],
        }) + ")"@,
    }
}

pub fn home_row(e: &WorktreeEntry) -> (r: HomeRow)
    ensures
        r.branch@ == row_branch_of(*e),
        r.path@ == e.path@,
        r.kind@ == (if e.is_main {
            "main"@
        } else {
            "linked"@
        }),
        r.badge@ == badge_of(e.status).0,
        r.tone == badge_of(e.status).1,
{
    let branch = match &e.branch {
        Some(b) => b.clone(),
        None => {
            let mut s = String::from_str("(");
            match &e.head {
                Some(h) => s.append(h.as_str()),
                None => {},
            }
            s.append(")");
            s
        },
    };
    proof {
        if e.branch is None && e.head is None {
            assert(branch@ =~= row_branch_of(*e));
        }
    }
    let (badge, tone) = status_badge(&e.status);
    let kind = if e.is_main {
        String::from_str("main")
    } else {
        String::from_str("linked")
    };
    HomeRow { branch, path: e.path.clone(), kind, badge, tone }
}

/// The detail bar's title of the selected worktree: its branch
/// ("detached" without one) and its badge.
pub fn detail_title(e: &WorktreeEntry) -> (s: String)
    ensures
        s@ == (match e.branch {
            Some(b) => b@,
            None => "detached"@,
        }) + " — "@ + badge_of(e.status).0,
{
    let mut s = match &e.branch {
        Some(b) => b.clone(),
        None => String::from_str("detached"),
    };
    s.append(" — ");
    s.append(status_badge(&e.status).0.as_str());
    s
}

} // verus!

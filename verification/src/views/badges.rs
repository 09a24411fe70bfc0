//! The short status texts of the lists and what tone each is drawn in.

use crate::model::WorktreeStatus;
use crate::text::{chars_of, decimal, join, string_from, trim, trim_vec, u64_to_string};
use vstd::prelude::*;

verus! {

/// The palette entry a label is drawn in.
#[derive(Clone, Copy, Debug, PartialEq, Eq, Structural)]
pub enum Tone {
    Dim,
    Green,
    Yellow,
    Red,
}

/// "↑a " and "↓b", each only when non-zero.
pub open spec fn arrows_of(ahead: u32, behind: u32) -> Seq<char> {
    (if ahead > 0 {
        "↑"@ + decimal(ahead as nat) + " "@
    } else {
        seq![]
    }) + (if behind > 0 {
        "↓"@ + decimal(behind as nat)
    } else {
        seq![]
    })
}

/// The parts of a dirty worktree's badge, in order.
pub open spec fn dirty_parts(staged: u32, unstaged: u32, untracked: u32, arrows: Seq<char>) -> Seq<
    Seq<char>,
> {
    (if staged > 0 {
        seq![decimal(staged as nat) + " staged"@]
    } else {
        seq![]
    }) + (if unstaged > 0 {
        seq![decimal(unstaged as nat) + " modified"@]
    } else {
        seq![]
    }) + (if untracked > 0 {
        seq![decimal(untracked as nat) + " untracked"@]
    } else {
        seq![]
    }) + (if arrows.len() > 0 {
        seq![trim(arrows)]
    } else {
        seq![]
    })
}

/// A worktree's badge on the home list: pending, unavailable, clean (or
/// its divergence from upstream), or its change counts.
pub open spec fn badge_of(status: WorktreeStatus) -> (Seq<char>, Tone) {
    match status {
        WorktreeStatus::Pending => ("…"@, Tone::Dim),
        WorktreeStatus::Unavailable(_) => ("unavailable"@, Tone::Red),
        WorktreeStatus::Clean { ahead, behind } => {
            let a = arrows_of(ahead, behind);
            (
                if a.len() == 0 {
                    "clean"@
                } else {
                    a
                },
                Tone::Dim,
            )
        },
        WorktreeStatus::Dirty { staged, unstaged, untracked, ahead, behind } => (
            "● "@ + join(dirty_parts(staged, unstaged, untracked, arrows_of(ahead, behind)), " · "@),
            Tone::Yellow,
        ),
    }
}

/// "↑a " and "↓b", each only when non-zero.
pub fn arrows(ahead: u32, behind: u32) -> (s: String)
    ensures
        s@ == arrows_of(ahead, behind),
{
    let mut s = String::new();
    if ahead > 0 {
        s.append("↑");
        s.append(u64_to_string(ahead as u64).as_str());
        s.append(" ");
    }
    if behind > 0 {
        s.append("↓");
        s.append(u64_to_string(behind as u64).as_str());
    }
    proof {
        assert(s@ =~= arrows_of(ahead, behind));
    }
    s
}

fn counted(n: u32, what: &str) -> (s: String)
    ensures
        s@ == decimal(n as nat) + what@,
{
    let mut s = u64_to_string(n as u64);
    s.append(what);
    s
}

/// The home list's badge of a worktree status, and its tone.
pub fn status_badge(status: &WorktreeStatus) -> (b: (String, Tone))
    ensures
        b.0@ == badge_of(*status).0,
        b.1 == badge_of(*status).1,
{
    match status {
        WorktreeStatus::Pending => (String::from_str("…"), Tone::Dim),
        WorktreeStatus::Unavailable(_) => (String::from_str("unavailable"), Tone::Red),
        WorktreeStatus::Clean { ahead, behind } => {
            let a = arrows(*ahead, *behind);
            if a.as_str().unicode_len() == 0 {
                (String::from_str("clean"), Tone::Dim)
            } else {
                (a, Tone::Dim)
            }
        },
        WorktreeStatus::Dirty { staged, unstaged, untracked, ahead, behind } => {
            let a = arrows(*ahead, *behind);
            let mut parts: Vec<String> = Vec::new();
            if *staged > 0 {
                parts.push(counted(*staged, " staged"));
            }
            if *unstaged > 0 {
                parts.push(counted(*unstaged, " modified"));
            }
            if *untracked > 0 {
                parts.push(counted(*untracked, " untracked"));
            }
            if a.as_str().unicode_len() > 0 {
                parts.push(string_from(&trim_vec(&chars_of(a.as_str()))));
            }
            proof {
                assert(crate::engine::arg_views(parts@) =~= dirty_parts(
                    *staged,
                    *unstaged,
                    *untracked,
                    arrows_of(*ahead, *behind),
                ));
            }
            let mut s = String::from_str("● ");
            s.append(crate::engine::join_strings(&parts, " · ").as_str());
            (s, Tone::Yellow)
        },
    }
}

/// The tone of a working-copy status letter.
pub fn status_tone(c: char) -> (t: Tone)
    ensures
        t == (if c == 'A' {
            Tone::Green
        } else if c == 'M' || c == 'R' || c == 'C' {
            Tone::Yellow
        } else if c == 'D' || c == 'U' {
            Tone::Red
        } else {
            Tone::Dim
        }),
{
    match c {
        'A' => Tone::Green,
        'M' | 'R' | 'C' => Tone::Yellow,
        'D' | 'U' => Tone::Red,
        _ => Tone::Dim,
    }
}

/// The tone of a commit's changed-file letter.
pub fn letter_tone(c: char) -> (t: Tone)
    ensures
        t == (if c == 'A' {
            Tone::Green
        } else if c == 'D' {
            Tone::Red
        } else {
            Tone::Yellow
        }),
{
    match c {
        'A' => Tone::Green,
        'D' => Tone::Red,
        _ => Tone::Yellow,
    }
}

} // verus!

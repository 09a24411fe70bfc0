//! In-progress sequence state: merge / rebase / cherry-pick / revert
//! operations that paused on a conflict. The state is read from git's
//! own marker files (never app memory), so it survives restarts; these
//! helpers decide which operation is paused and build the argv that
//! continues, skips or aborts it.

use crate::engine::{arg_views, args_of, GitError};
use crate::paths::{join, join_path};
use crate::text::{
    chars_of, opt_text, parse_unsigned, parse_unsigned_vec, string_from, trim, trim_vec, u64_to_string,
};
use vstd::prelude::*;

verus! {

/// A paused multi-step git operation.
#[derive(Clone, Copy, Debug, PartialEq, Eq, Structural)]
pub enum InProgress {
    Merge,
    Rebase,
    CherryPick,
    Revert,
}

/// The subcommand that resumes, skips or aborts the operation.
pub open spec fn command_of(op: InProgress) -> Seq<char> {
    match op {
        InProgress::Merge => "merge"@,
        InProgress::Rebase => "rebase"@,
        InProgress::CherryPick => "cherry-pick"@,
        InProgress::Revert => "revert"@,
    }
}

impl InProgress {
    /// The `--continue`-style subcommand this state resumes.
    pub fn command(self) -> (c: &'static str)
        ensures
            c@ == command_of(self),
    {
        match self {
            InProgress::Merge => "merge",
            InProgress::Rebase => "rebase",
            InProgress::CherryPick => "cherry-pick",
            InProgress::Revert => "revert",
        }
    }

    /// Human name for banners and messages.
    pub fn label(self) -> (l: &'static str)
        ensures
            l@ == command_of(self),
    {
        match self {
            InProgress::Merge => "merge",
            InProgress::Rebase => "rebase",
            InProgress::CherryPick => "cherry-pick",
            InProgress::Revert => "revert",
        }
    }

    /// Whether the operation has a current step that can be skipped.
    pub fn skippable(self) -> (b: bool)
        ensures
            b == (self == InProgress::Rebase || self == InProgress::CherryPick),
    {
        match self {
            InProgress::Rebase | InProgress::CherryPick => true,
            _ => false,
        }
    }
}

/// Argv asking git where one of its state files lives.
pub fn git_path_args(name: &str) -> (args: Vec<String>)
    ensures
        arg_views(args@) == seq!["rev-parse"@, "--git-path"@, name@],
{
    let mut args = args_of(&["rev-parse", "--git-path"]);
    let ghost a0 = arg_views(args@);
    args.push(String::from_str(name));
    proof {
        assert(arg_views(args@) =~= a0.push(name@));
    }
    args
}

/// Where a `--git-path` answer points: absolute answers (linked
/// worktrees) as they are, relative ones against the worktree it ran in
/// — not this process's working directory.
pub open spec fn resolved_git_path(worktree: Seq<char>, answer: Seq<char>) -> Seq<char> {
    let p = trim(answer);
    if p.len() > 0 && p[0] == '/' {
        p
    } else {
        join(worktree, p)
    }
}

/// Resolves a `--git-path` answer against the worktree.
pub fn resolve_git_path(worktree: &str, answer: &str) -> (p: String)
    ensures
        p@ == resolved_git_path(worktree@, answer@),
{
    let t = trim_vec(&chars_of(answer));
    let p = string_from(&t);
    if t.len() > 0 && t[0] == '/' {
        p
    } else {
        join_path(worktree, p.as_str())
    }
}

/// Which operation is paused, given which of git's marker paths exist.
/// Precedence matters: a rebase conflict also sets CHERRY_PICK_HEAD, so
/// the rebase markers are checked first.
pub open spec fn paused(
    rebase_merge: bool,
    rebase_apply: bool,
    cherry_pick_head: bool,
    revert_head: bool,
    merge_head: bool,
) -> Option<InProgress> {
    if rebase_merge || rebase_apply {
        Some(InProgress::Rebase)
    } else if cherry_pick_head {
        Some(InProgress::CherryPick)
    } else if revert_head {
        Some(InProgress::Revert)
    } else if merge_head {
        Some(InProgress::Merge)
    } else {
        None
    }
}

/// The paused operation in this worktree, or `None`, from the existence
/// of `rebase-merge`, `rebase-apply`, `CHERRY_PICK_HEAD`, `REVERT_HEAD`
/// and `MERGE_HEAD`.
pub fn operation_state(
    rebase_merge: bool,
    rebase_apply: bool,
    cherry_pick_head: bool,
    revert_head: bool,
    merge_head: bool,
) -> (op: Option<InProgress>)
    ensures
        op == paused(rebase_merge, rebase_apply, cherry_pick_head, revert_head, merge_head),
{
    if rebase_merge || rebase_apply {
        Some(InProgress::Rebase)
    } else if cherry_pick_head {
        Some(InProgress::CherryPick)
    } else if revert_head {
        Some(InProgress::Revert)
    } else if merge_head {
        Some(InProgress::Merge)
    } else {
        None
    }
}

/// A number read from one of the sequencer's bookkeeping files.
pub open spec fn counter(text: Option<Seq<char>>) -> Option<nat> {
    match text {
        Some(t) => parse_unsigned(trim(t), u64::MAX as nat),
        None => None,
    }
}

fn read_counter(text: Option<&str>) -> (r: Option<u64>)
    ensures
        match r {
            Some(n) => counter(opt_text(text)) == Some(n as nat),
            None => counter(opt_text(text)) is None,
        },
{
    match text {
        Some(t) => parse_unsigned_vec(&trim_vec(&chars_of(t)), u64::MAX),
        None => None,
    }
}

/// (current step, total steps) of an in-progress rebase, from the
/// `msgnum` and `end` files of `rebase-merge` (`None` when unreadable).
/// `None` outside a rebase.
pub fn rebase_progress(op: Option<InProgress>, msgnum: Option<&str>, end: Option<&str>) -> (r:
    Option<(u64, u64)>)
    ensures
        op != Some(InProgress::Rebase) ==> r is None,
        op == Some(InProgress::Rebase) ==> match r {
            Some((a, b)) => counter(opt_text(msgnum)) == Some(a as nat) && counter(opt_text(end)) == Some(b as nat),
            None => counter(opt_text(msgnum)) is None || counter(opt_text(end)) is None,
        },
{
    match op {
        Some(InProgress::Rebase) => {},
        _ => return None,
    }
    let a = read_counter(msgnum)?;
    let b = read_counter(end)?;
    Some((a, b))
}

pub open spec fn no_operation_message() -> Seq<char> {
    "no operation in progress"@
}

/// Argv continuing the paused operation; the stored message is accepted
/// without an editor.
pub fn continue_op(op: Option<InProgress>) -> (r: Result<Vec<String>, GitError>)
    ensures
        r is Err <==> op is None,
        r matches Err(e) ==> e.message@ == no_operation_message(),
        r matches Ok(args) ==> arg_views(args@) == seq![
            "-c"@,
            "core.editor=true"@,
            command_of(op->0),
            "--continue"@,
        ],
{
    let op = match op {
        Some(o) => o,
        None => return Err(GitError { message: String::from_str("no operation in progress") }),
    };
    let mut args = args_of(&["-c", "core.editor=true"]);
    let ghost a0 = arg_views(args@);
    args.push(String::from_str(op.command()));
    args.push(String::from_str("--continue"));
    proof {
        assert(arg_views(args@) =~= a0 + seq![command_of(op), "--continue"@]);
    }
    Ok(args)
}

/// Argv aborting the paused operation, restoring the pre-operation state.
pub fn abort_op(op: Option<InProgress>) -> (r: Result<Vec<String>, GitError>)
    ensures
        r is Err <==> op is None,
        r matches Err(e) ==> e.message@ == no_operation_message(),
        r matches Ok(args) ==> arg_views(args@) == seq![command_of(op->0), "--abort"@],
{
    let op = match op {
        Some(o) => o,
        None => return Err(GitError { message: String::from_str("no operation in progress") }),
    };
    let mut args: Vec<String> = Vec::new();
    args.push(String::from_str(op.command()));
    args.push(String::from_str("--abort"));
    proof {
        assert(arg_views(args@) =~= seq![command_of(op), "--abort"@]);
    }
    Ok(args)
}

pub open spec fn not_skippable_message(op: InProgress) -> Seq<char> {
    command_of(op) + " has no current step to skip"@
}

/// Argv skipping the current step (rebase and cherry-pick only).
pub fn skip_op(op: Option<InProgress>) -> (r: Result<Vec<String>, GitError>)
    ensures
        r is Ok <==> (op == Some(InProgress::Rebase) || op == Some(InProgress::CherryPick)),
        r matches Err(e) ==> e.message@ == (if op is None {
            no_operation_message()
        } else {
            not_skippable_message(op->0)
        }),
        r matches Ok(args) ==> arg_views(args@) == seq![
            "-c"@,
            "core.editor=true"@,
            command_of(op->0),
            "--skip"@,
        ],
{
    let op = match op {
        Some(o) => o,
        None => return Err(GitError { message: String::from_str("no operation in progress") }),
    };
    if !op.skippable() {
        let mut message = String::from_str(op.label());
        message.append(" has no current step to skip");
        return Err(GitError { message });
    }
    let mut args = args_of(&["-c", "core.editor=true"]);
    let ghost a0 = arg_views(args@);
    args.push(String::from_str(op.command()));
    args.push(String::from_str("--skip"));
    proof {
        assert(arg_views(args@) =~= a0 + seq![command_of(op), "--skip"@]);
    }
    Ok(args)
}

/// What a step that may pause on conflicts comes to, given the paths
/// the conflict query found (empty when it found none or failed): a
/// success is an empty conflict list; a failure with conflicts pauses
/// and reports them; any other failure keeps its error.
pub open spec fn step_outcome(
    result: Result<(), GitError>,
    conflicts: Seq<String>,
) -> Result<Seq<String>, GitError> {
    match result {
        Ok(_) => Ok(seq![]),
        Err(e) => if conflicts.len() == 0 {
            Err(e)
        } else {
            Ok(conflicts)
        },
    }
}

/// Applies `step_outcome`.
pub fn finish_with_conflicts(result: Result<(), GitError>, conflicts: Vec<String>) -> (r: Result<
    Vec<String>,
    GitError,
>)
    ensures
        match (r, step_outcome(result, conflicts@)) {
            (Ok(v), Ok(s)) => v@ == s,
            (Err(e), Err(f)) => e == f,
            _ => false,
        },
{
    match result {
        Ok(_) => Ok(Vec::new()),
        Err(e) => if conflicts.len() == 0 {
            Err(e)
        } else {
            Ok(conflicts)
        },
    }
}

} // verus!

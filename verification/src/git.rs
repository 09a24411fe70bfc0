//! The home list's git commands: the worktree list, each worktree's
//! status, adding, removing and pruning worktrees, and the default
//! branch. Running git is the caller's part; this module builds the argv
//! and reads what git printed.

use crate::engine::{arg_views, args_of};
use crate::model::{
    parse_status_porcelain_v2, parse_worktree_porcelain, worktree_list, worktree_status,
    EntryView, StatusView, WorktreeEntry, WorktreeStatus,
};
use crate::model::entry_views;
use crate::text::{
    chars_of, eq_str, first_index, first_index_of, has_char, lines, lines_of, lossy, opt_text, slice_vec,
    string_from, trim, trim_end, trim_end_vec, trim_vec, utf8_lossy, views,
};
use vstd::prelude::*;

verus! {

#[derive(Debug)]
pub struct GitError {
    pub message: String,
}

/// What a git run comes to: its stdout, lossy-decoded and right-trimmed,
/// on success; else the last line of its trimmed stderr (`git failed`
/// when there is none).
pub open spec fn run_result(success: bool, stdout: Seq<u8>, stderr: Seq<u8>) -> Result<
    Seq<char>,
    Seq<char>,
> {
    if success {
        Ok(trim_end(utf8_lossy(stdout)))
    } else {
        let ls = lines(trim(utf8_lossy(stderr)));
        Err(
            if ls.len() > 0 {
                ls.last()
            } else {
                "git failed"@
            },
        )
    }
}

/// Reads a finished git run.
pub fn git_result(success: bool, stdout: &[u8], stderr: &[u8]) -> (r: Result<String, GitError>)
    ensures
        match (r, run_result(success, stdout@, stderr@)) {
            (Ok(s), Ok(t)) => s@ == t,
            (Err(e), Err(t)) => e.message@ == t,
            _ => false,
        },
{
    if success {
        let out = lossy(stdout);
        Ok(string_from(&trim_end_vec(&chars_of(out.as_str()))))
    } else {
        let text = lossy(stderr);
        let ls = lines_of(&trim_vec(&chars_of(text.as_str())));
        if ls.len() > 0 {
            proof {
                assert(views(ls@).last() == ls@[ls@.len() - 1]@);
            }
            Err(GitError { message: string_from(&ls[ls.len() - 1]) })
        } else {
            Err(GitError { message: String::from_str("git failed") })
        }
    }
}

/// Argv resolving the repository root containing the working directory.
pub fn repo_root() -> (args: Vec<String>)
    ensures
        arg_views(args@) == seq!["rev-parse"@, "--show-toplevel"@],
{
    args_of(&["rev-parse", "--show-toplevel"])
}

/// Argv listing the worktrees in porcelain form.
pub fn list_worktrees_args() -> (args: Vec<String>)
    ensures
        arg_views(args@) == seq!["worktree"@, "list"@, "--porcelain"@],
{
    args_of(&["worktree", "list", "--porcelain"])
}

/// The worktrees the porcelain listing describes.
pub fn list_worktrees(out: &str) -> (entries: Vec<WorktreeEntry>)
    ensures
        entry_views(entries@) == worktree_list(out@),
{
    parse_worktree_porcelain(out)
}

/// Argv of one worktree's status, run in that worktree.
pub fn status_args() -> (args: Vec<String>)
    ensures
        arg_views(args@) == seq!["status"@, "--porcelain=v2"@, "--branch"@],
{
    args_of(&["status", "--porcelain=v2", "--branch"])
}

/// A worktree's status from its status run: parsed on success; a failed
/// run (e.g. the directory is gone) degrades to `Unavailable` with git's
/// message — the pass over all worktrees never fails.
pub fn status_one(result: Result<&str, &GitError>) -> (st: WorktreeStatus)
    requires
        result matches Ok(out) ==> out@.len() < u32::MAX,
    ensures
        match result {
            Ok(out) => st@ == worktree_status(out@),
            Err(e) => st matches WorktreeStatus::Unavailable(m) && m@ == e.message@,
        },
{
    match result {
        Ok(out) => parse_status_porcelain_v2(out),
        Err(e) => WorktreeStatus::Unavailable(e.message.clone()),
    }
}

/// Argv adding a worktree at `path`: with `branch`, a new branch off
/// `base`; without, `base` checked out as an existing branch.
pub fn add_worktree(path: &str, branch: Option<&str>, base: &str) -> (args: Vec<String>)
    ensures
        arg_views(args@) == match branch {
            Some(b) => seq!["worktree"@, "add"@, path@, "-b"@, b@, base@],
            None => seq!["worktree"@, "add"@, path@, base@],
        },
{
    let mut args = args_of(&["worktree", "add"]);
    let ghost a0 = arg_views(args@);
    args.push(String::from_str(path));
    match branch {
        Some(b) => {
            args.push(String::from_str("-b"));
            args.push(String::from_str(b));
            args.push(String::from_str(base));
            proof {
                assert(arg_views(args@) =~= a0 + seq![path@, "-b"@, b@, base@]);
            }
        },
        None => {
            args.push(String::from_str(base));
            proof {
                assert(arg_views(args@) =~= a0 + seq![path@, base@]);
            }
        },
    }
    args
}

/// Argv removing the worktree at `path` (`--force` drops its changes).
pub fn remove_worktree(path: &str, force: bool) -> (args: Vec<String>)
    ensures
        arg_views(args@) == if force {
            seq!["worktree"@, "remove"@, "--force"@, path@]
        } else {
            seq!["worktree"@, "remove"@, path@]
        },
{
    let mut args = if force {
        args_of(&["worktree", "remove", "--force"])
    } else {
        args_of(&["worktree", "remove"])
    };
    let ghost a0 = arg_views(args@);
    args.push(String::from_str(path));
    proof {
        assert(arg_views(args@) =~= a0.push(path@));
    }
    args
}

/// Argv pruning stale worktree records.
pub fn prune() -> (args: Vec<String>)
    ensures
        arg_views(args@) == seq!["worktree"@, "prune"@],
{
    args_of(&["worktree", "prune"])
}

/// Argv listing local branch names.
pub fn local_branches_args() -> (args: Vec<String>)
    ensures
        arg_views(args@) == seq!["branch"@, "--format=%(refname:short)"@],
{
    args_of(&["branch", "--format=%(refname:short)"])
}

pub open spec fn branch_names(ls: Seq<Seq<char>>) -> Seq<Seq<char>>
    decreases ls.len(),
{
    if ls.len() == 0 {
        seq![]
    } else if trim(ls.last()).len() == 0 {
        branch_names(ls.drop_last())
    } else {
        branch_names(ls.drop_last()).push(trim(ls.last()))
    }
}

/// The local branch names: the listing's trimmed non-empty lines.
pub fn local_branches(out: &str) -> (names: Vec<String>)
    ensures
        arg_views(names@) == branch_names(lines(out@)),
{
    let ls = lines_of(&chars_of(out));
    let mut names: Vec<String> = Vec::new();
    let mut i: usize = 0;
    proof {
        assert(arg_views(names@) =~= Seq::<Seq<char>>::empty());
    }
    while i < ls.len()
        invariant
            i <= ls.len(),
            views(ls@) == lines(out@),
            arg_views(names@) == branch_names(views(ls@).take(i as int)),
        decreases ls.len() - i,
    {
        proof {
            assert(views(ls@).take(i + 1).drop_last() =~= views(ls@).take(i as int));
            assert(views(ls@)[i as int] == ls@[i as int]@);
        }
        let t = trim_vec(&ls[i]);
        if t.len() > 0 {
            let ghost before = arg_views(names@);
            let s = string_from(&t);
            names.push(s);
            proof {
                assert(arg_views(names@) =~= before.push(t@));
            }
        }
        i += 1;
    }
    proof {
        assert(views(ls@).take(ls.len() as int) =~= views(ls@));
    }
    names
}

/// Argv reading the remote's default branch (`origin/HEAD`).
pub fn origin_head_args() -> (args: Vec<String>)
    ensures
        arg_views(args@) == seq!["symbolic-ref"@, "--short"@, "refs/remotes/origin/HEAD"@],
{
    args_of(&["symbolic-ref", "--short", "refs/remotes/origin/HEAD"])
}

/// The branch a remote-tracking name points at: the text after the
/// remote's name and its `/` (all of it when there is no `/`), so
/// `origin/release/v1` names `release/v1`.
pub open spec fn without_remote(s: Seq<char>) -> Seq<char> {
    if has_char(s, '/') {
        s.skip(first_index(s, '/') + 1)
    } else {
        s
    }
}

/// Best-effort default branch: the branch `origin/HEAD` points at when
/// it is set and non-empty, else `main` when it exists, else `master`
/// when it exists, else `main`.
pub open spec fn default_branch_of(
    origin_head: Option<Seq<char>>,
    branches: Seq<Seq<char>>,
) -> Seq<char> {
    if origin_head is Some && without_remote(origin_head->0).len() > 0 {
        without_remote(origin_head->0)
    } else if branches.contains("main"@) {
        "main"@
    } else if branches.contains("master"@) {
        "master"@
    } else {
        "main"@
    }
}

fn has_name(names: &Vec<String>, name: &str) -> (b: bool)
    ensures
        b == arg_views(names@).contains(name@),
{
    let mut i: usize = 0;
    while i < names.len()
        invariant
            i <= names.len(),
            forall|j: int| 0 <= j < i ==> names@[j]@ != name@,
        decreases names.len() - i,
    {
        if eq_str(&chars_of(names[i].as_str()), name) {
            proof {
                assert(arg_views(names@)[i as int] == name@);
            }
            return true;
        }
        i += 1;
    }
    proof {
        if arg_views(names@).contains(name@) {
            let j = choose|j: int| 0 <= j < arg_views(names@).len() && arg_views(names@)[j] == name@;
            assert(names@[j]@ == name@);
        }
    }
    false
}

/// Picks the default branch from what `origin_head_args` printed (`None`
/// when it failed) and the local branches (empty when listing failed).
pub fn default_branch(origin_head: Option<&str>, branches: &Vec<String>) -> (b: String)
    ensures
        b@ == default_branch_of(opt_text(origin_head), arg_views(branches@)),
{
    match origin_head {
        Some(h) => {
            let v = chars_of(h);
            let name = match first_index_of(&v, '/') {
                Some(k) => {
                    assert(crate::text::is_first(v@, '/', k as int));
                    assert(k < v.len());
                    slice_vec(&v, k + 1, v.len())
                },
                None => v.clone(),
            };
            proof {
                assert(name@ =~= without_remote(h@));
            }
            if name.len() > 0 {
                return string_from(&name);
            }
        },
        None => {},
    }
    if has_name(branches, "main") {
        String::from_str("main")
    } else if has_name(branches, "master") {
        String::from_str("master")
    } else {
        String::from_str("main")
    }
}

} // verus!

//! Branch operations: parsing the branch list, and the argv of create,
//! switch, rename, delete, merge and rebase with validated branch names
//! (no option injection), plus the decision taken after a failed merge
//! or rebase.

use crate::bytes::{nonempty, nonempty_records};
use crate::engine::{arg_views, args_of, GitError};
use crate::text::{
    chars_of, debug_quoted, ends_with, eq_str, has_suffix, lines, lines_of, lossy,
    parse_u32_or_zero, piece, piece_of, split, split_chars, splitn, splitn_chars, starts_with,
    str_debug, strip_prefix, trim, trim_end_char, trim_end_char_vec, trim_start_char,
    trim_start_char_vec, trim_vec, u32_or_zero, utf8_lossy, views,
};
use vstd::prelude::*;

verus! {

#[derive(Clone, Debug, PartialEq, Eq)]
pub struct BranchInfo {
    /// Full ref name (e.g. `refs/heads/main` or `refs/remotes/origin/main`).
    pub ref_name: String,
    /// Short display name (e.g. `main` or `origin/main`).
    pub short: String,
    /// True for the currently checked-out branch.
    pub is_current: bool,
    /// True for remote-tracking branches.
    pub is_remote: bool,
    /// Commits ahead of upstream (local only).
    pub ahead: u32,
    /// Commits behind of upstream (local only).
    pub behind: u32,
}

pub struct BranchView {
    pub ref_name: Seq<char>,
    pub short: Seq<char>,
    pub is_current: bool,
    pub is_remote: bool,
    pub ahead: u32,
    pub behind: u32,
}

impl View for BranchInfo {
    type V = BranchView;

    open spec fn view(&self) -> BranchView {
        BranchView {
            ref_name: self.ref_name@,
            short: self.short@,
            is_current: self.is_current,
            is_remote: self.is_remote,
            ahead: self.ahead,
            behind: self.behind,
        }
    }
}

pub open spec fn branch_views(s: Seq<BranchInfo>) -> Seq<BranchView> {
    s.map_values(|b: BranchInfo| b@)
}

// ---------------------------------------------------------------------
// Listing
// ---------------------------------------------------------------------

/// Argv listing local and remote-tracking branches with the head marker,
/// the full ref name and the upstream tracking text, `\x01`-separated.
pub fn list_args() -> (args: Vec<String>)
    ensures
        arg_views(args@) == seq![
            "--no-optional-locks"@,
            "branch"@,
            "-a"@,
            "--format=%(HEAD)%01%(refname)%01%(upstream:track)"@,
        ],
{
    args_of(
        &["--no-optional-locks", "branch", "-a", "--format=%(HEAD)%01%(refname)%01%(upstream:track)"],
    )
}

/// One `,`-separated token of `%(upstream:track)`, brackets stripped.
pub open spec fn track_token(t: Seq<char>) -> Seq<char> {
    trim_end_char(trim_start_char(trim(t), '['), ']')
}

pub open spec fn track_step(acc: (u32, u32), token: Seq<char>) -> (u32, u32) {
    let t = track_token(token);
    if starts_with(t, "ahead "@) {
        (u32_or_zero(trim(t.skip(("ahead "@).len() as int))), acc.1)
    } else if starts_with(t, "behind "@) {
        (acc.0, u32_or_zero(trim(t.skip(("behind "@).len() as int))))
    } else {
        acc
    }
}

pub open spec fn track_fold(ts: Seq<Seq<char>>) -> (u32, u32)
    decreases ts.len(),
{
    if ts.len() == 0 {
        (0, 0)
    } else {
        track_step(track_fold(ts.drop_last()), ts.last())
    }
}

/// (ahead, behind) of `%(upstream:track)` text such as `[ahead 1]`,
/// `[behind 2]` or `[ahead 1, behind 3]`; a count that does not parse
/// is 0.
pub open spec fn track_counts(track: Seq<char>) -> (u32, u32) {
    track_fold(split(track, ','))
}

fn parse_track(track: &Vec<char>) -> (r: (u32, u32))
    ensures
        r == track_counts(track@),
{
    let tokens = split_chars(track, ',');
    let mut ahead: u32 = 0;
    let mut behind: u32 = 0;
    let mut i: usize = 0;
    proof {
        assert(views(tokens@).take(0) =~= Seq::<Seq<char>>::empty());
    }
    while i < tokens.len()
        invariant
            i <= tokens.len(),
            views(tokens@) == split(track@, ','),
            (ahead, behind) == track_fold(views(tokens@).take(i as int)),
        decreases tokens.len() - i,
    {
        proof {
            assert(views(tokens@).take(i + 1).drop_last() =~= views(tokens@).take(i as int));
            assert(views(tokens@)[i as int] == tokens@[i as int]@);
        }
        let t = trim_end_char_vec(trim_start_char_vec(&trim_vec(&tokens[i]), '['), ']');
        match strip_prefix(&t, "ahead ") {
            Some(n) => {
                ahead = parse_u32_or_zero(&trim_vec(&n));
            },
            None => match strip_prefix(&t, "behind ") {
                Some(n) => {
                    behind = parse_u32_or_zero(&trim_vec(&n));
                },
                None => {},
            },
        }
        i += 1;
    }
    proof {
        assert(views(tokens@).take(tokens.len() as int) =~= views(tokens@));
    }
    (ahead, behind)
}

/// The branch one `--format` line describes: `None` for an empty line,
/// a ref that is neither a local nor a remote-tracking branch, an empty
/// short name, or a remote's symbolic `HEAD`. Remote-tracking branches
/// carry no ahead/behind counts.
pub open spec fn branch_line(line: Seq<char>) -> Option<BranchView> {
    let parts = splitn(line, 3, '\u{1}');
    let head = trim(piece(parts, 0));
    let refname = piece(parts, 1);
    let track = piece(parts, 2);
    if line.len() == 0 {
        None
    } else if starts_with(refname, "refs/heads/"@) {
        let short = refname.skip(("refs/heads/"@).len() as int);
        if short.len() == 0 {
            None
        } else {
            Some(
                BranchView {
                    ref_name: refname,
                    short,
                    is_current: head == "*"@,
                    is_remote: false,
                    ahead: track_counts(track).0,
                    behind: track_counts(track).1,
                },
            )
        }
    } else if starts_with(refname, "refs/remotes/"@) {
        let short = refname.skip(("refs/remotes/"@).len() as int);
        if ends_with(short, "/HEAD"@) || short.len() == 0 {
            None
        } else {
            Some(
                BranchView {
                    ref_name: refname,
                    short,
                    is_current: head == "*"@,
                    is_remote: true,
                    ahead: 0,
                    behind: 0,
                },
            )
        }
    } else {
        None
    }
}

pub open spec fn branch_fold(ls: Seq<Seq<char>>) -> Seq<BranchView>
    decreases ls.len(),
{
    if ls.len() == 0 {
        seq![]
    } else {
        match branch_line(ls.last()) {
            Some(b) => branch_fold(ls.drop_last()).push(b),
            None => branch_fold(ls.drop_last()),
        }
    }
}

/// The branches the `list_args` output describes, in git's order
/// (locals first).
pub open spec fn branch_list(out: Seq<char>) -> Seq<BranchView> {
    branch_fold(lines(out))
}

pub open spec fn opt_branch(o: Option<BranchInfo>) -> Option<BranchView> {
    match o {
        Some(b) => Some(b@),
        None => None,
    }
}

fn parse_branch_line(line: &Vec<char>) -> (r: Option<BranchInfo>)
    ensures
        opt_branch(r) == branch_line(line@),
{
    if line.len() == 0 {
        return None;
    }
    let parts = splitn_chars(line, 3, '\u{1}');
    let head = trim_vec(&piece_of(&parts, 0));
    let refname = piece_of(&parts, 1);
    let track = piece_of(&parts, 2);
    let is_current = eq_str(&head, "*");
    let ref_name = crate::text::string_from(&refname);
    match strip_prefix(&refname, "refs/heads/") {
        Some(short) => {
            if short.len() == 0 {
                return None;
            }
            let (ahead, behind) = parse_track(&track);
            Some(
                BranchInfo {
                    ref_name,
                    short: crate::text::string_from(&short),
                    is_current,
                    is_remote: false,
                    ahead,
                    behind,
                },
            )
        },
        None => match strip_prefix(&refname, "refs/remotes/") {
            Some(short) => {
                if has_suffix(&short, "/HEAD") || short.len() == 0 {
                    return None;
                }
                Some(
                    BranchInfo {
                        ref_name,
                        short: crate::text::string_from(&short),
                        is_current,
                        is_remote: true,
                        ahead: 0,
                        behind: 0,
                    },
                )
            },
            None => None,
        },
    }
}

/// Parses the branch list (`list_args` output): locals first, as git
/// orders them with `-a`, each with its current-branch marker and, for
/// locals, the ahead/behind counts against its upstream.
pub fn list(out: &str) -> (branches: Vec<BranchInfo>)
    ensures
        branch_views(branches@) == branch_list(out@),
{
    let ls = lines_of(&chars_of(out));
    let mut branches: Vec<BranchInfo> = Vec::new();
    let mut i: usize = 0;
    proof {
        assert(branch_views(branches@) =~= Seq::<BranchView>::empty());
    }
    while i < ls.len()
        invariant
            i <= ls.len(),
            views(ls@) == lines(out@),
            branch_views(branches@) == branch_fold(views(ls@).take(i as int)),
        decreases ls.len() - i,
    {
        proof {
            assert(views(ls@).take(i + 1).drop_last() =~= views(ls@).take(i as int));
            assert(views(ls@)[i as int] == ls@[i as int]@);
        }
        let ghost before = branch_views(branches@);
        match parse_branch_line(&ls[i]) {
            Some(b) => {
                branches.push(b);
                proof {
                    assert(branch_views(branches@) =~= before.push(b@));
                }
            },
            None => {},
        }
        i += 1;
    }
    proof {
        assert(views(ls@).take(ls.len() as int) =~= views(ls@));
    }
    branches
}

// ---------------------------------------------------------------------
// Validated commands
// ---------------------------------------------------------------------

/// A character a branch name may not hold: an ASCII control character
/// or a space.
pub open spec fn bad_name_char(c: char) -> bool {
    c < ' ' || c == '\u{7f}' || c == ' '
}

/// Branch names cannot be empty, start with `-` (option injection), or
/// hold control characters or spaces.
pub open spec fn valid_branch_name(name: Seq<char>) -> bool {
    &&& name.len() > 0
    &&& name[0] != '-'
    &&& forall|i: int| 0 <= i < name.len() ==> !bad_name_char(#[trigger] name[i])
}

pub open spec fn invalid_name_message(name: Seq<char>) -> Seq<char> {
    "invalid branch name: "@ + str_debug(name)
}

fn validate_branch_name(name: &str) -> (r: Result<(), GitError>)
    ensures
        r is Ok <==> valid_branch_name(name@),
        r matches Err(e) ==> e.message@ == invalid_name_message(name@),
{
    let v = chars_of(name);
    let mut ok = v.len() > 0 && v[0] != '-';
    let mut i: usize = 0;
    while i < v.len()
        invariant
            i <= v.len(),
            v@ == name@,
            ok == (v@.len() > 0 && v@[0] != '-' && forall|j: int|
                0 <= j < i ==> !bad_name_char(#[trigger] v@[j])),
        decreases v.len() - i,
    {
        let c = v[i];
        if c < ' ' || c == '\u{7f}' || c == ' ' {
            ok = false;
        }
        i += 1;
    }
    if ok {
        Ok(())
    } else {
        let mut message = String::from_str("invalid branch name: ");
        message.append(debug_quoted(name).as_str());
        Err(GitError { message })
    }
}

/// Argv creating a branch at the current HEAD (without switching).
pub fn create(name: &str) -> (r: Result<Vec<String>, GitError>)
    ensures
        r is Ok <==> valid_branch_name(name@),
        r matches Err(e) ==> e.message@ == invalid_name_message(name@),
        r matches Ok(args) ==> arg_views(args@) == seq!["branch"@, "--"@, name@],
{
    validate_branch_name(name)?;
    let mut args = args_of(&["branch", "--"]);
    let ghost a0 = arg_views(args@);
    args.push(String::from_str(name));
    proof {
        assert(arg_views(args@) =~= a0.push(name@));
    }
    Ok(args)
}

/// Argv switching to an existing branch (or detached commit). No `--`:
/// after it, `git checkout` reads the argument as a path.
pub fn switch(target: &str) -> (r: Result<Vec<String>, GitError>)
    ensures
        r is Ok <==> valid_branch_name(target@),
        r matches Err(e) ==> e.message@ == invalid_name_message(target@),
        r matches Ok(args) ==> arg_views(args@) == seq!["checkout"@, "-q"@, target@],
{
    validate_branch_name(target)?;
    let mut args = args_of(&["checkout", "-q"]);
    let ghost a0 = arg_views(args@);
    args.push(String::from_str(target));
    proof {
        assert(arg_views(args@) =~= a0.push(target@));
    }
    Ok(args)
}

/// Argv renaming a local branch; the old name is checked first.
pub fn rename(old: &str, new: &str) -> (r: Result<Vec<String>, GitError>)
    ensures
        r is Ok <==> valid_branch_name(old@) && valid_branch_name(new@),
        r matches Err(e) ==> e.message@ == (if !valid_branch_name(old@) {
            invalid_name_message(old@)
        } else {
            invalid_name_message(new@)
        }),
        r matches Ok(args) ==> arg_views(args@) == seq!["branch"@, "-m"@, "--"@, old@, new@],
{
    validate_branch_name(old)?;
    validate_branch_name(new)?;
    let mut args = args_of(&["branch", "-m", "--"]);
    let ghost a0 = arg_views(args@);
    args.push(String::from_str(old));
    args.push(String::from_str(new));
    proof {
        assert(arg_views(args@) =~= a0 + seq![old@, new@]);
    }
    Ok(args)
}

pub open spec fn delete_current_message() -> Seq<char> {
    "cannot delete the current branch — switch to another branch first"@
}

/// Argv deleting a local branch; the current branch is refused.
pub fn delete(name: &str, current: &str) -> (r: Result<Vec<String>, GitError>)
    ensures
        r is Ok <==> valid_branch_name(name@) && name@ != current@,
        r matches Err(e) ==> e.message@ == (if !valid_branch_name(name@) {
            invalid_name_message(name@)
        } else {
            delete_current_message()
        }),
        r matches Ok(args) ==> arg_views(args@) == seq!["branch"@, "-d"@, "--"@, name@],
{
    validate_branch_name(name)?;
    if eq_str(&chars_of(name), current) {
        return Err(
            GitError {
                message: String::from_str(
                    "cannot delete the current branch — switch to another branch first",
                ),
            },
        );
    }
    let mut args = args_of(&["branch", "-d", "--"]);
    let ghost a0 = arg_views(args@);
    args.push(String::from_str(name));
    proof {
        assert(arg_views(args@) =~= a0.push(name@));
    }
    Ok(args)
}

/// Argv merging a branch into the current branch.
pub fn merge(branch: &str) -> (r: Result<Vec<String>, GitError>)
    ensures
        r is Ok <==> valid_branch_name(branch@),
        r matches Err(e) ==> e.message@ == invalid_name_message(branch@),
        r matches Ok(args) ==> arg_views(args@) == seq!["merge"@, "--no-edit"@, "--"@, branch@],
{
    validate_branch_name(branch)?;
    let mut args = args_of(&["merge", "--no-edit", "--"]);
    let ghost a0 = arg_views(args@);
    args.push(String::from_str(branch));
    proof {
        assert(arg_views(args@) =~= a0.push(branch@));
    }
    Ok(args)
}

/// Argv rebasing the current branch onto `onto`.
pub fn rebase(onto: &str) -> (r: Result<Vec<String>, GitError>)
    ensures
        r is Ok <==> valid_branch_name(onto@),
        r matches Err(e) ==> e.message@ == invalid_name_message(onto@),
        r matches Ok(args) ==> arg_views(args@) == seq!["rebase"@, "--"@, onto@],
{
    validate_branch_name(onto)?;
    let mut args = args_of(&["rebase", "--"]);
    let ghost a0 = arg_views(args@);
    args.push(String::from_str(onto));
    proof {
        assert(arg_views(args@) =~= a0.push(onto@));
    }
    Ok(args)
}

/// Argv listing paths with unresolved merge conflicts.
pub fn conflicted_files_args() -> (args: Vec<String>)
    ensures
        arg_views(args@) == seq![
            "--no-optional-locks"@,
            "diff"@,
            "--name-only"@,
            "--diff-filter=U"@,
        ],
{
    args_of(&["--no-optional-locks", "diff", "--name-only", "--diff-filter=U"])
}

/// The conflicted paths of `conflicted_files_args` output: its non-empty
/// lines, lossy-decoded.
pub open spec fn conflict_list(out: Seq<u8>) -> Seq<Seq<char>> {
    nonempty(crate::bytes::split_bytes(out, 10u8)).map_values(|r: Seq<u8>| utf8_lossy(r))
}

/// Parses the conflicted paths.
pub fn conflicted_files(out: &[u8]) -> (paths: Vec<String>)
    ensures
        arg_views(paths@) == conflict_list(out@),
{
    let recs = nonempty_records(out, 10u8);
    let ghost rv = crate::bytes::byte_views(recs@);
    let mut paths: Vec<String> = Vec::new();
    let mut i: usize = 0;
    while i < recs.len()
        invariant
            i <= recs.len(),
            rv == crate::bytes::byte_views(recs@),
            rv == nonempty(crate::bytes::split_bytes(out@, 10u8)),
            paths@.len() == i,
            forall|j: int| 0 <= j < i ==> #[trigger] paths@[j]@ == utf8_lossy(rv[j]),
        decreases recs.len() - i,
    {
        proof {
            assert(rv[i as int] == recs@[i as int]@);
        }
        paths.push(lossy(recs[i].as_slice()));
        i += 1;
    }
    proof {
        assert(arg_views(paths@) =~= conflict_list(out@));
    }
    paths
}

/// What a failed merge or rebase comes to, given the conflicted paths
/// the follow-up query found (`None` when the query itself failed): with
/// conflicts, they are the `Ok` payload (and the operation is aborted —
/// there is no continue flow, and a wedged MERGE_HEAD or rebase would
/// block every later operation); otherwise the original error stands.
pub fn conflict_outcome(err: GitError, conflicts: Option<Vec<String>>) -> (r: Result<
    Vec<String>,
    GitError,
>)
    ensures
        match conflicts {
            Some(c) if c@.len() > 0 => r == Ok::<Vec<String>, GitError>(c),
            _ => r == Err::<Vec<String>, GitError>(err),
        },
{
    match conflicts {
        Some(c) if c.len() > 0 => Ok(c),
        _ => Err(err),
    }
}

/// Argv aborting a conflicted merge.
pub fn merge_abort_args() -> (args: Vec<String>)
    ensures
        arg_views(args@) == seq!["merge"@, "--abort"@],
{
    args_of(&["merge", "--abort"])
}

/// Argv aborting a conflicted rebase.
pub fn rebase_abort_args() -> (args: Vec<String>)
    ensures
        arg_views(args@) == seq!["rebase"@, "--abort"@],
{
    args_of(&["rebase", "--abort"])
}

} // verus!

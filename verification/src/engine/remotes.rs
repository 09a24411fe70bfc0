//! Remote operations: the argv of fetch, push, pull, add and remove
//! (validated names, the pushed-to remote taken from the branch's
//! upstream), and parsing `git remote -v`.

use crate::engine::{arg_views, args_of, GitError};
use crate::text::{
    chars_of, opt_text, debug_quoted, eq_str, first_index, first_index_of, has_char, is_first, last_index,
    last_index_of, lines, lines_of, slice_vec, str_debug, string_from, trim, trim_end_char,
    trim_end_char_vec, trim_start_char, trim_start_char_vec, trim_vec, views,
};
use vstd::prelude::*;

verus! {

/// Argv fetching all remotes, pruning stale tracking refs.
pub fn fetch() -> (args: Vec<String>)
    ensures
        arg_views(args@) == seq!["fetch"@, "--all"@, "--prune"@, "-q"@],
{
    args_of(&["fetch", "--all", "--prune", "-q"])
}

/// Argv pulling with `--ff-only` (never creates merge commits).
pub fn pull() -> (args: Vec<String>)
    ensures
        arg_views(args@) == seq!["pull"@, "--ff-only"@, "-q"@],
{
    args_of(&["pull", "--ff-only", "-q"])
}

pub open spec fn invalid_branch_message(name: Seq<char>) -> Seq<char> {
    "invalid branch name: "@ + str_debug(name)
}

/// A pushed branch may not start with `-` (option injection).
fn check_pushed_branch(branch: &str) -> (r: Result<(), GitError>)
    ensures
        r is Ok <==> !(branch@.len() > 0 && branch@[0] == '-'),
        r matches Err(e) ==> e.message@ == invalid_branch_message(branch@),
{
    let v = chars_of(branch);
    if v.len() > 0 && v[0] == '-' {
        let mut message = String::from_str("invalid branch name: ");
        message.append(debug_quoted(branch).as_str());
        return Err(GitError { message });
    }
    Ok(())
}

/// Argv asking which remote the branch's upstream tracks.
pub fn upstream_remote_args(branch: &str) -> (r: Result<Vec<String>, GitError>)
    ensures
        r is Ok <==> !(branch@.len() > 0 && branch@[0] == '-'),
        r matches Err(e) ==> e.message@ == invalid_branch_message(branch@),
        r matches Ok(args) ==> arg_views(args@) == seq![
            "--no-optional-locks"@,
            "for-each-ref"@,
            "--format=%(upstream:remotename)"@,
            "refs/heads/"@ + branch@,
        ],
{
    check_pushed_branch(branch)?;
    let mut args = args_of(&["--no-optional-locks", "for-each-ref", "--format=%(upstream:remotename)"]);
    let mut r = String::from_str("refs/heads/");
    r.append(branch);
    let ghost a0 = arg_views(args@);
    args.push(r);
    proof {
        assert(arg_views(args@) =~= a0.push("refs/heads/"@ + branch@));
    }
    Ok(args)
}

/// The remote to push to: what the upstream query printed, trimmed,
/// when the query succeeded and printed something; `origin` otherwise
/// (a not-yet-pushed branch).
pub open spec fn push_remote(upstream: Option<Seq<char>>) -> Seq<char> {
    match upstream {
        Some(out) if trim(out).len() > 0 => trim(out),
        _ => "origin"@,
    }
}

fn remote_of(upstream: Option<&str>) -> (r: String)
    ensures
        r@ == push_remote(opt_text(upstream)),
{
    match upstream {
        Some(out) => {
            let t = trim_vec(&chars_of(out));
            if t.len() > 0 {
                string_from(&t)
            } else {
                String::from_str("origin")
            }
        },
        None => String::from_str("origin"),
    }
}

/// Argv pushing `branch` to the remote its upstream tracks, given what
/// the upstream query printed (`None` when it failed) — never a
/// hard-coded remote name but for the `origin` fallback.
pub fn push(branch: &str, set_upstream: bool, upstream: Option<&str>) -> (r: Result<
    Vec<String>,
    GitError,
>)
    ensures
        r is Ok <==> !(branch@.len() > 0 && branch@[0] == '-'),
        r matches Err(e) ==> e.message@ == invalid_branch_message(branch@),
        r matches Ok(args) ==> arg_views(args@) == seq!["push"@, "-q"@] + (if set_upstream {
            seq!["--set-upstream"@]
        } else {
            seq![]
        }) + seq![push_remote(opt_text(upstream)), branch@],
{
    check_pushed_branch(branch)?;
    let remote = remote_of(upstream);
    let mut args = args_of(&["push", "-q"]);
    let ghost a0 = arg_views(args@);
    if set_upstream {
        args.push(String::from_str("--set-upstream"));
    }
    let ghost a1 = arg_views(args@);
    proof {
        assert(a1 =~= a0 + (if set_upstream {
            seq!["--set-upstream"@]
        } else {
            Seq::<Seq<char>>::empty()
        }));
    }
    args.push(remote);
    args.push(String::from_str(branch));
    proof {
        assert(arg_views(args@) =~= a1 + seq![push_remote(opt_text(upstream)), branch@]);
    }
    Ok(args)
}

/// Argv force-pushing with lease to the branch's tracked remote: it
/// refuses when someone else pushed in the meantime.
pub fn push_force_with_lease(branch: &str, upstream: Option<&str>) -> (r: Result<
    Vec<String>,
    GitError,
>)
    ensures
        r is Ok <==> !(branch@.len() > 0 && branch@[0] == '-'),
        r matches Err(e) ==> e.message@ == invalid_branch_message(branch@),
        r matches Ok(args) ==> arg_views(args@) == seq![
            "push"@,
            "-q"@,
            "--force-with-lease"@,
            push_remote(opt_text(upstream)),
            branch@,
        ],
{
    check_pushed_branch(branch)?;
    let remote = remote_of(upstream);
    let mut args = args_of(&["push", "-q", "--force-with-lease"]);
    let ghost a0 = arg_views(args@);
    args.push(remote);
    args.push(String::from_str(branch));
    proof {
        assert(arg_views(args@) =~= a0 + seq![push_remote(opt_text(upstream)), branch@]);
    }
    Ok(args)
}

// ---------------------------------------------------------------------
// `git remote -v`
// ---------------------------------------------------------------------

/// One configured remote.
#[derive(Clone, Debug, PartialEq, Eq)]
pub struct RemoteInfo {
    pub name: String,
    /// The fetch URL (what pulls and fetches use).
    pub fetch_url: String,
    /// The push URL; equals `fetch_url` unless explicitly split.
    pub push_url: String,
}

pub struct RemoteView {
    pub name: Seq<char>,
    pub fetch_url: Seq<char>,
    pub push_url: Seq<char>,
}

impl View for RemoteInfo {
    type V = RemoteView;

    open spec fn view(&self) -> RemoteView {
        RemoteView { name: self.name@, fetch_url: self.fetch_url@, push_url: self.push_url@ }
    }
}

pub open spec fn remote_views(s: Seq<RemoteInfo>) -> Seq<RemoteView> {
    s.map_values(|r: RemoteInfo| r@)
}

/// Argv listing the remotes with their URLs.
pub fn list_args() -> (args: Vec<String>)
    ensures
        arg_views(args@) == seq!["--no-optional-locks"@, "remote"@, "-v"@],
{
    args_of(&["--no-optional-locks", "remote", "-v"])
}

/// A `name<TAB>url (fetch|push)` line: the name, the trimmed URL, and
/// whether it is the push URL. `None` when the line lacks the tab or
/// the space, or the name or URL is empty.
pub open spec fn remote_line(line: Seq<char>) -> Option<(Seq<char>, Seq<char>, bool)> {
    if has_char(line, '\t') {
        let k = first_index(line, '\t');
        let name = line.take(k);
        let rest = line.skip(k + 1);
        match last_index(rest, ' ') {
            Some(j) => {
                let url = trim(rest.take(j));
                let kind = trim_end_char(trim_start_char(rest.skip(j + 1), '('), ')');
                if name.len() == 0 || url.len() == 0 {
                    None
                } else {
                    Some((name, url, kind == "push"@))
                }
            },
            None => None,
        }
    } else {
        None
    }
}

/// `k` is the position of the first remote named `name`.
pub open spec fn is_first_named(rs: Seq<RemoteView>, name: Seq<char>, k: int) -> bool {
    &&& 0 <= k < rs.len()
    &&& rs[k].name == name
    &&& forall|j: int| 0 <= j < k ==> rs[j].name != name
}

/// A line adds a remote the first time its name appears; a later push
/// line of the same remote sets its push URL.
pub open spec fn remote_step(rs: Seq<RemoteView>, line: Seq<char>) -> Seq<RemoteView> {
    match remote_line(line) {
        None => rs,
        Some((name, url, is_push)) => {
            if exists|k: int| is_first_named(rs, name, k) {
                let k = choose|k: int| is_first_named(rs, name, k);
                if is_push {
                    rs.update(k, RemoteView { push_url: url, ..rs[k] })
                } else {
                    rs
                }
            } else {
                rs.push(
                    RemoteView {
                        name,
                        fetch_url: url,
                        push_url: if is_push {
                            url
                        } else {
                            seq![]
                        },
                    },
                )
            }
        },
    }
}

pub open spec fn remote_fold(ls: Seq<Seq<char>>) -> Seq<RemoteView>
    decreases ls.len(),
{
    if ls.len() == 0 {
        seq![]
    } else {
        remote_step(remote_fold(ls.drop_last()), ls.last())
    }
}

/// The remotes with a fetch URL.
pub open spec fn fetched(rs: Seq<RemoteView>) -> Seq<RemoteView>
    decreases rs.len(),
{
    if rs.len() == 0 {
        seq![]
    } else if rs.last().fetch_url.len() > 0 {
        fetched(rs.drop_last()).push(rs.last())
    } else {
        fetched(rs.drop_last())
    }
}

/// A remote without its own push URL pushes to its fetch URL.
pub open spec fn with_push_url(r: RemoteView) -> RemoteView {
    if r.push_url.len() == 0 {
        RemoteView { push_url: r.fetch_url, ..r }
    } else {
        r
    }
}

/// The remotes `git remote -v` lists, in first-seen order.
pub open spec fn remote_list(out: Seq<char>) -> Seq<RemoteView> {
    fetched(remote_fold(lines(out))).map_values(|r: RemoteView| with_push_url(r))
}

proof fn lemma_fetched_all(rs: Seq<RemoteView>)
    requires
        forall|i: int| 0 <= i < rs.len() ==> (#[trigger] rs[i]).fetch_url.len() > 0,
    ensures
        fetched(rs) == rs,
    decreases rs.len(),
{
    if rs.len() > 0 {
        lemma_fetched_all(rs.drop_last());
        assert(rs.drop_last().push(rs.last()) =~= rs);
    }
}

proof fn lemma_fold_fetch_urls(ls: Seq<Seq<char>>)
    ensures
        forall|i: int|
            0 <= i < remote_fold(ls).len() ==> (#[trigger] remote_fold(ls)[i]).fetch_url.len() > 0,
    decreases ls.len(),
{
    if ls.len() > 0 {
        let prev = remote_fold(ls.drop_last());
        lemma_fold_fetch_urls(ls.drop_last());
        let cur = remote_fold(ls);
        assert(cur == remote_step(prev, ls.last()));
        match remote_line(ls.last()) {
            None => {},
            Some((name, url, is_push)) => {
                if exists|k: int| is_first_named(prev, name, k) {
                    let k = choose|k: int| is_first_named(prev, name, k);
                    assert forall|i: int| 0 <= i < cur.len() implies (#[trigger] cur[i]).fetch_url.len()
                        > 0 by {
                        assert(cur[i].fetch_url == prev[i].fetch_url);
                    }
                } else {
                    assert forall|i: int| 0 <= i < cur.len() implies (#[trigger] cur[i]).fetch_url.len()
                        > 0 by {
                        if i < prev.len() {
                            assert(cur[i] == prev[i]);
                        }
                    }
                }
            },
        }
    }
}

fn parse_remote_line(line: &Vec<char>) -> (r: Option<(String, String, bool)>)
    ensures
        match r {
            Some((n, u, p)) => remote_line(line@) == Some((n@, u@, p)),
            None => remote_line(line@) is None,
        },
{
    let k = match first_index_of(line, '\t') {
        Some(k) => k,
        None => return None,
    };
    let name = slice_vec(line, 0, k);
    let rest = slice_vec(line, k + 1, line.len());
    proof {
        assert(name@ =~= line@.take(k as int));
        assert(rest@ =~= line@.skip(k + 1));
    }
    let j = match last_index_of(&rest, ' ') {
        Some(j) => j,
        None => return None,
    };
    let url = trim_vec(&slice_vec(&rest, 0, j));
    let kind = trim_end_char_vec(trim_start_char_vec(&slice_vec(&rest, j + 1, rest.len()), '('), ')');
    proof {
        assert(rest@.take(j as int) =~= rest@.subrange(0, j as int));
        assert(rest@.skip(j + 1) =~= rest@.subrange(j + 1, rest@.len() as int));
    }
    if name.len() == 0 || url.len() == 0 {
        return None;
    }
    let is_push = eq_str(&kind, "push");
    Some((string_from(&name), string_from(&url), is_push))
}

fn find_named(rs: &Vec<RemoteInfo>, name: &String) -> (r: Option<usize>)
    ensures
        r matches Some(k) ==> is_first_named(remote_views(rs@), name@, k as int),
        r is None ==> !exists|k: int| is_first_named(remote_views(rs@), name@, k),
{
    let ghost v = remote_views(rs@);
    let mut i: usize = 0;
    while i < rs.len()
        invariant
            i <= rs.len(),
            v == remote_views(rs@),
            forall|j: int| 0 <= j < i ==> v[j].name != name@,
        decreases rs.len() - i,
    {
        proof {
            assert(v[i as int] == rs@[i as int]@);
        }
        if rs[i].name == *name {
            return Some(i);
        }
        i += 1;
    }
    proof {
        if exists|k: int| is_first_named(v, name@, k) {
            let k = choose|k: int| is_first_named(v, name@, k);
            assert(v[k].name == name@);
        }
    }
    None
}

/// Parses `git remote -v` output into the remotes with their fetch and
/// push URLs.
pub fn list(out: &str) -> (remotes: Vec<RemoteInfo>)
    ensures
        remote_views(remotes@) == remote_list(out@),
{
    let ls = lines_of(&chars_of(out));
    let mut rs: Vec<RemoteInfo> = Vec::new();
    let mut i: usize = 0;
    proof {
        assert(remote_views(rs@) =~= Seq::<RemoteView>::empty());
    }
    while i < ls.len()
        invariant
            i <= ls.len(),
            views(ls@) == lines(out@),
            remote_views(rs@) == remote_fold(views(ls@).take(i as int)),
        decreases ls.len() - i,
    {
        proof {
            assert(views(ls@).take(i + 1).drop_last() =~= views(ls@).take(i as int));
            assert(views(ls@)[i as int] == ls@[i as int]@);
        }
        let ghost before = remote_views(rs@);
        match parse_remote_line(&ls[i]) {
            Some((name, url, is_push)) => {
                match find_named(&rs, &name) {
                    Some(k) => {
                        proof {
                            let k2 = choose|k2: int| is_first_named(before, name@, k2);
                            if k2 < k {
                                assert(before[k2].name != name@);
                            } else if k2 > k {
                                assert(before[k as int].name != name@);
                            }
                        }
                        if is_push {
                            proof {
                                assert(before[k as int] == rs@[k as int]@);
                            }
                            let nm = rs[k].name.clone();
                            let fetch_url = rs[k].fetch_url.clone();
                            let ghost uv = url@;
                            rs.set(k, RemoteInfo { name: nm, fetch_url, push_url: url });
                            proof {
                                assert(remote_views(rs@) =~= before.update(
                                    k as int,
                                    (RemoteView { push_url: uv, ..before[k as int] }),
                                ));
                            }
                        }
                    },
                    None => {
                        let push_url = if is_push {
                            url.clone()
                        } else {
                            String::new()
                        };
                        let r = RemoteInfo { name, fetch_url: url, push_url };
                        rs.push(r);
                        proof {
                            assert(remote_views(rs@) =~= before.push(r@));
                        }
                    },
                }
            },
            None => {},
        }
        i += 1;
    }
    let ghost f = remote_fold(lines(out@));
    proof {
        assert(views(ls@).take(ls.len() as int) =~= views(ls@));
        lemma_fold_fetch_urls(lines(out@));
        lemma_fetched_all(f);
    }
    let mut j: usize = 0;
    while j < rs.len()
        invariant
            j <= rs.len(),
            rs@.len() == f.len(),
            forall|k: int| 0 <= k < j ==> (#[trigger] rs@[k])@ == with_push_url(f[k]),
            forall|k: int| j <= k < rs@.len() ==> (#[trigger] rs@[k])@ == f[k],
        decreases rs.len() - j,
    {
        if rs[j].push_url.as_str().is_empty() {
            let nm = rs[j].name.clone();
            let fetch_url = rs[j].fetch_url.clone();
            let push_url = rs[j].fetch_url.clone();
            rs.set(j, RemoteInfo { name: nm, fetch_url, push_url });
        }
        j += 1;
    }
    proof {
        assert(remote_views(rs@) =~= fetched(f).map_values(|r: RemoteView| with_push_url(r)));
    }
    rs
}

// ---------------------------------------------------------------------
// Adding and removing remotes
// ---------------------------------------------------------------------

/// An ASCII control character.
pub open spec fn is_control(c: char) -> bool {
    c < ' ' || c == '\u{7f}'
}

/// Remote names cannot be empty, start with `-`, or hold `/`, control
/// characters or spaces.
pub open spec fn valid_remote_name(name: Seq<char>) -> bool {
    &&& name.len() > 0
    &&& name[0] != '-'
    &&& forall|i: int|
        0 <= i < name.len() ==> !is_control(#[trigger] name[i]) && name[i] != ' ' && name[i]
            != '/'
}

/// Remote URLs cannot be empty or hold control characters.
pub open spec fn valid_remote_url(url: Seq<char>) -> bool {
    url.len() > 0 && forall|i: int| 0 <= i < url.len() ==> !is_control(#[trigger] url[i])
}

pub open spec fn invalid_remote_message(name: Seq<char>) -> Seq<char> {
    "invalid remote name: "@ + str_debug(name)
}

pub open spec fn invalid_url_message(url: Seq<char>) -> Seq<char> {
    "invalid remote url: "@ + str_debug(url)
}

fn validate_remote_name(name: &str) -> (r: Result<(), GitError>)
    ensures
        r is Ok <==> valid_remote_name(name@),
        r matches Err(e) ==> e.message@ == invalid_remote_message(name@),
{
    let v = chars_of(name);
    let mut ok = v.len() > 0 && v[0] != '-';
    let mut i: usize = 0;
    while i < v.len()
        invariant
            i <= v.len(),
            v@ == name@,
            ok == (v@.len() > 0 && v@[0] != '-' && forall|j: int|
                0 <= j < i ==> !is_control(#[trigger] v@[j]) && v@[j] != ' ' && v@[j] != '/'),
        decreases v.len() - i,
    {
        let c = v[i];
        if c < ' ' || c == '\u{7f}' || c == ' ' || c == '/' {
            ok = false;
        }
        i += 1;
    }
    if ok {
        Ok(())
    } else {
        let mut message = String::from_str("invalid remote name: ");
        message.append(debug_quoted(name).as_str());
        Err(GitError { message })
    }
}

fn validate_remote_url(url: &str) -> (r: Result<(), GitError>)
    ensures
        r is Ok <==> valid_remote_url(url@),
        r matches Err(e) ==> e.message@ == invalid_url_message(url@),
{
    let v = chars_of(url);
    let mut ok = v.len() > 0;
    let mut i: usize = 0;
    while i < v.len()
        invariant
            i <= v.len(),
            v@ == url@,
            ok == (v@.len() > 0 && forall|j: int| 0 <= j < i ==> !is_control(#[trigger] v@[j])),
        decreases v.len() - i,
    {
        let c = v[i];
        if c < ' ' || c == '\u{7f}' {
            ok = false;
        }
        i += 1;
    }
    if ok {
        Ok(())
    } else {
        let mut message = String::from_str("invalid remote url: ");
        message.append(debug_quoted(url).as_str());
        Err(GitError { message })
    }
}

/// Argv adding a remote; the name is checked before the URL.
pub fn add(name: &str, url: &str) -> (r: Result<Vec<String>, GitError>)
    ensures
        r is Ok <==> valid_remote_name(name@) && valid_remote_url(url@),
        r matches Err(e) ==> e.message@ == (if !valid_remote_name(name@) {
            invalid_remote_message(name@)
        } else {
            invalid_url_message(url@)
        }),
        r matches Ok(args) ==> arg_views(args@) == seq!["remote"@, "add"@, name@, url@],
{
    validate_remote_name(name)?;
    validate_remote_url(url)?;
    let mut args = args_of(&["remote", "add"]);
    let ghost a0 = arg_views(args@);
    args.push(String::from_str(name));
    args.push(String::from_str(url));
    proof {
        assert(arg_views(args@) =~= a0 + seq![name@, url@]);
    }
    Ok(args)
}

/// Argv removing a remote (its tracking refs go with it).
pub fn remove(name: &str) -> (r: Result<Vec<String>, GitError>)
    ensures
        r is Ok <==> valid_remote_name(name@),
        r matches Err(e) ==> e.message@ == invalid_remote_message(name@),
        r matches Ok(args) ==> arg_views(args@) == seq!["remote"@, "remove"@, name@],
{
    validate_remote_name(name)?;
    let mut args = args_of(&["remote", "remove"]);
    let ghost a0 = arg_views(args@);
    args.push(String::from_str(name));
    proof {
        assert(arg_views(args@) =~= a0.push(name@));
    }
    Ok(args)
}

} // verus!

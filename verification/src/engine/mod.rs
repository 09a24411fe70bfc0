//! Typed git CLI layer: the argv of every git command the app runs, and
//! the parsers and decisions applied to what git prints. Running the
//! processes is the caller's part.

pub mod branches;
pub mod commit;
pub mod diff;
pub mod flow;
pub mod history;
pub mod mutate;
pub mod remotes;
pub mod rewrite;
pub mod sequence;
pub mod stash;
pub mod working_copy;

use crate::text::{
    chars_of, contains, contains_vec, join, lines, lines_of, lossy, string_from, trim, trim_end,
    trim_end_vec, trim_vec, utf8_lossy, views,
};
use vstd::prelude::*;

verus! {

#[derive(Debug)]
pub struct GitError {
    pub message: String,
}

pub type Result<T> = core::result::Result<T, GitError>;

/// The text git uses when another process holds the index lock.
pub open spec fn lock_marker() -> Seq<char> {
    "index.lock"@
}

impl GitError {
    /// git refused because another process holds index.lock.
    pub fn is_lock_error(&self) -> (b: bool)
        ensures
            b == contains(self.message@, lock_marker()),
    {
        let m = chars_of(self.message.as_str());
        let p = chars_of("index.lock");
        contains_vec(&m, &p)
    }
}

/// The message for a failed git run: the last stderr line that names
/// `index.lock` (so `is_lock_error` can classify it), else the last
/// stderr line, else "git failed".
pub open spec fn stderr_message(stderr: Seq<u8>) -> Seq<char> {
    let ls = lines(trim(utf8_lossy(stderr)));
    if exists|i: int| 0 <= i < ls.len() && contains(ls[i], lock_marker()) {
        let i = choose|i: int|
            0 <= i < ls.len() && contains(ls[i], lock_marker()) && forall|j: int|
                i < j < ls.len() ==> !contains(ls[j], lock_marker());
        ls[i]
    } else if ls.len() > 0 {
        ls.last()
    } else {
        "git failed"@
    }
}

/// Builds the error for a failed git run from its stderr.
pub fn stderr_error(stderr: &[u8]) -> (e: GitError)
    ensures
        e.message@ == stderr_message(stderr@),
{
    let text = lossy(stderr);
    let t = trim_vec(&chars_of(text.as_str()));
    let ls = lines_of(&t);
    let marker = chars_of("index.lock");
    let mut i = ls.len();
    while i > 0
        invariant
            i <= ls.len(),
            views(ls@) == lines(trim(utf8_lossy(stderr@))),
            marker@ == lock_marker(),
            forall|j: int| i <= j < ls.len() ==> !contains(ls@[j]@, lock_marker()),
        decreases i,
    {
        if contains_vec(&ls[i - 1], &marker) {
            let ghost s = views(ls@);
            proof {
                assert(s[i - 1] == ls@[i - 1]@);
                assert forall|j: int| i - 1 < j < s.len() implies !contains(s[j], lock_marker()) by {
                    assert(s[j] == ls@[j]@);
                }
                let k = choose|k: int|
                    0 <= k < s.len() && contains(s[k], lock_marker()) && forall|j: int|
                        k < j < s.len() ==> !contains(s[j], lock_marker());
                if k < i - 1 {
                    assert(!contains(s[i - 1], lock_marker()));
                } else if k > i - 1 {
                    assert(!contains(s[k], lock_marker()));
                }
            }
            return GitError { message: string_from(&ls[i - 1]) };
        }
        i -= 1;
    }
    proof {
        let s = views(ls@);
        assert forall|j: int| 0 <= j < s.len() implies !contains(s[j], lock_marker()) by {
            assert(s[j] == ls@[j]@);
        }
    }
    if ls.len() > 0 {
        let last = &ls[ls.len() - 1];
        proof {
            assert(views(ls@).last() == last@);
        }
        GitError { message: string_from(last) }
    } else {
        GitError { message: String::from_str("git failed") }
    }
}

/// What a finished git run comes to, as raw bytes: stdout verbatim on
/// success (it must survive byte-exact where it is not UTF-8, e.g. hunks
/// destined for `git apply`), else the error built from stderr.
pub fn run_bytes(success: bool, stdout: Vec<u8>, stderr: &[u8]) -> (r: Result<Vec<u8>>)
    ensures
        success ==> (r matches Ok(out) && out@ == stdout@),
        !success ==> (r matches Err(e) && e.message@ == stderr_message(stderr@)),
{
    if success {
        Ok(stdout)
    } else {
        Err(stderr_error(stderr))
    }
}

/// A finished run's stdout, lossy-decoded and not trimmed (`-z` records
/// are parsed positionally).
pub fn run(success: bool, stdout: &[u8], stderr: &[u8]) -> (r: Result<String>)
    ensures
        success ==> (r matches Ok(out) && out@ == utf8_lossy(stdout@)),
        !success ==> (r matches Err(e) && e.message@ == stderr_message(stderr@)),
{
    if success {
        Ok(lossy(stdout))
    } else {
        Err(stderr_error(stderr))
    }
}

/// A finished run's stdout, lossy-decoded and right-trimmed.
pub fn run_trimmed(success: bool, stdout: &[u8], stderr: &[u8]) -> (r: Result<String>)
    ensures
        success ==> (r matches Ok(out) && out@ == trim_end(utf8_lossy(stdout@))),
        !success ==> (r matches Err(e) && e.message@ == stderr_message(stderr@)),
{
    if success {
        let out = lossy(stdout);
        Ok(string_from(&trim_end_vec(&chars_of(out.as_str()))))
    } else {
        Err(stderr_error(stderr))
    }
}

/// The text of each argument.
pub open spec fn arg_views(v: Seq<String>) -> Seq<Seq<char>> {
    v.map_values(|s: String| s@)
}

/// The text of each literal.
pub open spec fn str_views(v: Seq<&str>) -> Seq<Seq<char>> {
    v.map_values(|s: &str| s@)
}

/// An owned argument vector holding the given texts.
pub fn args_of(parts: &[&str]) -> (r: Vec<String>)
    ensures
        arg_views(r@) == str_views(parts@),
{
    let mut r: Vec<String> = Vec::new();
    let mut i: usize = 0;
    while i < parts.len()
        invariant
            i <= parts@.len(),
            r@.len() == i,
            forall|j: int| 0 <= j < i ==> #[trigger] r@[j]@ == parts@[j]@,
        decreases parts@.len() - i,
    {
        let a = String::from_str(parts[i]);
        r.push(a);
        i += 1;
    }
    proof {
        assert(arg_views(r@) =~= str_views(parts@));
    }
    r
}

/// The texts joined with `sep` between consecutive ones.
pub fn join_strings(parts: &Vec<String>, sep: &str) -> (s: String)
    ensures
        s@ == join(arg_views(parts@), sep@),
{
    let ghost av = arg_views(parts@);
    let mut s = String::new();
    let mut k: usize = 0;
    proof {
        assert(av.take(0) =~= Seq::<Seq<char>>::empty());
    }
    while k < parts.len()
        invariant
            k <= parts.len(),
            av == arg_views(parts@),
            s@ == join(av.take(k as int), sep@),
        decreases parts.len() - k,
    {
        proof {
            assert(av[k as int] == parts@[k as int]@);
            assert(av.take(k + 1).drop_last() =~= av.take(k as int));
        }
        let ghost before = s@;
        if k > 0 {
            s.append(sep);
        }
        s.append(parts[k].as_str());
        proof {
            if k == 0 {
                assert(av.take(1) =~= seq![av[0]]);
                assert(s@ =~= av[0]);
            } else {
                assert(s@ =~= before + sep@ + av[k as int]);
            }
        }
        k += 1;
    }
    proof {
        assert(av.take(parts.len() as int) =~= av);
    }
    s
}

/// The `:(literal)` pathspec magic prefix.
pub open spec fn literal_magic() -> Seq<char> {
    ":(literal)"@
}

/// A single known path as a `:(literal)` pathspec (never
/// glob-interpreted, never option-parsed).
pub fn literal(rel_path: &str) -> (r: String)
    ensures
        r@ == literal_magic() + rel_path@,
{
    let mut r = String::from_str(":(literal)");
    r.append(rel_path);
    r
}

} // verus!

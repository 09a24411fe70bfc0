//! Slash-separated path text, as git prints worktree paths: the last
//! component, the parent, and joining. `.` and `..` components are kept
//! as written (git prints normalized absolute paths).

use crate::text::{chars_of, push_char, slice_vec, string_from, trim_end_char, trim_end_char_vec};
use vstd::prelude::*;

verus! {

/// `k` is the last position of `c` in `s`.
pub open spec fn is_last(s: Seq<char>, c: char, k: int) -> bool {
    &&& 0 <= k < s.len()
    &&& s[k] == c
    &&& forall|j: int| k < j < s.len() ==> s[j] != c
}

pub open spec fn last_slash(s: Seq<char>) -> Option<int> {
    if exists|k: int| is_last(s, '/', k) {
        Some(choose|k: int| is_last(s, '/', k))
    } else {
        None
    }
}

/// The last component of `p`; `None` for an empty path, the root, or a
/// path ending in `..`.
pub open spec fn file_name(p: Seq<char>) -> Option<Seq<char>> {
    let t = trim_end_char(p, '/');
    let name = match last_slash(t) {
        Some(k) => t.skip(k + 1),
        None => t,
    };
    if t.len() == 0 || name == ".."@ {
        None
    } else {
        Some(name)
    }
}

/// Everything before the last component of `p`: `""` for a bare name,
/// `/` for a top-level absolute path, `None` for the root or an empty
/// path.
pub open spec fn parent(p: Seq<char>) -> Option<Seq<char>> {
    let t = trim_end_char(p, '/');
    if t.len() == 0 {
        None
    } else {
        match last_slash(t) {
            Some(k) => {
                let head = trim_end_char(t.take(k), '/');
                if head.len() == 0 {
                    Some(seq!['/'])
                } else {
                    Some(head)
                }
            },
            None => Some(seq![]),
        }
    }
}

/// `name` appended to `base` with one separator; an absolute `name`
/// replaces `base`.
pub open spec fn join(base: Seq<char>, name: Seq<char>) -> Seq<char> {
    if name.len() > 0 && name[0] == '/' {
        name
    } else if base.len() == 0 {
        name
    } else if base.last() == '/' {
        base + name
    } else {
        base + seq!['/'] + name
    }
}

fn last_slash_of(v: &Vec<char>) -> (r: Option<usize>)
    ensures
        r matches Some(k) ==> last_slash(v@) == Some(k as int),
        r is None ==> last_slash(v@) is None,
{
    let mut i = v.len();
    while i > 0
        invariant
            i <= v.len(),
            forall|j: int| i <= j < v.len() ==> v@[j] != '/',
        decreases i,
    {
        if v[i - 1] == '/' {
            proof {
                let k = choose|k: int| is_last(v@, '/', k);
                assert(is_last(v@, '/', i - 1));
                if k < i - 1 {
                    assert(v@[i - 1] != '/');
                } else if k > i - 1 {
                    assert(v@[k] != '/');
                }
            }
            return Some(i - 1);
        }
        i -= 1;
    }
    proof {
        if exists|k: int| is_last(v@, '/', k) {
            let k = choose|k: int| is_last(v@, '/', k);
            assert(v@[k] == '/');
        }
    }
    None
}

fn is_dotdot(v: &Vec<char>) -> (b: bool)
    ensures
        b == (v@ == ".."@),
{
    let d = chars_of("..");
    proof {
        reveal_strlit("..");
    }
    let b = v.len() == 2 && v[0] == '.' && v[1] == '.';
    proof {
        if b {
            assert(v@ =~= d@);
        } else if v@.len() == 2 {
            assert(v@ != d@) by {
                if v@[0] != '.' {
                    assert(v@[0] != d@[0]);
                } else {
                    assert(v@[1] != d@[1]);
                }
            }
        }
    }
    b
}

/// The last component of `path`.
pub fn file_name_of(path: &str) -> (r: Option<String>)
    ensures
        r matches Some(s) ==> file_name(path@) == Some(s@),
        r is None ==> file_name(path@) is None,
{
    let t = trim_end_char_vec(chars_of(path), '/');
    if t.len() == 0 {
        return None;
    }
    let name = match last_slash_of(&t) {
        Some(k) => {
            let n = slice_vec(&t, k + 1, t.len());
            proof {
                assert(n@ =~= t@.skip(k + 1));
            }
            n
        },
        None => t.clone(),
    };
    if is_dotdot(&name) {
        None
    } else {
        Some(string_from(&name))
    }
}

/// The parent of `path`.
pub fn parent_of(path: &str) -> (r: Option<String>)
    ensures
        r matches Some(s) ==> parent(path@) == Some(s@),
        r is None ==> parent(path@) is None,
{
    let t = trim_end_char_vec(chars_of(path), '/');
    if t.len() == 0 {
        return None;
    }
    match last_slash_of(&t) {
        Some(k) => {
            let h = slice_vec(&t, 0, k);
            proof {
                assert(h@ =~= t@.take(k as int));
            }
            let head = trim_end_char_vec(h, '/');
            if head.len() == 0 {
                let mut s = String::new();
                push_char(&mut s, '/');
                proof {
                    assert(s@ =~= seq!['/']);
                }
                Some(s)
            } else {
                Some(string_from(&head))
            }
        },
        None => {
            let s = String::new();
            proof {
                assert(s@ =~= Seq::<char>::empty());
            }
            Some(s)
        },
    }
}

/// `name` joined onto `base`.
pub fn join_path(base: &str, name: &str) -> (r: String)
    ensures
        r@ == join(base@, name@),
{
    let n = chars_of(name);
    let b = chars_of(base);
    if n.len() > 0 && n[0] == '/' {
        return string_from(&n);
    }
    if b.len() == 0 {
        return string_from(&n);
    }
    let mut r = string_from(&b);
    if b[b.len() - 1] != '/' {
        push_char(&mut r, '/');
    }
    r.append(name);
    r
}

} // verus!

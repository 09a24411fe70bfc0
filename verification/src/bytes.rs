//! Byte-level splitting for git's NUL/SOH-separated record formats.

use vstd::prelude::*;

verus! {

pub open spec fn has_byte(s: Seq<u8>, b: u8) -> bool {
    exists|k: int| 0 <= k < s.len() && s[k] == b
}

pub open spec fn is_first_byte(s: Seq<u8>, b: u8, k: int) -> bool {
    &&& 0 <= k < s.len()
    &&& s[k] == b
    &&& forall|j: int| 0 <= j < k ==> s[j] != b
}

pub open spec fn first_byte_index(s: Seq<u8>, b: u8) -> int {
    choose|k: int| is_first_byte(s, b, k)
}

/// `s` split at every `sep` byte (`<[u8]>::split`): at least one piece.
pub open spec fn split_bytes(s: Seq<u8>, sep: u8) -> Seq<Seq<u8>>
    decreases s.len(),
{
    if has_byte(s, sep) {
        let k = first_byte_index(s, sep);
        if 0 <= k < s.len() {
            seq![s.take(k)] + split_bytes(s.skip(k + 1), sep)
        } else {
            seq![s]
        }
    } else {
        seq![s]
    }
}

pub open spec fn byte_views(r: Seq<Vec<u8>>) -> Seq<Seq<u8>> {
    r.map_values(|x: Vec<u8>| x@)
}

pub proof fn lemma_first_byte_unique(s: Seq<u8>, b: u8, k: int)
    requires
        is_first_byte(s, b, k),
    ensures
        has_byte(s, b),
        first_byte_index(s, b) == k,
{
    let j = first_byte_index(s, b);
    assert(is_first_byte(s, b, j));
    if j < k {
        assert(s[j] != b);
    } else if k < j {
        assert(s[k] != b);
    }
}

pub proof fn lemma_split_bytes_nonempty(s: Seq<u8>, b: u8)
    ensures
        split_bytes(s, b).len() >= 1,
    decreases s.len(),
{
    if has_byte(s, b) {
        let k = first_byte_index(s, b);
        if 0 <= k < s.len() {
            lemma_split_bytes_nonempty(s.skip(k + 1), b);
        }
    }
}

fn find_byte(v: &[u8], from: usize, b: u8) -> (k: usize)
    requires
        from <= v@.len(),
    ensures
        from <= k <= v@.len(),
        forall|j: int| from <= j < k ==> v@[j] != b,
        k < v@.len() ==> v@[k as int] == b,
{
    let mut k = from;
    while k < v.len()
        invariant
            from <= k <= v@.len(),
            forall|j: int| from <= j < k ==> v@[j] != b,
        decreases v@.len() - k,
    {
        if v[k] == b {
            return k;
        }
        k += 1;
    }
    k
}

pub(crate) fn copy_range(v: &[u8], lo: usize, hi: usize) -> (r: Vec<u8>)
    requires
        lo <= hi <= v@.len(),
    ensures
        r@ == v@.subrange(lo as int, hi as int),
{
    let mut r: Vec<u8> = Vec::new();
    let mut i = lo;
    while i < hi
        invariant
            lo <= i <= hi <= v@.len(),
            r@ == v@.subrange(lo as int, i as int),
        decreases hi - i,
    {
        r.push(v[i]);
        i += 1;
        proof {
            assert(r@ =~= v@.subrange(lo as int, i as int));
        }
    }
    r
}

/// `v` split at every `b` byte.
pub fn split_on_byte(v: &[u8], b: u8) -> (r: Vec<Vec<u8>>)
    ensures
        byte_views(r@) == split_bytes(v@, b),
{
    let mut r: Vec<Vec<u8>> = Vec::new();
    let mut pos: usize = 0;
    proof {
        assert(v@.skip(0) =~= v@);
    }
    loop
        invariant
            pos <= v@.len(),
            byte_views(r@) + split_bytes(v@.skip(pos as int), b) == split_bytes(v@, b),
        decreases v@.len() - pos,
    {
        let k = find_byte(v, pos, b);
        let piece = copy_range(v, pos, k);
        let ghost t = v@.skip(pos as int);
        let ghost prev = byte_views(r@);
        r.push(piece);
        if k == v.len() {
            proof {
                assert(t =~= v@.subrange(pos as int, k as int));
                if has_byte(t, b) {
                    let i = choose|i: int| 0 <= i < t.len() && t[i] == b;
                    assert(t[i] == v@[pos + i]);
                }
                assert(byte_views(r@) =~= prev + seq![t]);
            }
            return r;
        }
        proof {
            assert forall|j: int| 0 <= j < k - pos implies t[j] != b by {
                assert(t[j] == v@[pos + j]);
            }
            assert(is_first_byte(t, b, k - pos));
            lemma_first_byte_unique(t, b, k - pos);
            assert(t.take(k - pos) =~= v@.subrange(pos as int, k as int));
            assert(t.skip(k - pos + 1) =~= v@.skip(k + 1));
            assert(byte_views(r@) =~= prev + seq![t.take(k - pos)]);
            assert(byte_views(r@) + split_bytes(v@.skip(k + 1), b) =~= prev + split_bytes(t, b));
        }
        pos = k + 1;
    }
}

/// The non-empty pieces, in order.
pub open spec fn nonempty(s: Seq<Seq<u8>>) -> Seq<Seq<u8>>
    decreases s.len(),
{
    if s.len() == 0 {
        seq![]
    } else if s.last().len() == 0 {
        nonempty(s.drop_last())
    } else {
        nonempty(s.drop_last()).push(s.last())
    }
}

/// The non-empty pieces of `bytes` split at `sep`.
pub fn nonempty_records(bytes: &[u8], sep: u8) -> (r: Vec<Vec<u8>>)
    ensures
        byte_views(r@) == nonempty(split_bytes(bytes@, sep)),
{
    let all = split_on_byte(bytes, sep);
    let mut r: Vec<Vec<u8>> = Vec::new();
    let mut i: usize = 0;
    proof {
        assert(byte_views(r@) =~= Seq::<Seq<u8>>::empty());
    }
    while i < all.len()
        invariant
            i <= all.len(),
            byte_views(all@) == split_bytes(bytes@, sep),
            byte_views(r@) == nonempty(byte_views(all@).take(i as int)),
        decreases all.len() - i,
    {
        proof {
            assert(byte_views(all@).take(i + 1).drop_last() =~= byte_views(all@).take(i as int));
            assert(byte_views(all@)[i as int] == all@[i as int]@);
        }
        if all[i].len() > 0 {
            let ghost before = byte_views(r@);
            r.push(all[i].clone());
            proof {
                assert(byte_views(r@) =~= before.push(all@[i as int]@));
            }
        }
        i += 1;
    }
    proof {
        assert(byte_views(all@).take(all.len() as int) =~= byte_views(all@));
    }
    r
}

} // verus!

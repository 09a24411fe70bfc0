//! Character-level helpers shared by the parsers: splitting, prefixes,
//! whitespace trimming, substring search, decimal parsing and string
//! building. Every helper is specified over `Seq<char>`.

use vstd::prelude::*;

verus! {

// ---------------------------------------------------------------------
// Specifications
// ---------------------------------------------------------------------

/// `k` is the first position of `c` in `s`.
pub open spec fn is_first(s: Seq<char>, c: char, k: int) -> bool {
    &&& 0 <= k < s.len()
    &&& s[k] == c
    &&& forall|j: int| 0 <= j < k ==> s[j] != c
}

pub open spec fn has_char(s: Seq<char>, c: char) -> bool {
    exists|k: int| 0 <= k < s.len() && s[k] == c
}

/// Position of the first `c` in `s`.
pub open spec fn first_index(s: Seq<char>, c: char) -> int {
    choose|k: int| is_first(s, c, k)
}

/// `s` split at every `c` (Rust's `str::split` with a char pattern):
/// always at least one piece, pieces never contain `c`.
pub open spec fn split(s: Seq<char>, c: char) -> Seq<Seq<char>>
    decreases s.len(),
{
    if has_char(s, c) {
        let k = first_index(s, c);
        if 0 <= k < s.len() {
            seq![s.take(k)] + split(s.skip(k + 1), c)
        } else {
            seq![s]
        }
    } else {
        seq![s]
    }
}

/// `s` split at the first `n - 1` occurrences of `c` (Rust's `splitn`).
pub open spec fn splitn(s: Seq<char>, n: nat, c: char) -> Seq<Seq<char>>
    decreases s.len(),
{
    if n == 0 {
        seq![]
    } else if n == 1 || !has_char(s, c) {
        seq![s]
    } else {
        let k = first_index(s, c);
        if 0 <= k < s.len() {
            seq![s.take(k)] + splitn(s.skip(k + 1), (n - 1) as nat, c)
        } else {
            seq![s]
        }
    }
}

/// Drops one trailing `'\r'`.
pub open spec fn strip_cr(s: Seq<char>) -> Seq<char> {
    if s.len() > 0 && s.last() == '\r' {
        s.drop_last()
    } else {
        s
    }
}

/// Lines of `s`: split at `'\n'`, the empty piece after a final newline
/// dropped, and a `'\r'` right before each newline removed.
pub open spec fn lines(s: Seq<char>) -> Seq<Seq<char>> {
    let p = split(s, '\n');
    let n = p.len();
    if p[n - 1].len() == 0 {
        Seq::new((n - 1) as nat, |i: int| strip_cr(p[i]))
    } else {
        Seq::new(n as nat, |i: int| if i < n - 1 { strip_cr(p[i]) } else { p[i] })
    }
}

pub open spec fn starts_with(s: Seq<char>, p: Seq<char>) -> bool {
    p.len() <= s.len() && s.take(p.len() as int) == p
}

pub open spec fn ends_with(s: Seq<char>, p: Seq<char>) -> bool {
    p.len() <= s.len() && s.skip(s.len() - p.len()) == p
}

/// `sub` occurs in `s` at position `i`.
pub open spec fn occurs_at(s: Seq<char>, sub: Seq<char>, i: int) -> bool {
    0 <= i && i + sub.len() <= s.len() && s.subrange(i, i + sub.len()) == sub
}

pub open spec fn contains(s: Seq<char>, sub: Seq<char>) -> bool {
    exists|i: int| occurs_at(s, sub, i)
}

/// Unicode `White_Space`, the set `char::is_whitespace` tests.
pub open spec fn is_ws(c: char) -> bool {
    ||| c == '\t' || c == '\n' || c == '\u{0B}' || c == '\u{0C}' || c == '\r'
    ||| c == ' ' || c == '\u{85}' || c == '\u{A0}' || c == '\u{1680}'
    ||| ('\u{2000}' <= c && c <= '\u{200A}')
    ||| c == '\u{2028}' || c == '\u{2029}' || c == '\u{202F}' || c == '\u{205F}'
    ||| c == '\u{3000}'
}

/// `s` with trailing characters satisfying `is_ws` removed.
pub open spec fn trim_end(s: Seq<char>) -> Seq<char>
    decreases s.len(),
{
    if s.len() > 0 && is_ws(s.last()) {
        trim_end(s.drop_last())
    } else {
        s
    }
}

pub open spec fn trim_start(s: Seq<char>) -> Seq<char>
    decreases s.len(),
{
    if s.len() > 0 && is_ws(s[0]) {
        trim_start(s.drop_first())
    } else {
        s
    }
}

pub open spec fn trim(s: Seq<char>) -> Seq<char> {
    trim_end(trim_start(s))
}

/// `s` with leading and trailing `c` removed (any number).
pub open spec fn trim_end_char(s: Seq<char>, c: char) -> Seq<char>
    decreases s.len(),
{
    if s.len() > 0 && s.last() == c {
        trim_end_char(s.drop_last(), c)
    } else {
        s
    }
}

pub open spec fn trim_start_char(s: Seq<char>, c: char) -> Seq<char>
    decreases s.len(),
{
    if s.len() > 0 && s[0] == c {
        trim_start_char(s.drop_first(), c)
    } else {
        s
    }
}

pub open spec fn trim_matches(s: Seq<char>, c: char) -> Seq<char> {
    trim_end_char(trim_start_char(s, c), c)
}

pub open spec fn is_digit(c: char) -> bool {
    '0' <= c && c <= '9'
}

pub open spec fn all_digits(s: Seq<char>) -> bool {
    forall|i: int| 0 <= i < s.len() ==> is_digit(s[i])
}

/// Value of a run of ASCII decimal digits.
pub open spec fn digits_value(s: Seq<char>) -> nat
    decreases s.len(),
{
    if s.len() == 0 {
        0
    } else {
        digits_value(s.drop_last()) * 10 + ((s.last() as nat) - ('0' as nat)) as nat
    }
}

/// Rust's unsigned `FromStr`: an optional `+`, then at least one ASCII
/// digit; `None` when the text is malformed or the value exceeds `max`.
pub open spec fn parse_unsigned(s: Seq<char>, max: nat) -> Option<nat> {
    let d = if s.len() > 0 && s[0] == '+' { s.drop_first() } else { s };
    if d.len() > 0 && all_digits(d) && digits_value(d) <= max {
        Some(digits_value(d))
    } else {
        None
    }
}

/// Rust's `i64` `FromStr`: an optional sign, then at least one digit.
pub open spec fn parse_i64_spec(s: Seq<char>) -> Option<int> {
    if s.len() > 0 && s[0] == '-' {
        let d = s.drop_first();
        if d.len() > 0 && all_digits(d) && digits_value(d) <= 0x8000_0000_0000_0000 {
            Some(-(digits_value(d) as int))
        } else {
            None
        }
    } else {
        match parse_unsigned(s, 0x7fff_ffff_ffff_ffff) {
            Some(v) => Some(v as int),
            None => None,
        }
    }
}

/// `parse().unwrap_or(0)` for a `u32`.
pub open spec fn u32_or_zero(s: Seq<char>) -> u32 {
    match parse_unsigned(s, u32::MAX as nat) {
        Some(v) => v as u32,
        None => 0,
    }
}

/// `parse().unwrap_or(0)` for a `u64`.
pub open spec fn u64_or_zero(s: Seq<char>) -> u64 {
    match parse_unsigned(s, u64::MAX as nat) {
        Some(v) => v as u64,
        None => 0,
    }
}

/// The concatenation of `parts`.
pub open spec fn flatten(parts: Seq<Seq<char>>) -> Seq<char>
    decreases parts.len(),
{
    if parts.len() == 0 {
        seq![]
    } else {
        flatten(parts.drop_last()) + parts.last()
    }
}

/// `parts` joined with `sep` between consecutive parts.
pub open spec fn join(parts: Seq<Seq<char>>, sep: Seq<char>) -> Seq<char>
    decreases parts.len(),
{
    if parts.len() == 0 {
        seq![]
    } else if parts.len() == 1 {
        parts[0]
    } else {
        join(parts.drop_last(), sep) + sep + parts.last()
    }
}

/// Every occurrence of `from` replaced by the text `to`.
pub open spec fn replace_char(s: Seq<char>, from: char, to: Seq<char>) -> Seq<char>
    decreases s.len(),
{
    if s.len() == 0 {
        seq![]
    } else {
        replace_char(s.drop_last(), from, to) + if s.last() == from {
            to
        } else {
            seq![s.last()]
        }
    }
}

/// The character sequences of a vector of character vectors.
pub open spec fn views(r: Seq<Vec<char>>) -> Seq<Seq<char>> {
    r.map_values(|x: Vec<char>| x@)
}

// ---------------------------------------------------------------------
// Outside behaviour named
// ---------------------------------------------------------------------

/// What `String::from_utf8_lossy` decodes the bytes to.
pub uninterp spec fn utf8_lossy(bytes: Seq<u8>) -> Seq<char>;

/// What `str::to_lowercase` returns for the text.
pub uninterp spec fn str_lowercase(s: Seq<char>) -> Seq<char>;

/// Calls `String::from_utf8_lossy`; the result is the named decoding of
/// the bytes, which for valid UTF-8 is the text the bytes encode (std
/// documents that valid input comes back unchanged). The replacement
/// rules for invalid input are not stated.
#[verifier::external_body]
pub(crate) fn lossy(bytes: &[u8]) -> (s: String)
    ensures
        s@ == utf8_lossy(bytes@),
        vstd::utf8::valid_utf8(bytes@) ==> s@ == vstd::utf8::decode_utf8(bytes@),
{
    String::from_utf8_lossy(bytes).into_owned()
}

/// Calls `str::to_lowercase`; the result is the named lowercase mapping
/// of the text. The Unicode case tables are not stated.
#[verifier::external_body]
pub(crate) fn lowercase(s: &str) -> (r: String)
    ensures
        r@ == str_lowercase(s@),
{
    s.to_lowercase()
}

/// What `format!("{:?}", s)` renders for the text: Rust's quoted,
/// escaped debug form.
pub uninterp spec fn str_debug(s: Seq<char>) -> Seq<char>;

/// Formats the text with `<str as Debug>::fmt`; the result is the named
/// debug form. The escaping rules are not stated.
#[verifier::external_body]
pub(crate) fn debug_quoted(s: &str) -> (r: String)
    ensures
        r@ == str_debug(s@),
{
    format!("{s:?}")
}

/// The text `char::to_uppercase` yields for the character (Unicode's
/// uppercase mapping, one to three characters).
pub uninterp spec fn char_uppercase(c: char) -> Seq<char>;

/// Calls `char::to_uppercase` and collects its characters; the result is
/// the named uppercase mapping of `c`.
#[verifier::external_body]
pub(crate) fn uppercase_char(c: char) -> (s: String)
    ensures
        s@ == char_uppercase(c),
{
    c.to_uppercase().collect()
}

/// Calls `String::push`: the character is appended.
#[verifier::external_body]
pub(crate) fn push_char(s: &mut String, c: char)
    ensures
        final(s)@ == old(s)@.push(c),
{
    s.push(c);
}

// ---------------------------------------------------------------------
// Executable helpers
// ---------------------------------------------------------------------

/// `k` is the last position of `c` in `s`.
pub open spec fn is_last_at(s: Seq<char>, c: char, k: int) -> bool {
    &&& 0 <= k < s.len()
    &&& s[k] == c
    &&& forall|j: int| k < j < s.len() ==> s[j] != c
}

/// The last position of `c` in `s`, if any.
pub open spec fn last_index(s: Seq<char>, c: char) -> Option<int> {
    if exists|k: int| is_last_at(s, c, k) {
        Some(choose|k: int| is_last_at(s, c, k))
    } else {
        None
    }
}

/// The last position of `c` in `v`.
pub fn last_index_of(v: &Vec<char>, c: char) -> (r: Option<usize>)
    ensures
        r matches Some(k) ==> last_index(v@, c) == Some(k as int),
        r is None ==> last_index(v@, c) is None,
{
    let mut i = v.len();
    while i > 0
        invariant
            i <= v.len(),
            forall|j: int| i <= j < v.len() ==> v@[j] != c,
        decreases i,
    {
        if v[i - 1] == c {
            proof {
                let k = choose|k: int| is_last_at(v@, c, k);
                assert(is_last_at(v@, c, i - 1));
                if k < i - 1 {
                    assert(v@[i - 1] != c);
                } else if k > i - 1 {
                    assert(v@[k] != c);
                }
            }
            return Some(i - 1);
        }
        i -= 1;
    }
    proof {
        if exists|k: int| is_last_at(v@, c, k) {
            let k = choose|k: int| is_last_at(v@, c, k);
            assert(v@[k] == c);
        }
    }
    None
}

/// The first position of `c` in `v`.
pub fn first_index_of(v: &Vec<char>, c: char) -> (r: Option<usize>)
    ensures
        r matches Some(k) ==> is_first(v@, c, k as int) && has_char(v@, c) && first_index(v@, c)
            == k,
        r is None ==> !has_char(v@, c),
{
    let mut i: usize = 0;
    while i < v.len()
        invariant
            i <= v.len(),
            forall|j: int| 0 <= j < i ==> v@[j] != c,
        decreases v.len() - i,
    {
        if v[i] == c {
            proof {
                lemma_first_unique(v@, c, i as int);
            }
            return Some(i);
        }
        i += 1;
    }
    None
}

/// The text of an optional string slice.
pub open spec fn opt_text(o: Option<&str>) -> Option<Seq<char>> {
    match o {
        Some(s) => Some(s@),
        None => None,
    }
}

/// Piece `i` of a split, empty past the end (`next().unwrap_or("")`).
pub open spec fn piece(parts: Seq<Seq<char>>, i: int) -> Seq<char> {
    if 0 <= i < parts.len() {
        parts[i]
    } else {
        seq![]
    }
}

/// Piece `i` of a split, empty past the end.
pub fn piece_of(parts: &Vec<Vec<char>>, i: usize) -> (r: Vec<char>)
    ensures
        r@ == piece(views(parts@), i as int),
{
    if i < parts.len() {
        proof {
            assert(views(parts@)[i as int] == parts@[i as int]@);
            assert(parts@[i as int]@.subrange(0, parts@[i as int]@.len() as int) =~= parts@[i as int]@);
        }
        slice_vec(&parts[i], 0, parts[i].len())
    } else {
        Vec::new()
    }
}

/// Whether `v` holds exactly the text `p`.
pub fn eq_str(v: &Vec<char>, p: &str) -> (b: bool)
    ensures
        b == (v@ == p@),
{
    let pv = chars_of(p);
    if pv.len() != v.len() {
        return false;
    }
    let b = has_prefix(v, p);
    proof {
        assert(v@.take(p@.len() as int) =~= v@);
    }
    b
}

/// The characters of `s`, in order.
pub fn chars_of(s: &str) -> (v: Vec<char>)
    ensures
        v@ == s@,
{
    let mut v: Vec<char> = Vec::new();
    for c in it: s.chars()
        invariant
            v@ == it.seq().take(it.index() as int),
    {
        v.push(c);
    }
    proof {
        assert(v@ =~= s@);
    }
    v
}

/// A `String` holding `v[lo..hi]`.
pub fn string_of(v: &Vec<char>, lo: usize, hi: usize) -> (s: String)
    requires
        lo <= hi <= v.len(),
    ensures
        s@ == v@.subrange(lo as int, hi as int),
{
    let mut s = String::new();
    let mut i = lo;
    while i < hi
        invariant
            lo <= i <= hi <= v.len(),
            s@ == v@.subrange(lo as int, i as int),
        decreases hi - i,
    {
        push_char(&mut s, v[i]);
        i += 1;
        proof {
            assert(s@ =~= v@.subrange(lo as int, i as int));
        }
    }
    s
}

/// A `String` holding all of `v`.
pub fn string_from(v: &Vec<char>) -> (s: String)
    ensures
        s@ == v@,
{
    let s = string_of(v, 0, v.len());
    proof {
        assert(v@.subrange(0, v@.len() as int) =~= v@);
    }
    s
}

/// Appends `t` to `s`.
pub fn push_str(s: &mut String, t: &str)
    ensures
        final(s)@ == old(s)@ + t@,
{
    s.append(t);
}

/// `v[lo..hi]` as a new vector.
pub fn slice_vec(v: &Vec<char>, lo: usize, hi: usize) -> (r: Vec<char>)
    requires
        lo <= hi <= v.len(),
    ensures
        r@ == v@.subrange(lo as int, hi as int),
{
    let mut r: Vec<char> = Vec::new();
    let mut i = lo;
    while i < hi
        invariant
            lo <= i <= hi <= v.len(),
            r@ == v@.subrange(lo as int, i as int),
        decreases hi - i,
    {
        r.push(v[i]);
        i += 1;
        proof {
            assert(r@ =~= v@.subrange(lo as int, i as int));
        }
    }
    r
}

pub proof fn lemma_first_unique(s: Seq<char>, c: char, k: int)
    requires
        is_first(s, c, k),
    ensures
        has_char(s, c),
        first_index(s, c) == k,
{
    let j = first_index(s, c);
    assert(is_first(s, c, j));
    if j < k {
        assert(s[j] != c);
    } else if k < j {
        assert(s[k] != c);
    }
}

pub proof fn lemma_no_char_split(s: Seq<char>, c: char)
    requires
        !has_char(s, c),
    ensures
        split(s, c) == seq![s],
{
}

/// First position of `c` in `v` at or after `from`, or `v.len()`.
pub fn find_from(v: &Vec<char>, from: usize, c: char) -> (k: usize)
    requires
        from <= v.len(),
    ensures
        from <= k <= v.len(),
        forall|j: int| from <= j < k ==> v@[j] != c,
        k < v.len() ==> v@[k as int] == c,
{
    let mut k = from;
    while k < v.len()
        invariant
            from <= k <= v.len(),
            forall|j: int| from <= j < k ==> v@[j] != c,
        decreases v.len() - k,
    {
        if v[k] == c {
            return k;
        }
        k += 1;
    }
    k
}

proof fn lemma_find_skip(s: Seq<char>, from: int, k: int, c: char)
    requires
        0 <= from <= k <= s.len(),
        forall|j: int| from <= j < k ==> s[j] != c,
        k < s.len() ==> s[k] == c,
    ensures
        k < s.len() ==> is_first(s.skip(from), c, k - from),
        k == s.len() ==> !has_char(s.skip(from), c),
{
    let t = s.skip(from);
    if k == s.len() {
        if has_char(t, c) {
            let i = choose|i: int| 0 <= i < t.len() && t[i] == c;
            assert(t[i] == s[from + i]);
        }
    } else {
        assert forall|j: int| 0 <= j < k - from implies t[j] != c by {
            assert(t[j] == s[from + j]);
        }
    }
}

/// `v` split at every `c`.
pub fn split_chars(v: &Vec<char>, c: char) -> (r: Vec<Vec<char>>)
    ensures
        views(r@) == split(v@, c),
{
    let mut r: Vec<Vec<char>> = Vec::new();
    let mut pos: usize = 0;
    proof {
        assert(v@.skip(0) =~= v@);
    }
    loop
        invariant
            pos <= v.len(),
            views(r@) + split(v@.skip(pos as int), c) == split(v@, c),
        decreases v.len() - pos,
    {
        let k = find_from(v, pos, c);
        let piece = slice_vec(v, pos, k);
        let ghost t = v@.skip(pos as int);
        let ghost prev = views(r@);
        proof {
            lemma_find_skip(v@, pos as int, k as int, c);
        }
        r.push(piece);
        if k == v.len() {
            proof {
                assert(t =~= v@.subrange(pos as int, k as int));
                assert(split(t, c) == seq![t]);
                assert(views(r@) =~= prev + seq![t]);
            }
            return r;
        }
        proof {
            lemma_first_unique(t, c, k - pos);
            assert(t.take(k - pos) =~= v@.subrange(pos as int, k as int));
            assert(t.skip(k - pos + 1) =~= v@.skip(k + 1));
            assert(views(r@) =~= prev + seq![t.take(k - pos)]);
            assert(split(t, c) == seq![t.take(k - pos)] + split(t.skip(k - pos + 1), c));
            assert(views(r@) + split(v@.skip(k + 1), c) =~= prev + split(t, c));
        }
        pos = k + 1;
    }
}

/// `v` split at the first `n - 1` occurrences of `c`.
pub fn splitn_chars(v: &Vec<char>, n: usize, c: char) -> (r: Vec<Vec<char>>)
    requires
        n >= 1,
    ensures
        views(r@) == splitn(v@, n as nat, c),
        r@.len() <= n,
{
    let mut r: Vec<Vec<char>> = Vec::new();
    let mut pos: usize = 0;
    proof {
        assert(v@.skip(0) =~= v@);
    }
    loop
        invariant
            pos <= v.len(),
            r.len() < n,
            views(r@) + splitn(v@.skip(pos as int), (n - r.len()) as nat, c) == splitn(v@, n as nat, c),
        decreases v.len() - pos,
    {
        let ghost t = v@.skip(pos as int);
        let ghost prev = views(r@);
        let ghost m = (n - r.len()) as nat;
        if r.len() + 1 == n {
            let piece = slice_vec(v, pos, v.len());
            r.push(piece);
            proof {
                assert(t =~= v@.subrange(pos as int, v.len() as int));
                assert(views(r@) =~= prev + seq![t]);
            }
            return r;
        }
        let k = find_from(v, pos, c);
        let piece = slice_vec(v, pos, k);
        proof {
            lemma_find_skip(v@, pos as int, k as int, c);
        }
        r.push(piece);
        if k == v.len() {
            proof {
                assert(t =~= v@.subrange(pos as int, k as int));
                assert(splitn(t, m, c) == seq![t]);
                assert(views(r@) =~= prev + seq![t]);
            }
            return r;
        }
        proof {
            lemma_first_unique(t, c, k - pos);
            assert(t.take(k - pos) =~= v@.subrange(pos as int, k as int));
            assert(t.skip(k - pos + 1) =~= v@.skip(k + 1));
            assert(views(r@) =~= prev + seq![t.take(k - pos)]);
            assert(splitn(t, m, c) == seq![t.take(k - pos)] + splitn(t.skip(k - pos + 1), (m - 1) as nat, c));
            assert(views(r@) + splitn(v@.skip(k + 1), (n - r.len()) as nat, c) =~= prev + splitn(t, m, c));
        }
        pos = k + 1;
    }
}

pub proof fn lemma_split_nonempty(s: Seq<char>, c: char)
    ensures
        split(s, c).len() >= 1,
    decreases s.len(),
{
    if has_char(s, c) {
        let k = first_index(s, c);
        if 0 <= k < s.len() {
            lemma_split_nonempty(s.skip(k + 1), c);
        }
    }
}

/// Drops one trailing carriage return.
pub fn strip_cr_vec(v: Vec<char>) -> (r: Vec<char>)
    ensures
        r@ == strip_cr(v@),
{
    let mut v = v;
    if v.len() > 0 && v[v.len() - 1] == '\r' {
        v.pop();
    }
    v
}

/// The lines of `v` (see `lines`).
pub fn lines_of(v: &Vec<char>) -> (r: Vec<Vec<char>>)
    ensures
        views(r@) == lines(v@),
{
    let parts = split_chars(v, '\n');
    proof {
        lemma_split_nonempty(v@, '\n');
    }
    let n = parts.len();
    let drop_last = parts[n - 1].len() == 0;
    let keep = if drop_last { n - 1 } else { n };
    let mut r: Vec<Vec<char>> = Vec::new();
    let mut i: usize = 0;
    while i < keep
        invariant
            0 < n == parts.len(),
            views(parts@) == split(v@, '\n'),
            keep as int == (if drop_last { n - 1 } else { n as int }),
            drop_last == (parts@[n - 1]@.len() == 0),
            i <= keep,
            r.len() == i,
            forall|j: int| 0 <= j < i ==> r@[j]@ == lines(v@)[j],
        decreases keep - i,
    {
        let piece = parts[i].clone();
        proof {
            assert(views(parts@)[i as int] == parts@[i as int]@);
        }
        let item = if i + 1 < n { strip_cr_vec(piece) } else { piece };
        r.push(item);
        i += 1;
    }
    proof {
        assert(views(r@) =~= lines(v@));
    }
    r
}

/// True when `v[at..]` starts with `p`.
pub fn starts_at(v: &Vec<char>, at: usize, p: &Vec<char>) -> (b: bool)
    requires
        at <= v.len(),
    ensures
        b == starts_with(v@.skip(at as int), p@),
{
    if p.len() > v.len() - at {
        return false;
    }
    let mut i: usize = 0;
    while i < p.len()
        invariant
            at + p.len() <= v.len(),
            i <= p.len(),
            forall|j: int| 0 <= j < i ==> v@[at + j] == p@[j],
        decreases p.len() - i,
    {
        if v[at + i] != p[i] {
            proof {
                assert(v@.skip(at as int).take(p.len() as int)[i as int] == v@[at + i]);
            }
            return false;
        }
        i += 1;
    }
    proof {
        assert(v@.skip(at as int).take(p.len() as int) =~= p@);
    }
    true
}

/// True when `v` starts with the text `p`.
pub fn has_prefix(v: &Vec<char>, p: &str) -> (b: bool)
    ensures
        b == starts_with(v@, p@),
{
    let pv = chars_of(p);
    proof {
        assert(v@.skip(0) =~= v@);
    }
    starts_at(v, 0, &pv)
}

/// `v` with the text `p` removed from its front, when it starts with it.
pub fn strip_prefix(v: &Vec<char>, p: &str) -> (r: Option<Vec<char>>)
    ensures
        r is Some <==> starts_with(v@, p@),
        r matches Some(rest) ==> rest@ == v@.skip(p@.len() as int),
{
    if has_prefix(v, p) {
        let n = chars_of(p).len();
        let rest = slice_vec(v, n, v.len());
        proof {
            assert(rest@ =~= v@.skip(p@.len() as int));
        }
        Some(rest)
    } else {
        None
    }
}

/// True when `v` ends with the text `p`.
pub fn has_suffix(v: &Vec<char>, p: &str) -> (b: bool)
    ensures
        b == ends_with(v@, p@),
{
    let pv = chars_of(p);
    if pv.len() > v.len() {
        return false;
    }
    let at = v.len() - pv.len();
    let b = starts_at(v, at, &pv);
    proof {
        assert(v@.skip(at as int).take(pv@.len() as int) =~= v@.skip(at as int));
    }
    b
}

/// Whether `c` is a Unicode white-space character.
pub fn is_whitespace(c: char) -> (b: bool)
    ensures
        b == is_ws(c),
{
    c == '\t' || c == '\n' || c == '\u{0B}' || c == '\u{0C}' || c == '\r' || c == ' ' || c
        == '\u{85}' || c == '\u{A0}' || c == '\u{1680}' || ('\u{2000}' <= c && c <= '\u{200A}')
        || c == '\u{2028}' || c == '\u{2029}' || c == '\u{202F}' || c == '\u{205F}' || c
        == '\u{3000}'
}

proof fn lemma_trim_end_prefix(s: Seq<char>, e: int)
    requires
        0 <= e <= s.len(),
        forall|j: int| e <= j < s.len() ==> is_ws(s[j]),
    ensures
        trim_end(s) == trim_end(s.take(e)),
    decreases s.len(),
{
    if e < s.len() {
        assert(s.drop_last() =~= s.take(s.len() - 1));
        lemma_trim_end_prefix(s.drop_last(), e);
        assert(s.drop_last().take(e) =~= s.take(e));
    } else {
        assert(s.take(e) =~= s);
    }
}

proof fn lemma_trim_start_suffix(s: Seq<char>, b: int)
    requires
        0 <= b <= s.len(),
        forall|j: int| 0 <= j < b ==> is_ws(s[j]),
    ensures
        trim_start(s) == trim_start(s.skip(b)),
    decreases b,
{
    if b > 0 {
        lemma_trim_start_suffix(s.drop_first(), b - 1);
        assert(s.drop_first().skip(b - 1) =~= s.skip(b));
    } else {
        assert(s.skip(0) =~= s);
    }
}

/// `v` without trailing white space.
pub fn trim_end_vec(v: &Vec<char>) -> (r: Vec<char>)
    ensures
        r@ == trim_end(v@),
{
    let mut e = v.len();
    while e > 0 && is_whitespace(v[e - 1])
        invariant
            e <= v.len(),
            forall|j: int| e <= j < v.len() ==> is_ws(v@[j]),
        decreases e,
    {
        e -= 1;
    }
    proof {
        lemma_trim_end_prefix(v@, e as int);
        let t = v@.take(e as int);
        if t.len() > 0 {
            assert(t.last() == v@[e - 1]);
        }
    }
    let r = slice_vec(v, 0, e);
    proof {
        assert(r@ =~= v@.take(e as int));
    }
    r
}

/// `v` without leading white space.
pub fn trim_start_vec(v: &Vec<char>) -> (r: Vec<char>)
    ensures
        r@ == trim_start(v@),
{
    let mut b: usize = 0;
    while b < v.len() && is_whitespace(v[b])
        invariant
            b <= v.len(),
            forall|j: int| 0 <= j < b ==> is_ws(v@[j]),
        decreases v.len() - b,
    {
        b += 1;
    }
    proof {
        lemma_trim_start_suffix(v@, b as int);
        let t = v@.skip(b as int);
        if t.len() > 0 {
            assert(t[0] == v@[b as int]);
        }
    }
    let r = slice_vec(v, b, v.len());
    proof {
        assert(r@ =~= v@.skip(b as int));
    }
    r
}

/// `v` without leading and trailing white space.
pub fn trim_vec(v: &Vec<char>) -> (r: Vec<char>)
    ensures
        r@ == trim(v@),
{
    let s = trim_start_vec(v);
    trim_end_vec(&s)
}

/// `v` without trailing `c`s.
pub fn trim_end_char_vec(v: Vec<char>, c: char) -> (r: Vec<char>)
    ensures
        r@ == trim_end_char(v@, c),
{
    let mut v = v;
    let ghost orig = v@;
    while v.len() > 0 && v[v.len() - 1] == c
        invariant
            trim_end_char(v@, c) == trim_end_char(orig, c),
        decreases v.len(),
    {
        let ghost before = v@;
        v.pop();
        proof {
            assert(v@ =~= before.drop_last());
        }
    }
    v
}

/// `v` without leading `c`s.
pub fn trim_start_char_vec(v: &Vec<char>, c: char) -> (r: Vec<char>)
    ensures
        r@ == trim_start_char(v@, c),
{
    let mut b: usize = 0;
    proof {
        assert(v@.skip(0) =~= v@);
    }
    while b < v.len() && v[b] == c
        invariant
            b <= v.len(),
            trim_start_char(v@.skip(b as int), c) == trim_start_char(v@, c),
        decreases v.len() - b,
    {
        proof {
            assert(v@.skip(b as int).drop_first() =~= v@.skip(b + 1));
        }
        b += 1;
    }
    let r = slice_vec(v, b, v.len());
    proof {
        assert(r@ =~= v@.skip(b as int));
    }
    r
}

/// `v` without leading and trailing `c`s.
pub fn trim_matches_vec(v: &Vec<char>, c: char) -> (r: Vec<char>)
    ensures
        r@ == trim_matches(v@, c),
{
    let s = trim_start_char_vec(v, c);
    trim_end_char_vec(s, c)
}

/// `k` is the first position where `sub` occurs in `s`.
pub open spec fn is_first_occurrence(s: Seq<char>, sub: Seq<char>, k: int) -> bool {
    occurs_at(s, sub, k) && forall|j: int| 0 <= j < k ==> !occurs_at(s, sub, j)
}

/// The first position where `sub` occurs in `s`, if any.
pub open spec fn first_occurrence(s: Seq<char>, sub: Seq<char>) -> Option<int> {
    if contains(s, sub) {
        Some(choose|k: int| is_first_occurrence(s, sub, k))
    } else {
        None
    }
}

proof fn lemma_first_occurrence(s: Seq<char>, sub: Seq<char>, k: int)
    requires
        is_first_occurrence(s, sub, k),
    ensures
        first_occurrence(s, sub) == Some(k),
{
    assert(contains(s, sub));
    let m = choose|m: int| is_first_occurrence(s, sub, m);
    assert(is_first_occurrence(s, sub, m));
    if m < k {
        assert(!occurs_at(s, sub, m));
    } else if k < m {
        assert(!occurs_at(s, sub, k));
    }
}

/// The first position where `sub` occurs in `v`.
pub fn find_sub(v: &Vec<char>, sub: &Vec<char>) -> (r: Option<usize>)
    ensures
        match r {
            Some(k) => first_occurrence(v@, sub@) == Some(k as int) && is_first_occurrence(
                v@,
                sub@,
                k as int,
            ),
            None => first_occurrence(v@, sub@) is None,
        },
{
    if sub.len() > v.len() {
        proof {
            if contains(v@, sub@) {
                let i = choose|i: int| occurs_at(v@, sub@, i);
            }
        }
        return None;
    }
    if sub.len() == 0 {
        proof {
            assert(v@.subrange(0, 0) =~= sub@);
            assert(occurs_at(v@, sub@, 0));
            lemma_first_occurrence(v@, sub@, 0);
        }
        return Some(0);
    }
    let mut i: usize = 0;
    while i <= v.len() - sub.len()
        invariant
            1 <= sub.len() <= v.len(),
            i <= v.len() - sub.len() + 1,
            forall|j: int| 0 <= j < i ==> !occurs_at(v@, sub@, j),
        decreases v.len() - sub.len() + 1 - i,
    {
        proof {
            assert(v@.skip(i as int).take(sub@.len() as int) =~= v@.subrange(
                i as int,
                i + sub@.len(),
            ));
        }
        if starts_at(v, i, sub) {
            proof {
                assert(occurs_at(v@, sub@, i as int));
                lemma_first_occurrence(v@, sub@, i as int);
            }
            return Some(i);
        }
        i += 1;
    }
    proof {
        if contains(v@, sub@) {
            let j = choose|j: int| occurs_at(v@, sub@, j);
            assert(j < i);
        }
    }
    None
}

/// True when the text `sub` occurs in `v`.
pub fn contains_vec(v: &Vec<char>, sub: &Vec<char>) -> (b: bool)
    ensures
        b == contains(v@, sub@),
{
    if sub.len() > v.len() {
        proof {
            if contains(v@, sub@) {
                let i = choose|i: int| occurs_at(v@, sub@, i);
            }
        }
        return false;
    }
    if sub.len() == 0 {
        proof {
            assert(v@.subrange(0, 0) =~= sub@);
            assert(occurs_at(v@, sub@, 0));
        }
        return true;
    }
    let mut i: usize = 0;
    while i <= v.len() - sub.len()
        invariant
            1 <= sub.len() <= v.len(),
            i <= v.len() - sub.len() + 1,
            forall|j: int| 0 <= j < i ==> !occurs_at(v@, sub@, j),
        decreases v.len() - sub.len() + 1 - i,
    {
        if starts_at(v, i, sub) {
            proof {
                assert(v@.skip(i as int).take(sub@.len() as int) =~= v@.subrange(
                    i as int,
                    i + sub@.len(),
                ));
                assert(occurs_at(v@, sub@, i as int));
            }
            return true;
        }
        proof {
            assert(v@.skip(i as int).take(sub@.len() as int) =~= v@.subrange(
                i as int,
                i + sub@.len(),
            ));
        }
        i += 1;
    }
    proof {
        if contains(v@, sub@) {
            let j = choose|j: int| occurs_at(v@, sub@, j);
            assert(j < i);
        }
    }
    false
}

/// True when `c` occurs in `v`.
pub fn has_char_vec(v: &Vec<char>, c: char) -> (b: bool)
    ensures
        b == has_char(v@, c),
{
    let k = find_from(v, 0, c);
    k < v.len()
}

proof fn lemma_digits_value_prefix(s: Seq<char>, i: int)
    requires
        0 <= i <= s.len(),
    ensures
        digits_value(s.take(i)) <= digits_value(s),
    decreases s.len() - i,
{
    if i < s.len() {
        lemma_digits_value_prefix(s, i + 1);
        assert(s.take(i + 1).drop_last() =~= s.take(i));
    } else {
        assert(s.take(i) =~= s);
    }
}

/// Decimal parse with Rust's unsigned `FromStr` rules, bounded by `max`.
pub fn parse_unsigned_vec(v: &Vec<char>, max: u64) -> (r: Option<u64>)
    ensures
        r matches Some(x) ==> parse_unsigned(v@, max as nat) == Some(x as nat),
        r is None ==> parse_unsigned(v@, max as nat) is None,
{
    let start: usize = if v.len() > 0 && v[0] == '+' { 1 } else { 0 };
    let ghost d = if v@.len() > 0 && v@[0] == '+' { v@.drop_first() } else { v@ };
    proof {
        assert(d =~= v@.skip(start as int));
    }
    if start == v.len() {
        return None;
    }
    let mut acc: u128 = 0;
    let mut over = false;
    let mut i = start;
    proof {
        assert(d.take(0) =~= Seq::<char>::empty());
    }
    while i < v.len()
        invariant
            start <= i <= v.len(),
            d == v@.skip(start as int),
            d == (if v@.len() > 0 && v@[0] == '+' { v@.drop_first() } else { v@ }),
            forall|j: int| start <= j < i ==> is_digit(v@[j]),
            !over ==> acc == digits_value(d.take(i - start)) && acc <= max,
            over ==> digits_value(d.take(i - start)) > max,
        decreases v.len() - i,
    {
        let c = v[i];
        if !('0' <= c && c <= '9') {
            proof {
                assert(d[i - start] == c);
                assert(!is_digit(d[i - start]));
                assert(!all_digits(d));
            }
            return None;
        }
        let ghost k = i - start;
        proof {
            assert(d.take(k + 1).drop_last() =~= d.take(k));
            assert(d.take(k + 1).last() == c);
        }
        if !over {
            let digit = (c as u32 - '0' as u32) as u128;
            acc = acc * 10 + digit;
            if acc > max as u128 {
                over = true;
            }
        } else {
            proof {
                assert(digits_value(d.take(k + 1)) >= digits_value(d.take(k)) * 10);
            }
        }
        i += 1;
    }
    proof {
        assert(d.take(d.len() as int) =~= d);
        assert(all_digits(d)) by {
            assert forall|j: int| 0 <= j < d.len() implies is_digit(d[j]) by {
                assert(d[j] == v@[start + j]);
            }
        }
    }
    if over {
        None
    } else {
        Some(acc as u64)
    }
}

/// `parse::<u32>().unwrap_or(0)`.
pub fn parse_u32_or_zero(v: &Vec<char>) -> (r: u32)
    ensures
        r == u32_or_zero(v@),
{
    match parse_unsigned_vec(v, u32::MAX as u64) {
        Some(x) => x as u32,
        None => 0,
    }
}

/// `parse::<u64>().unwrap_or(0)`.
pub fn parse_u64_or_zero(v: &Vec<char>) -> (r: u64)
    ensures
        r == u64_or_zero(v@),
{
    match parse_unsigned_vec(v, u64::MAX) {
        Some(x) => x,
        None => 0,
    }
}

/// `parse::<i64>()`.
pub fn parse_i64(v: &Vec<char>) -> (r: Option<i64>)
    ensures
        r matches Some(x) ==> parse_i64_spec(v@) == Some(x as int),
        r is None ==> parse_i64_spec(v@) is None,
{
    if v.len() > 0 && v[0] == '-' {
        let rest = slice_vec(v, 1, v.len());
        proof {
            assert(rest@ =~= v@.drop_first());
        }
        if rest.len() > 0 && rest[0] == '+' {
            proof {
                assert(!is_digit(rest@[0]));
            }
            return None;
        }
        match parse_unsigned_vec(&rest, 0x8000_0000_0000_0000) {
            Some(x) => {
                proof {
                    assert(rest@.len() == 0 || rest@[0] != '+');
                }
                if x == 0x8000_0000_0000_0000 {
                    Some(i64::MIN)
                } else {
                    Some(-(x as i64))
                }
            },
            None => None,
        }
    } else {
        match parse_unsigned_vec(v, 0x7fff_ffff_ffff_ffff) {
            Some(x) => Some(x as i64),
            None => None,
        }
    }
}

/// The ASCII digit for `d < 10`.
pub open spec fn digit_char(d: nat) -> char {
    (('0' as nat) + d) as char
}

/// Decimal text of `n` (no sign, no leading zeros).
pub open spec fn decimal(n: nat) -> Seq<char>
    decreases n,
{
    if n < 10 {
        seq![digit_char(n)]
    } else {
        decimal(n / 10).push(digit_char(n % 10))
    }
}

/// Decimal text of `n`.
pub fn u64_to_string(n: u64) -> (s: String)
    ensures
        s@ == decimal(n as nat),
{
    u128_to_string(n as u128)
}

/// Decimal text of `n`.
pub fn u128_to_string(n: u128) -> (s: String)
    ensures
        s@ == decimal(n as nat),
{
    // digits collected least significant first
    let mut rev: Vec<char> = Vec::new();
    let mut m = n;
    let ghost mut tail: Seq<char> = seq![];
    loop
        invariant_except_break
            decimal(n as nat) == decimal(m as nat) + tail,
            rev@ == tail.reverse(),
        ensures
            decimal(n as nat) == tail,
            rev@ == tail.reverse(),
        decreases m,
    {
        let d = (m % 10) as u8;
        let c = (48u8 + d) as char;
        if m < 10 {
            proof {
                assert(c == digit_char(m as nat));
                assert(decimal(m as nat) == seq![c]);
            }
            rev.push(c);
            proof {
                tail = seq![c] + tail;
                assert(rev@ =~= tail.reverse());
                assert(decimal(n as nat) =~= tail);
            }
            break;
        }
        proof {
            assert(c == digit_char((m % 10) as nat));
            assert(decimal(m as nat) == decimal((m / 10) as nat).push(c));
        }
        rev.push(c);
        proof {
            assert(decimal(m as nat) + tail =~= decimal((m / 10) as nat) + (seq![c] + tail));
            tail = seq![c] + tail;
            assert(rev@ =~= tail.reverse());
        }
        m = m / 10;
    }
    let mut s = String::new();
    let mut i = rev.len();
    while i > 0
        invariant
            i <= rev@.len(),
            rev@ == tail.reverse(),
            s@ == tail.take(rev@.len() - i),
        decreases i,
    {
        i -= 1;
        push_char(&mut s, rev[i]);
        proof {
            assert(s@ =~= tail.take(rev@.len() - i));
        }
    }
    proof {
        assert(tail.take(rev@.len() as int) =~= tail);
    }
    s
}

/// Decimal text of a signed number: `-` then the magnitude.
pub open spec fn signed_decimal(n: int) -> Seq<char> {
    if n < 0 {
        seq!['-'] + decimal((-n) as nat)
    } else {
        decimal(n as nat)
    }
}

/// Decimal text of `n`.
pub fn i64_to_string(n: i64) -> (s: String)
    ensures
        s@ == signed_decimal(n as int),
{
    if n < 0 {
        let mag: u64 = if n == i64::MIN { 0x8000_0000_0000_0000 } else { (-n) as u64 };
        let mut s = String::new();
        push_char(&mut s, '-');
        let d = u64_to_string(mag);
        s.append(d.as_str());
        s
    } else {
        u64_to_string(n as u64)
    }
}

/// White-space separated words: (finished words, word in progress).
pub open spec fn words_fold(s: Seq<char>) -> (Seq<Seq<char>>, Seq<char>)
    decreases s.len(),
{
    if s.len() == 0 {
        (seq![], seq![])
    } else {
        let (done, cur) = words_fold(s.drop_last());
        let c = s.last();
        if is_ws(c) {
            if cur.len() > 0 {
                (done.push(cur), seq![])
            } else {
                (done, seq![])
            }
        } else {
            (done, cur.push(c))
        }
    }
}

/// The non-empty white-space separated words of `s`
/// (`split_whitespace`).
pub open spec fn words(s: Seq<char>) -> Seq<Seq<char>> {
    let (done, cur) = words_fold(s);
    if cur.len() > 0 {
        done.push(cur)
    } else {
        done
    }
}

/// The white-space separated words of `v`.
pub fn words_of(v: &Vec<char>) -> (r: Vec<String>)
    ensures
        r@.map_values(|x: String| x@) == words(v@),
{
    let mut done: Vec<String> = Vec::new();
    let mut cur: Vec<char> = Vec::new();
    let mut i: usize = 0;
    while i < v.len()
        invariant
            i <= v.len(),
            (done@.map_values(|x: String| x@), cur@) == words_fold(v@.take(i as int)),
        decreases v.len() - i,
    {
        proof {
            assert(v@.take(i + 1).drop_last() =~= v@.take(i as int));
        }
        let c = v[i];
        let ghost d0 = done@.map_values(|x: String| x@);
        if is_whitespace(c) {
            if cur.len() > 0 {
                let w = string_from(&cur);
                done.push(w);
                proof {
                    assert(done@.map_values(|x: String| x@) =~= d0.push(cur@));
                }
                cur = Vec::new();
            } else {
                cur = Vec::new();
            }
        } else {
            cur.push(c);
        }
        i += 1;
    }
    proof {
        assert(v@.take(v.len() as int) =~= v@);
    }
    if cur.len() > 0 {
        let ghost d0 = done@.map_values(|x: String| x@);
        let w = string_from(&cur);
        done.push(w);
        proof {
            assert(done@.map_values(|x: String| x@) =~= d0.push(cur@));
        }
    }
    done
}

// ---------------------------------------------------------------------
// Facts about the specifications
// ---------------------------------------------------------------------

/// Splitting text that starts with a separator-free piece and a
/// separator yields that piece, then the split of the rest.
pub proof fn lemma_split_prefix(a: Seq<char>, c: char, b: Seq<char>)
    requires
        !has_char(a, c),
    ensures
        split(a + seq![c] + b, c) == seq![a] + split(b, c),
{
    let s = a + seq![c] + b;
    let k = a.len() as int;
    assert(s[k] == c);
    assert forall|j: int| 0 <= j < k implies s[j] != c by {
        assert(s[j] == a[j]);
    }
    assert(is_first(s, c, k));
    lemma_first_unique(s, c, k);
    assert(s.take(k) =~= a);
    assert(s.skip(k + 1) =~= b);
}

/// The lines of the empty text: none.
pub proof fn lemma_lines_empty()
    ensures
        lines(seq![]) == Seq::<Seq<char>>::empty(),
{
    let e: Seq<char> = seq![];
    assert(!has_char(e, '\n'));
    assert(split(e, '\n') == seq![e]);
    assert(lines(e) =~= Seq::<Seq<char>>::empty());
}

/// A newline-free first line, then the lines of the rest.
pub proof fn lemma_lines_prefix(a: Seq<char>, b: Seq<char>)
    requires
        !has_char(a, '\n'),
    ensures
        lines(a + seq!['\n'] + b) == seq![strip_cr(a)] + lines(b),
{
    lemma_split_prefix(a, '\n', b);
    lemma_split_nonempty(b, '\n');
    let q = split(b, '\n');
    let p = split(a + seq!['\n'] + b, '\n');
    assert(p == seq![a] + q);
    let m = q.len() as int;
    let n = p.len() as int;
    assert(n == m + 1);
    assert(p[n - 1] == q[m - 1]);
    let l = lines(a + seq!['\n'] + b);
    let lb = lines(b);
    if q[m - 1].len() == 0 {
        assert(l.len() == n - 1);
        assert(lb.len() == m - 1);
        assert forall|i: int| 0 <= i < l.len() implies l[i] == (seq![strip_cr(a)] + lb)[i] by {
            if i > 0 {
                assert(p[i] == q[i - 1]);
            }
        }
    } else {
        assert(l.len() == n);
        assert(lb.len() == m);
        assert forall|i: int| 0 <= i < l.len() implies l[i] == (seq![strip_cr(a)] + lb)[i] by {
            if i > 0 {
                assert(p[i] == q[i - 1]);
            }
        }
    }
    assert(l =~= seq![strip_cr(a)] + lb);
}

/// Text that neither starts nor ends with white space trims to itself.
pub proof fn lemma_trim_plain(s: Seq<char>)
    requires
        s.len() > 0,
        !is_ws(s[0]),
        !is_ws(s.last()),
    ensures
        trim_start(s) == s,
        trim_end(s) == s,
        trim(s) == s,
{
}

/// One leading white-space character goes, then the rest trims as it
/// starts.
pub proof fn lemma_trim_start_one(c: char, s: Seq<char>)
    requires
        is_ws(c),
        s.len() > 0,
        !is_ws(s[0]),
    ensures
        trim_start(seq![c] + s) == s,
{
    assert(trim_start(s) == s);
    assert((seq![c] + s).drop_first() =~= s);
    assert((seq![c] + s)[0] == c);
}

/// One trailing white-space character goes.
pub proof fn lemma_trim_end_one(s: Seq<char>, c: char)
    requires
        is_ws(c),
        s.len() > 0,
        !is_ws(s.last()),
    ensures
        trim_end(s + seq![c]) == s,
{
    assert(trim_end(s) == s);
    assert((s + seq![c]).drop_last() =~= s);
    assert((s + seq![c]).last() == c);
}

/// A text wrapped in one `c` on each side, where the text itself
/// neither starts nor ends with `c`, unwraps to the text.
pub proof fn lemma_unwrap(c: char, s: Seq<char>)
    requires
        s.len() > 0,
        s[0] != c,
        s.last() != c,
    ensures
        trim_matches(seq![c] + s + seq![c], c) == s,
{
    let w = seq![c] + s + seq![c];
    let t = s + seq![c];
    assert(w[0] == c);
    assert(w.drop_first() =~= t);
    assert(t[0] == s[0]);
    assert(trim_start_char(t, c) == t);
    assert(trim_start_char(w, c) == trim_start_char(t, c));
    assert(t.last() == c);
    assert(t.drop_last() =~= s);
    assert(trim_end_char(s, c) == s);
    assert(trim_end_char(t, c) == trim_end_char(s, c));
}

/// A text that neither starts nor ends with `c` is untouched by
/// `trim_matches`.
pub proof fn lemma_trim_matches_plain(s: Seq<char>, c: char)
    requires
        s.len() > 0,
        s[0] != c,
        s.last() != c,
    ensures
        trim_matches(s, c) == s,
{
}

/// A character occurs in a concatenation exactly when it occurs in a
/// part.
pub proof fn lemma_has_char_concat(a: Seq<char>, b: Seq<char>, c: char)
    ensures
        has_char(a + b, c) <==> has_char(a, c) || has_char(b, c),
{
    if has_char(a + b, c) {
        let k = choose|k: int| 0 <= k < (a + b).len() && (a + b)[k] == c;
        if k < a.len() {
            assert(a[k] == c);
        } else {
            assert(b[k - a.len()] == c);
        }
    }
    if has_char(a, c) {
        let k = choose|k: int| 0 <= k < a.len() && a[k] == c;
        assert((a + b)[k] == c);
    }
    if has_char(b, c) {
        let k = choose|k: int| 0 <= k < b.len() && b[k] == c;
        assert((a + b)[a.len() + k] == c);
    }
}

/// Joining parts that lack a character, with a separator that lacks
/// it, gives a text that lacks it.
pub proof fn lemma_join_lacks(parts: Seq<Seq<char>>, sep: Seq<char>, c: char)
    requires
        !has_char(sep, c),
        forall|i: int| 0 <= i < parts.len() ==> !has_char(#[trigger] parts[i], c),
    ensures
        !has_char(join(parts, sep), c),
    decreases parts.len(),
{
    if parts.len() == 1 {
        assert(!has_char(parts[0], c));
    } else if parts.len() > 1 {
        let init = parts.drop_last();
        assert forall|i: int| 0 <= i < init.len() implies !has_char(#[trigger] init[i], c) by {
            assert(init[i] == parts[i]);
        }
        lemma_join_lacks(init, sep, c);
        lemma_has_char_concat(join(init, sep), sep, c);
        lemma_has_char_concat(join(init, sep) + sep, parts.last(), c);
        assert(!has_char(parts[parts.len() - 1], c));
    } else {
        let e: Seq<char> = seq![];
        assert(join(parts, sep) =~= e);
    }
}

/// Decimal text reads back as its number: it is all digits, starts
/// with no `+`, and its digits' value is the number.
pub proof fn decimal_reads_back(n: nat)
    ensures
        decimal(n).len() > 0,
        all_digits(decimal(n)),
        digits_value(decimal(n)) == n,
        decimal(n)[0] != '+',
        parse_unsigned(decimal(n), n) == Some(n),
    decreases n,
{
    if n < 10 {
        let s = decimal(n);
        assert(s.drop_last() =~= Seq::<char>::empty());
        assert(digits_value(s) == digits_value(s.drop_last()) * 10 + ((s.last() as nat) - ('0' as nat)) as nat);
    } else {
        decimal_reads_back(n / 10);
        let s = decimal(n);
        let p = decimal(n / 10);
        assert(s.drop_last() =~= p);
        assert(s.last() == digit_char(n % 10));
        assert(digits_value(s) == digits_value(p) * 10 + n % 10);
        assert(s[0] == p[0]);
    }
}

} // verus!

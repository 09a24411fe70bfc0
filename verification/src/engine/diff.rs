//! Unified-diff parsing (`git diff -U3 --no-color`) with byte-exact hunk
//! text, plus the argv of the per-file diff commands.

use crate::engine::{arg_views, args_of, literal, literal_magic};
use crate::text::{lossy, utf8_lossy};
use vstd::prelude::*;

verus! {

#[derive(Clone, Copy, Debug, PartialEq, Eq, Structural)]
pub enum DiffLineKind {
    Context,
    Add,
    Del,
}

#[derive(Clone, Debug)]
pub struct DiffLine {
    pub kind: DiffLineKind,
    /// Line content without the leading ` `/`+`/`-` marker.
    pub content: String,
    /// Preceded by a `\ No newline at end of file` marker.
    pub no_newline: bool,
}

#[derive(Clone, Debug)]
pub struct DiffHunk {
    /// The full `@@ -a,b +c,d @@ context` line (lossy-decoded for display).
    pub header: String,
    pub lines: Vec<DiffLine>,
    /// Byte-exact hunk text (header + lines), consumed verbatim by
    /// `git apply --cached` in hunk staging.
    pub raw: Vec<u8>,
}

#[derive(Clone, Debug)]
pub struct UnifiedDiff {
    /// Everything before the first hunk: `diff --git`, index, `---/+++`,
    /// rename/mode lines (lossy-decoded for display).
    pub header: String,
    /// The same header, byte-exact (the prefix of a hunk-staging patch).
    pub header_raw: Vec<u8>,
    pub hunks: Vec<DiffHunk>,
    pub binary: bool,
}

/// Working-tree content shown for untracked and conflicted files
/// (which `git diff` does not express).
#[derive(Clone, Debug, PartialEq, Eq)]
pub enum Preview {
    Text { content: String, truncated: bool },
    Binary,
    Directory,
    Missing,
}

pub struct LineView {
    pub kind: DiffLineKind,
    pub content: Seq<char>,
    pub no_newline: bool,
}

pub struct HunkView {
    pub header: Seq<char>,
    pub lines: Seq<LineView>,
    pub raw: Seq<u8>,
}

pub struct DiffView {
    pub header: Seq<char>,
    pub header_raw: Seq<u8>,
    pub hunks: Seq<HunkView>,
    pub binary: bool,
}

impl View for DiffLine {
    type V = LineView;

    open spec fn view(&self) -> LineView {
        LineView { kind: self.kind, content: self.content@, no_newline: self.no_newline }
    }
}

pub open spec fn line_views(s: Seq<DiffLine>) -> Seq<LineView> {
    s.map_values(|l: DiffLine| l@)
}

impl View for DiffHunk {
    type V = HunkView;

    open spec fn view(&self) -> HunkView {
        HunkView { header: self.header@, lines: line_views(self.lines@), raw: self.raw@ }
    }
}

pub open spec fn hunk_views(s: Seq<DiffHunk>) -> Seq<HunkView> {
    s.map_values(|h: DiffHunk| h@)
}

impl View for UnifiedDiff {
    type V = DiffView;

    open spec fn view(&self) -> DiffView {
        DiffView {
            header: self.header@,
            header_raw: self.header_raw@,
            hunks: hunk_views(self.hunks@),
            binary: self.binary,
        }
    }
}

// ---------------------------------------------------------------------
// Byte lines
// ---------------------------------------------------------------------

pub open spec fn byte_prefix(s: Seq<u8>, p: Seq<u8>) -> bool {
    p.len() <= s.len() && s.take(p.len() as int) == p
}

/// Length of the first line of `s`, newline included (all of `s` when it
/// has no newline).
pub open spec fn first_line_len(s: Seq<u8>) -> int {
    if exists|k: int| 0 <= k < s.len() && s[k] == 10u8 {
        (choose|k: int|
            0 <= k < s.len() && s[k] == 10u8 && forall|j: int| 0 <= j < k ==> s[j] != 10u8) + 1
    } else {
        s.len() as int
    }
}

/// `s` cut after every newline (`split_inclusive`): no empty pieces, and
/// the pieces concatenate back to `s`.
pub open spec fn byte_lines(s: Seq<u8>) -> Seq<Seq<u8>>
    decreases s.len(),
{
    if s.len() == 0 {
        seq![]
    } else {
        let e = first_line_len(s);
        if 0 < e <= s.len() {
            seq![s.take(e)] + byte_lines(s.skip(e))
        } else {
            seq![s]
        }
    }
}

/// The concatenation of byte strings.
pub open spec fn concat(parts: Seq<Seq<u8>>) -> Seq<u8>
    decreases parts.len(),
{
    if parts.len() == 0 {
        seq![]
    } else {
        concat(parts.drop_last()) + parts.last()
    }
}

/// A line without its final newline.
pub open spec fn chomp(line: Seq<u8>) -> Seq<u8> {
    if line.len() > 0 && line.last() == 10u8 {
        line.drop_last()
    } else {
        line
    }
}

pub open spec fn at_sign_prefix() -> Seq<u8> {
    seq![64u8, 64u8]
}

pub open spec fn binary_files_prefix() -> Seq<u8> {
    "Binary files "@.map_values(|c: char| c as u8)
}

pub open spec fn binary_patch_prefix() -> Seq<u8> {
    "GIT binary patch"@.map_values(|c: char| c as u8)
}

/// Parser state: the diff read so far and the open hunk.
pub type DiffState = (DiffView, Option<HunkView>);

/// A body line of a hunk, classified by its first byte.
pub open spec fn body_line(hunk: HunkView, line: Seq<u8>) -> HunkView {
    let s = chomp(line);
    let raw = hunk.raw + line;
    if s.len() > 0 && s[0] == 43u8 {
        HunkView {
            lines: hunk.lines.push(
                LineView { kind: DiffLineKind::Add, content: utf8_lossy(s.skip(1)), no_newline: false },
            ),
            raw,
            ..hunk
        }
    } else if s.len() > 0 && s[0] == 45u8 {
        HunkView {
            lines: hunk.lines.push(
                LineView { kind: DiffLineKind::Del, content: utf8_lossy(s.skip(1)), no_newline: false },
            ),
            raw,
            ..hunk
        }
    } else if s.len() > 0 && s[0] == 92u8 {
        if hunk.lines.len() > 0 {
            HunkView {
                lines: hunk.lines.update(
                    hunk.lines.len() - 1,
                    LineView { no_newline: true, ..hunk.lines.last() },
                ),
                raw,
                ..hunk
            }
        } else {
            HunkView { raw, ..hunk }
        }
    } else if s.len() > 0 && s[0] == 32u8 {
        HunkView {
            lines: hunk.lines.push(
                LineView {
                    kind: DiffLineKind::Context,
                    content: utf8_lossy(s.skip(1)),
                    no_newline: false,
                },
            ),
            raw,
            ..hunk
        }
    } else {
        HunkView {
            lines: hunk.lines.push(
                LineView { kind: DiffLineKind::Context, content: utf8_lossy(s), no_newline: false },
            ),
            raw,
            ..hunk
        }
    }
}

pub open spec fn close_hunk(d: DiffView, cur: Option<HunkView>) -> DiffView {
    match cur {
        Some(h) => DiffView { hunks: d.hunks.push(h), ..d },
        None => d,
    }
}

pub open spec fn diff_step(st: DiffState, line: Seq<u8>) -> DiffState {
    let d = st.0;
    if d.binary {
        st
    } else if byte_prefix(line, at_sign_prefix()) {
        (
            close_hunk(d, st.1),
            Some(HunkView { header: utf8_lossy(line), lines: seq![], raw: line }),
        )
    } else if st.1 is None {
        (
            DiffView {
                binary: byte_prefix(line, binary_files_prefix()) || byte_prefix(
                    line,
                    binary_patch_prefix(),
                ),
                header_raw: d.header_raw + line,
                ..d
            },
            None,
        )
    } else {
        (d, Some(body_line(st.1->0, line)))
    }
}

pub open spec fn diff_fold(ls: Seq<Seq<u8>>) -> DiffState
    decreases ls.len(),
{
    if ls.len() == 0 {
        (DiffView { header: seq![], header_raw: seq![], hunks: seq![], binary: false }, None)
    } else {
        diff_step(diff_fold(ls.drop_last()), ls.last())
    }
}

/// The diff a single-file unified diff describes. Display strings are
/// lossy-decoded; `header_raw` and every hunk's `raw` keep the bytes.
pub open spec fn unified_diff(input: Seq<u8>) -> DiffView {
    let st = diff_fold(byte_lines(input));
    let d = close_hunk(st.0, st.1);
    DiffView { header: utf8_lossy(d.header_raw), ..d }
}

// ---------------------------------------------------------------------
// Executable parser
// ---------------------------------------------------------------------

pub(crate) fn line_end(input: &[u8], pos: usize) -> (e: usize)
    requires
        pos < input@.len(),
    ensures
        pos < e <= input@.len(),
        e - pos == first_line_len(input@.skip(pos as int)),
{
    let mut k = pos;
    while k < input.len()
        invariant
            pos <= k <= input@.len(),
            forall|j: int| pos <= j < k ==> input@[j] != 10u8,
        decreases input@.len() - k,
    {
        if input[k] == 10u8 {
            proof {
                let t = input@.skip(pos as int);
                assert(t[k - pos] == 10u8);
                let c = choose|c: int|
                    0 <= c < t.len() && t[c] == 10u8 && forall|j: int| 0 <= j < c ==> t[j] != 10u8;
                assert forall|j: int| 0 <= j < k - pos implies t[j] != 10u8 by {
                    assert(t[j] == input@[pos + j]);
                }
                if c < k - pos {
                    assert(t[c] == input@[pos + c]);
                }
            }
            return k + 1;
        }
        k += 1;
    }
    proof {
        let t = input@.skip(pos as int);
        if exists|c: int| 0 <= c < t.len() && t[c] == 10u8 {
            let c = choose|c: int| 0 <= c < t.len() && t[c] == 10u8;
            assert(t[c] == input@[pos + c]);
        }
    }
    k
}

pub(crate) fn starts_with_bytes(input: &[u8], lo: usize, hi: usize, p: &[u8]) -> (b: bool)
    requires
        lo <= hi <= input@.len(),
    ensures
        b == byte_prefix(input@.subrange(lo as int, hi as int), p@),
{
    if p.len() > hi - lo {
        return false;
    }
    let mut i: usize = 0;
    while i < p.len()
        invariant
            lo + p@.len() <= hi <= input@.len(),
            i <= p@.len(),
            forall|j: int| 0 <= j < i ==> input@[lo + j] == p@[j],
        decreases p@.len() - i,
    {
        if input[lo + i] != p[i] {
            proof {
                assert(input@.subrange(lo as int, hi as int).take(p@.len() as int)[i as int]
                    == input@[lo + i]);
            }
            return false;
        }
        i += 1;
    }
    proof {
        assert(input@.subrange(lo as int, hi as int).take(p@.len() as int) =~= p@);
    }
    true
}

pub(crate) fn append_bytes(dst: &mut Vec<u8>, src: &[u8], lo: usize, hi: usize)
    requires
        lo <= hi <= src@.len(),
    ensures
        final(dst)@ == old(dst)@ + src@.subrange(lo as int, hi as int),
{
    let ghost start = dst@;
    let mut i = lo;
    while i < hi
        invariant
            lo <= i <= hi <= src@.len(),
            dst@ == start + src@.subrange(lo as int, i as int),
        decreases hi - i,
    {
        dst.push(src[i]);
        i += 1;
        proof {
            assert(dst@ =~= start + src@.subrange(lo as int, i as int));
        }
    }
}

/// The bytes of an ASCII text.
pub(crate) fn ascii_bytes(s: &str) -> (b: Vec<u8>)
    ensures
        b@ == s@.map_values(|c: char| c as u8),
{
    let v = crate::text::chars_of(s);
    let mut b: Vec<u8> = Vec::new();
    let mut i: usize = 0;
    while i < v.len()
        invariant
            i <= v.len(),
            v@ == s@,
            b@ == v@.take(i as int).map_values(|c: char| c as u8),
        decreases v.len() - i,
    {
        b.push(v[i] as u8);
        i += 1;
        proof {
            assert(b@ =~= v@.take(i as int).map_values(|c: char| c as u8));
        }
    }
    proof {
        assert(v@.take(v@.len() as int) =~= v@);
    }
    b
}

pub(crate) proof fn lemma_byte_lines_step(s: Seq<u8>, pos: int, e: int)
    requires
        0 <= pos < e <= s.len(),
        e - pos == first_line_len(s.skip(pos)),
    ensures
        byte_lines(s.skip(pos)) == seq![s.subrange(pos, e)] + byte_lines(s.skip(e)),
{
    let t = s.skip(pos);
    assert(t.take(e - pos) =~= s.subrange(pos, e));
    assert(t.skip(e - pos) =~= s.skip(e));
}

fn parse_body_line(hunk: &mut DiffHunk, input: &[u8], lo: usize, hi: usize)
    requires
        lo < hi <= input@.len(),
    ensures
        final(hunk)@ == body_line(old(hunk)@, input@.subrange(lo as int, hi as int)),
{
    let ghost line = input@.subrange(lo as int, hi as int);
    let ghost before = hunk@;
    append_bytes(&mut hunk.raw, input, lo, hi);
    let end = if input[hi - 1] == 10u8 { hi - 1 } else { hi };
    proof {
        assert(input@.subrange(lo as int, end as int) =~= chomp(line));
    }
    let ghost s = chomp(line);
    if end > lo && input[lo] == 43u8 {
        let content = lossy(&input[lo + 1..end]);
        proof {
            assert(input@.subrange(lo + 1, end as int) =~= s.skip(1));
        }
        let l = DiffLine { kind: DiffLineKind::Add, content, no_newline: false };
        let ghost ls = line_views(hunk.lines@);
        hunk.lines.push(l);
        proof {
            assert(line_views(hunk.lines@) =~= ls.push(l@));
        }
    } else if end > lo && input[lo] == 45u8 {
        let content = lossy(&input[lo + 1..end]);
        proof {
            assert(input@.subrange(lo + 1, end as int) =~= s.skip(1));
        }
        let l = DiffLine { kind: DiffLineKind::Del, content, no_newline: false };
        let ghost ls = line_views(hunk.lines@);
        hunk.lines.push(l);
        proof {
            assert(line_views(hunk.lines@) =~= ls.push(l@));
        }
    } else if end > lo && input[lo] == 92u8 {
        let n = hunk.lines.len();
        if n > 0 {
            let ghost ls = line_views(hunk.lines@);
            hunk.lines[n - 1].no_newline = true;
            proof {
                assert(line_views(hunk.lines@) =~= ls.update(
                    n - 1,
                    LineView { no_newline: true, ..ls.last() },
                ));
            }
        }
    } else if end > lo && input[lo] == 32u8 {
        let content = lossy(&input[lo + 1..end]);
        proof {
            assert(input@.subrange(lo + 1, end as int) =~= s.skip(1));
        }
        let l = DiffLine { kind: DiffLineKind::Context, content, no_newline: false };
        let ghost ls = line_views(hunk.lines@);
        hunk.lines.push(l);
        proof {
            assert(line_views(hunk.lines@) =~= ls.push(l@));
        }
    } else {
        let content = lossy(&input[lo..end]);
        let l = DiffLine { kind: DiffLineKind::Context, content, no_newline: false };
        let ghost ls = line_views(hunk.lines@);
        hunk.lines.push(l);
        proof {
            assert(line_views(hunk.lines@) =~= ls.push(l@));
        }
    }
}

#[verifier::spinoff_prover]
#[verifier::rlimit(40)]
/// Parses a single-file `git diff -U3 --no-color` output. Display strings
/// are lossy-decoded, but the header's and every hunk's raw bytes are
/// preserved exactly.
pub fn parse_unified_diff(input: &[u8]) -> (diff: UnifiedDiff)
    ensures
        diff@ == unified_diff(input@),
{
    let at = ascii_bytes("@@");
    proof {
        reveal_strlit("@@");
        assert(at@ =~= at_sign_prefix());
    }
    let bin1 = ascii_bytes("Binary files ");
    let bin2 = ascii_bytes("GIT binary patch");
    let mut diff = UnifiedDiff {
        header: String::new(),
        header_raw: Vec::new(),
        hunks: Vec::new(),
        binary: false,
    };
    let mut cur: Option<DiffHunk> = None;
    let mut pos: usize = 0;
    let ghost mut done: Seq<Seq<u8>> = seq![];
    proof {
        assert(input@.skip(0) =~= input@);
        assert(hunk_views(diff.hunks@) =~= Seq::<HunkView>::empty());
        assert(diff@.header =~= Seq::<char>::empty());
    }
    while pos < input.len()
        invariant
            pos <= input@.len(),
            at@ == at_sign_prefix(),
            bin1@ == binary_files_prefix(),
            bin2@ == binary_patch_prefix(),
            done + byte_lines(input@.skip(pos as int)) == byte_lines(input@),
            diff@.header == Seq::<char>::empty(),
            (diff@, match cur {
                Some(h) => Some(h@),
                None => None,
            }) == (DiffView { header: seq![], ..diff_fold(done).0 }, diff_fold(done).1),
            diff_fold(done).0.header == Seq::<char>::empty(),
        decreases input@.len() - pos,
    {
        let e = line_end(input, pos);
        proof {
            lemma_byte_lines_step(input@, pos as int, e as int);
            assert(byte_lines(input@.skip(pos as int)) == seq![input@.subrange(pos as int, e as int)]
                + byte_lines(input@.skip(e as int)));
        }
        let ghost line = input@.subrange(pos as int, e as int);
        let ghost prev = diff_fold(done);
        proof {
            assert((done.push(line)).drop_last() =~= done);
            assert(done.push(line) + byte_lines(input@.skip(e as int)) =~= done + (seq![line]
                + byte_lines(input@.skip(e as int))));
        }
        if diff.binary {
        } else if starts_with_bytes(input, pos, e, &at) {
            match cur.take() {
                Some(h) => {
                    let ghost hs = hunk_views(diff.hunks@);
                    diff.hunks.push(h);
                    proof {
                        assert(hunk_views(diff.hunks@) =~= hs.push(h@));
                    }
                },
                None => {},
            }
            let mut raw: Vec<u8> = Vec::new();
            append_bytes(&mut raw, input, pos, e);
            proof {
                assert(raw@ =~= line);
            }
            let h = DiffHunk { header: lossy(&input[pos..e]), lines: Vec::new(), raw };
            proof {
                assert(line_views(h.lines@) =~= Seq::<LineView>::empty());
            }
            cur = Some(h);
        } else if cur.is_none() {
            let b = starts_with_bytes(input, pos, e, &bin1) || starts_with_bytes(
                input,
                pos,
                e,
                &bin2,
            );
            diff.binary = b;
            append_bytes(&mut diff.header_raw, input, pos, e);
        } else {
            match cur.take() {
                Some(mut h) => {
                    parse_body_line(&mut h, input, pos, e);
                    cur = Some(h);
                },
                None => {},
            }
        }
        proof {
            done = done.push(line);
        }
        pos = e;
    }
    proof {
        assert(input@.skip(pos as int) =~= Seq::<u8>::empty());
        assert(done =~= byte_lines(input@));
    }
    match cur.take() {
        Some(h) => {
            let ghost hs = hunk_views(diff.hunks@);
            diff.hunks.push(h);
            proof {
                assert(hunk_views(diff.hunks@) =~= hs.push(h@));
            }
        },
        None => {},
    }
    diff.header = lossy(diff.header_raw.as_slice());
    diff
}

// ---------------------------------------------------------------------
// Byte exactness
// ---------------------------------------------------------------------

pub open spec fn hunk_raws(hs: Seq<HunkView>) -> Seq<Seq<u8>> {
    hs.map_values(|h: HunkView| h.raw)
}

pub open spec fn open_raw(cur: Option<HunkView>) -> Seq<u8> {
    match cur {
        Some(h) => h.raw,
        None => seq![],
    }
}

proof fn lemma_concat_prepend(a: Seq<u8>, rest: Seq<Seq<u8>>)
    ensures
        concat(seq![a] + rest) == a + concat(rest),
    decreases rest.len(),
{
    if rest.len() == 0 {
        assert(seq![a] + rest =~= seq![a]);
        assert(seq![a].drop_last() =~= Seq::<Seq<u8>>::empty());
        assert(concat(seq![a]) == concat(Seq::<Seq<u8>>::empty()) + a);
        assert(Seq::<u8>::empty() + a =~= a);
        assert(a + Seq::<u8>::empty() =~= a);
    } else {
        lemma_concat_prepend(a, rest.drop_last());
        assert((seq![a] + rest).drop_last() =~= seq![a] + rest.drop_last());
        assert((seq![a] + rest).last() == rest.last());
        assert(a + concat(rest.drop_last()) + rest.last() =~= a + (concat(rest.drop_last())
            + rest.last()));
    }
}

proof fn lemma_line_len_bounds(s: Seq<u8>)
    requires
        s.len() > 0,
    ensures
        0 < first_line_len(s) <= s.len(),
{
    if exists|k: int| 0 <= k < s.len() && s[k] == 10u8 {
        let w = choose|k: int| 0 <= k < s.len() && s[k] == 10u8;
        lemma_first_newline(s, w);
    }
}

proof fn lemma_concat_byte_lines(s: Seq<u8>)
    ensures
        concat(byte_lines(s)) == s,
    decreases s.len(),
{
    if s.len() > 0 {
        lemma_line_len_bounds(s);
        let e = first_line_len(s);
        lemma_concat_byte_lines(s.skip(e));
        lemma_concat_prepend(s.take(e), byte_lines(s.skip(e)));
        assert(s.take(e) + s.skip(e) =~= s);
    }
}

proof fn lemma_first_newline(s: Seq<u8>, w: int)
    requires
        0 <= w < s.len(),
        s[w] == 10u8,
    ensures
        exists|k: int|
            0 <= k < s.len() && s[k] == 10u8 && forall|j: int| 0 <= j < k ==> s[j] != 10u8,
    decreases w,
{
    if exists|j: int| 0 <= j < w && s[j] == 10u8 {
        let j = choose|j: int| 0 <= j < w && s[j] == 10u8;
        lemma_first_newline(s, j);
    } else {
        assert(forall|j: int| 0 <= j < w ==> s[j] != 10u8);
    }
}

pub open spec fn fold_exact(st: DiffState, ls: Seq<Seq<u8>>) -> bool {
    &&& !st.0.binary ==> st.0.header_raw + concat(hunk_raws(st.0.hunks)) + open_raw(st.1) == concat(
        ls,
    )
    &&& st.0.hunks.len() > 0 ==> st.1 is Some
}

#[verifier::spinoff_prover]
proof fn lemma_step_exact(st: DiffState, prev: Seq<Seq<u8>>, line: Seq<u8>)
    requires
        fold_exact(st, prev),
    ensures
        fold_exact(diff_step(st, line), prev.push(line)),
{
    assert(prev.push(line).drop_last() =~= prev);
    let d = st.0;
    let hr = concat(hunk_raws(d.hunks));
    if !d.binary {
        if byte_prefix(line, at_sign_prefix()) {
            match st.1 {
                Some(h) => {
                    assert(hunk_raws(d.hunks.push(h)) =~= hunk_raws(d.hunks).push(h.raw));
                    assert(hunk_raws(d.hunks.push(h)).drop_last() =~= hunk_raws(d.hunks));
                    assert(concat(hunk_raws(d.hunks.push(h))) == hr + h.raw);
                    assert(d.header_raw + (hr + h.raw) + line =~= d.header_raw + hr + h.raw + line);
                },
                None => {
                    assert(d.header_raw + hr + Seq::<u8>::empty() =~= d.header_raw + hr);
                },
            }
        } else if st.1 is None {
            assert(hunk_raws(d.hunks).len() == 0);
            assert(hr =~= Seq::<u8>::empty());
            assert((d.header_raw + line) + hr + Seq::<u8>::empty() =~= d.header_raw + hr
                + Seq::<u8>::empty() + line);
        } else {
            let h = st.1->0;
            assert(body_line(h, line).raw == h.raw + line);
            assert(d.header_raw + hr + (h.raw + line) =~= d.header_raw + hr + h.raw + line);
        }
    }
}

proof fn lemma_fold_bytes(ls: Seq<Seq<u8>>)
    ensures
        fold_exact(diff_fold(ls), ls),
    decreases ls.len(),
{
    if ls.len() > 0 {
        lemma_fold_bytes(ls.drop_last());
        lemma_step_exact(diff_fold(ls.drop_last()), ls.drop_last(), ls.last());
        assert(ls.drop_last().push(ls.last()) =~= ls);
    } else {
        assert(concat(hunk_raws(Seq::<HunkView>::empty())) =~= Seq::<u8>::empty());
        assert(Seq::<u8>::empty() + Seq::<u8>::empty() + Seq::<u8>::empty() =~= Seq::<u8>::empty());
    }
}

/// A diff's bytes survive parsing exactly: unless the diff is binary,
/// the raw header followed by every hunk's raw text, in order, is the
/// input itself.
#[verifier::spinoff_prover]
pub proof fn raw_is_byte_exact(input: Seq<u8>)
    ensures
        !unified_diff(input).binary ==> unified_diff(input).header_raw + concat(
            hunk_raws(unified_diff(input).hunks),
        ) == input,
{
    let ls = byte_lines(input);
    lemma_fold_bytes(ls);
    lemma_concat_byte_lines(input);
    let st = diff_fold(ls);
    match st.1 {
        Some(h) => {
            assert(hunk_raws(st.0.hunks.push(h)) =~= hunk_raws(st.0.hunks).push(h.raw));
            assert(hunk_raws(st.0.hunks.push(h)).drop_last() =~= hunk_raws(st.0.hunks));
            assert(st.0.header_raw + concat(hunk_raws(st.0.hunks)) + h.raw =~= st.0.header_raw
                + (concat(hunk_raws(st.0.hunks)) + h.raw));
        },
        None => {
            assert(st.0.header_raw + concat(hunk_raws(st.0.hunks)) + Seq::<u8>::empty()
                =~= st.0.header_raw + concat(hunk_raws(st.0.hunks)));
        },
    }
}

// ---------------------------------------------------------------------
// Commands
// ---------------------------------------------------------------------

/// Argv of the unstaged (worktree vs index) diff of one file. The
/// `--no-optional-locks` global option precedes the subcommand.
pub fn diff_unstaged(rel_path: &str) -> (args: Vec<String>)
    ensures
        arg_views(args@) == seq![
            "--no-optional-locks"@,
            "diff"@,
            "--no-color"@,
            "--no-ext-diff"@,
            "-U3"@,
            "--"@,
            literal_magic() + rel_path@,
        ],
{
    let mut args = args_of(&["--no-optional-locks", "diff", "--no-color", "--no-ext-diff", "-U3", "--"]);
    let ghost before = arg_views(args@);
    args.push(literal(rel_path));
    proof {
        assert(arg_views(args@) =~= before.push(literal_magic() + rel_path@));
    }
    args
}

/// Argv of the staged (index vs HEAD) diff of one file.
pub fn diff_staged(rel_path: &str) -> (args: Vec<String>)
    ensures
        arg_views(args@) == seq![
            "--no-optional-locks"@,
            "diff"@,
            "--cached"@,
            "--no-color"@,
            "--no-ext-diff"@,
            "-U3"@,
            "--"@,
            literal_magic() + rel_path@,
        ],
{
    let mut args = args_of(
        &["--no-optional-locks", "diff", "--cached", "--no-color", "--no-ext-diff", "-U3", "--"],
    );
    let ghost before = arg_views(args@);
    args.push(literal(rel_path));
    proof {
        assert(arg_views(args@) =~= before.push(literal_magic() + rel_path@));
    }
    args
}

// ---------------------------------------------------------------------
// Working-tree preview
// ---------------------------------------------------------------------

/// Bytes of a file the preview shows at most.
pub const PREVIEW_MAX_BYTES: usize = 262144;

/// Leading bytes searched for a NUL, git's binary heuristic.
pub const BINARY_SNIFF_BYTES: usize = 8192;

/// The preview of what the file's kind allows without reading it: a
/// directory, anything that is not a regular file (a FIFO would block a
/// read forever) shown as binary, a missing file; `None` for a regular
/// file, which is read next.
pub fn preview_of_kind(exists: bool, is_dir: bool, is_file: bool) -> (p: Option<Preview>)
    ensures
        p == (if !exists {
            Some(Preview::Missing)
        } else if is_dir {
            Some(Preview::Directory)
        } else if !is_file {
            Some(Preview::Binary)
        } else {
            None
        }),
{
    if !exists {
        Some(Preview::Missing)
    } else if is_dir {
        Some(Preview::Directory)
    } else if !is_file {
        Some(Preview::Binary)
    } else {
        None
    }
}

/// Whether the first `n` bytes hold a NUL.
pub open spec fn has_nul(bytes: Seq<u8>, n: int) -> bool {
    exists|i: int| 0 <= i < n && i < bytes.len() && bytes[i] == 0
}

/// The preview of a regular file from its first bytes (the caller reads
/// at most one more than `PREVIEW_MAX_BYTES`): binary when a NUL shows in
/// the first `BINARY_SNIFF_BYTES`, else the text (lossy-decoded), cut at
/// `PREVIEW_MAX_BYTES` and flagged when longer.
pub fn preview_of(bytes: &[u8]) -> (p: Preview)
    ensures
        has_nul(bytes@, BINARY_SNIFF_BYTES as int) ==> p == Preview::Binary,
        !has_nul(bytes@, BINARY_SNIFF_BYTES as int) ==> (p matches Preview::Text { content, truncated }
            && truncated == (bytes@.len() > PREVIEW_MAX_BYTES) && content@ == utf8_lossy(
            if bytes@.len() > PREVIEW_MAX_BYTES {
                bytes@.take(PREVIEW_MAX_BYTES as int)
            } else {
                bytes@
            },
        )),
{
    let sniff = if bytes.len() < BINARY_SNIFF_BYTES {
        bytes.len()
    } else {
        BINARY_SNIFF_BYTES
    };
    let mut i: usize = 0;
    while i < sniff
        invariant
            i <= sniff <= bytes@.len(),
            sniff <= BINARY_SNIFF_BYTES,
            forall|j: int| 0 <= j < i ==> bytes@[j] != 0,
        decreases sniff - i,
    {
        if bytes[i] == 0 {
            return Preview::Binary;
        }
        i += 1;
    }
    let truncated = bytes.len() > PREVIEW_MAX_BYTES;
    let shown = if truncated {
        crate::bytes::copy_range(bytes, 0, PREVIEW_MAX_BYTES)
    } else {
        crate::bytes::copy_range(bytes, 0, bytes.len())
    };
    proof {
        if !truncated {
            assert(bytes@.subrange(0, bytes@.len() as int) =~= bytes@);
        } else {
            assert(bytes@.subrange(0, PREVIEW_MAX_BYTES as int) =~= bytes@.take(PREVIEW_MAX_BYTES as int));
        }
    }
    Preview::Text { content: lossy(shown.as_slice()), truncated }
}

} // verus!

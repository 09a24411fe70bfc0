//! The Working Copy snapshot: `git status --porcelain=v2 -z --branch`
//! and `git diff --numstat -z` parsing, their merge, and the grouped row
//! order the view displays.

use crate::text::{
    chars_of, ends_with, has_char_vec, has_prefix, lemma_split_nonempty, parse_u64_or_zero,
    slice_vec, split, split_chars, splitn, splitn_chars, starts_with, string_from, strip_prefix,
    trim, trim_vec, u64_or_zero, views,
};
use vstd::prelude::*;

verus! {

#[derive(Clone, Debug, Default, PartialEq)]
pub struct BranchInfo {
    /// `# branch.head` value: branch name or `(detached)`.
    pub head: String,
    pub upstream: Option<String>,
    pub ahead: u32,
    pub behind: u32,
}

#[derive(Clone, Debug, PartialEq)]
pub struct FileEntry {
    /// Repo-root-relative path in git's form (forward slashes).
    pub path: String,
    /// Rename/copy source (`2` records only).
    pub orig_path: Option<String>,
    /// X: index status letter (`.` when unchanged).
    pub index_status: char,
    /// Y: worktree status letter.
    pub wt_status: char,
    /// Unmerged code (`UU`, `AA`, `DU`, …) from `u` records.
    pub conflict: Option<String>,
    pub untracked: bool,
    /// numstat (+added, −deleted); `None` = binary or not applicable.
    pub staged_lines: Option<(u64, u64)>,
    pub unstaged_lines: Option<(u64, u64)>,
    /// The raw filename was not valid UTF-8, so the lossy path string here
    /// is mangled: pathspecs can't match it, and mutations on this entry
    /// are refused.
    pub unsupported: bool,
}

#[derive(Clone, Debug)]
pub struct WorkingCopy {
    pub branch: BranchInfo,
    pub entries: Vec<FileEntry>,
}

#[derive(Clone, Copy, Debug, PartialEq, Eq, Structural)]
pub enum Group {
    Conflicts,
    Staged,
    Unstaged,
    Untracked,
}

pub struct BranchView {
    pub head: Seq<char>,
    pub upstream: Option<Seq<char>>,
    pub ahead: u32,
    pub behind: u32,
}

pub struct FileView {
    pub path: Seq<char>,
    pub orig_path: Option<Seq<char>>,
    pub index_status: char,
    pub wt_status: char,
    pub conflict: Option<Seq<char>>,
    pub untracked: bool,
    pub staged_lines: Option<(u64, u64)>,
    pub unstaged_lines: Option<(u64, u64)>,
    pub unsupported: bool,
}

pub struct WcView {
    pub branch: BranchView,
    pub entries: Seq<FileView>,
}

pub open spec fn opt_str(o: Option<String>) -> Option<Seq<char>> {
    match o {
        Some(s) => Some(s@),
        None => None,
    }
}

impl View for BranchInfo {
    type V = BranchView;

    open spec fn view(&self) -> BranchView {
        BranchView {
            head: self.head@,
            upstream: opt_str(self.upstream),
            ahead: self.ahead,
            behind: self.behind,
        }
    }
}

impl View for FileEntry {
    type V = FileView;

    open spec fn view(&self) -> FileView {
        FileView {
            path: self.path@,
            orig_path: opt_str(self.orig_path),
            index_status: self.index_status,
            wt_status: self.wt_status,
            conflict: opt_str(self.conflict),
            untracked: self.untracked,
            staged_lines: self.staged_lines,
            unstaged_lines: self.unstaged_lines,
            unsupported: self.unsupported,
        }
    }
}

pub open spec fn file_views(s: Seq<FileEntry>) -> Seq<FileView> {
    s.map_values(|e: FileEntry| e@)
}

impl View for WorkingCopy {
    type V = WcView;

    open spec fn view(&self) -> WcView {
        WcView { branch: self.branch@, entries: file_views(self.entries@) }
    }
}

impl FileEntry {
    /// Collapsed untracked directories are listed as `dir/` by git.
    pub fn is_dir(&self) -> (b: bool)
        ensures
            b == ends_with(self.path@, seq!['/']),
    {
        let v = chars_of(self.path.as_str());
        let b = v.len() > 0 && v[v.len() - 1] == '/';
        proof {
            if v@.len() > 0 {
                assert(v@.skip(v@.len() - 1) =~= seq![v@.last()]);
            }
            if b {
                assert(v@.skip(v@.len() - 1) =~= seq!['/']);
            } else if v@.len() > 0 {
                assert(v@.skip(v@.len() - 1)[0] == v@.last());
            }
        }
        b
    }
}

pub open spec fn group_title(g: Group) -> Seq<char> {
    match g {
        Group::Conflicts => "Conflicts"@,
        Group::Staged => "Staged"@,
        Group::Unstaged => "Unstaged"@,
        Group::Untracked => "Untracked"@,
    }
}

impl Group {
    pub fn title(self) -> (t: &'static str)
        ensures
            t@ == group_title(self),
    {
        match self {
            Group::Conflicts => "Conflicts",
            Group::Staged => "Staged",
            Group::Unstaged => "Unstaged",
            Group::Untracked => "Untracked",
        }
    }
}

// ---------------------------------------------------------------------
// Status v2 -z parsing
// ---------------------------------------------------------------------

pub open spec fn empty_branch() -> BranchView {
    BranchView { head: seq![], upstream: None, ahead: 0, behind: 0 }
}

/// One `+N` / `-N` token of a `# branch.ab` header.
pub open spec fn ab_step(b: BranchView, part: Seq<char>) -> BranchView {
    if starts_with(part, seq!['+']) {
        BranchView { ahead: u64_or_zero(part.skip(1)) as u32, ..b }
    } else if starts_with(part, seq!['-']) {
        BranchView { behind: u64_or_zero(part.skip(1)) as u32, ..b }
    } else {
        b
    }
}

pub open spec fn ab_fold(b: BranchView, parts: Seq<Seq<char>>) -> BranchView
    decreases parts.len(),
{
    if parts.len() == 0 {
        b
    } else {
        ab_step(ab_fold(b, parts.drop_last()), parts.last())
    }
}

/// One header line applied to the branch info.
pub open spec fn header_step(b: BranchView, line: Seq<char>) -> BranchView {
    if starts_with(line, "# branch.head "@) {
        BranchView { head: trim(line.skip("# branch.head "@.len() as int)), ..b }
    } else if starts_with(line, "# branch.upstream "@) {
        BranchView { upstream: Some(trim(line.skip("# branch.upstream "@.len() as int))), ..b }
    } else if starts_with(line, "# branch.ab "@) {
        ab_fold(b, split(line.skip("# branch.ab "@.len() as int), ' '))
    } else {
        b
    }
}

pub open spec fn header_fold(b: BranchView, ls: Seq<Seq<char>>) -> BranchView
    decreases ls.len(),
{
    if ls.len() == 0 {
        b
    } else {
        header_step(header_fold(b, ls.drop_last()), ls.last())
    }
}

pub open spec fn plain_entry(
    path: Seq<char>,
    x: char,
    y: char,
    conflict: Option<Seq<char>>,
    untracked: bool,
) -> FileView {
    FileView {
        path,
        orig_path: None,
        index_status: x,
        wt_status: y,
        conflict,
        untracked,
        staged_lines: None,
        unstaged_lines: None,
        unsupported: false,
    }
}

pub open spec fn xy_at(field: Seq<char>, i: int) -> char {
    if i < field.len() {
        field[i]
    } else {
        '.'
    }
}

/// Parser state: the snapshot so far, and whether the next chunk is the
/// previous rename record's original path.
pub type ZState = (WcView, bool);

pub open spec fn z_step(st: ZState, chunk: Seq<char>) -> ZState {
    let wc = st.0;
    if st.1 {
        let es = wc.entries;
        if es.len() > 0 {
            (
                WcView {
                    entries: es.update(
                        es.len() - 1,
                        FileView { orig_path: Some(chunk), ..es.last() },
                    ),
                    ..wc
                },
                false,
            )
        } else {
            (wc, false)
        }
    } else if chunk.len() == 0 {
        st
    } else if chunk[0] == '#' {
        (WcView { branch: header_fold(wc.branch, split(chunk, '\n')), ..wc }, false)
    } else if starts_with(chunk, "? "@) {
        (
            WcView { entries: wc.entries.push(plain_entry(chunk.skip(2), '?', '?', None, true)), ..wc },
            false,
        )
    } else if starts_with(chunk, "1 "@) {
        let f = splitn(chunk, 9, ' ');
        if f.len() == 9 {
            (
                WcView {
                    entries: wc.entries.push(
                        plain_entry(f[8], xy_at(f[1], 0), xy_at(f[1], 1), None, false),
                    ),
                    ..wc
                },
                false,
            )
        } else {
            st
        }
    } else if starts_with(chunk, "2 "@) {
        let f = splitn(chunk, 10, ' ');
        if f.len() == 10 {
            (
                WcView {
                    entries: wc.entries.push(
                        plain_entry(f[9], xy_at(f[1], 0), xy_at(f[1], 1), None, false),
                    ),
                    ..wc
                },
                starts_with(f[8], seq!['R']) || starts_with(f[8], seq!['C']),
            )
        } else {
            st
        }
    } else if starts_with(chunk, "u "@) {
        let f = splitn(chunk, 11, ' ');
        if f.len() == 11 {
            (
                WcView {
                    entries: wc.entries.push(plain_entry(f[10], 'U', 'U', Some(f[1]), false)),
                    ..wc
                },
                false,
            )
        } else {
            st
        }
    } else {
        st
    }
}

pub open spec fn z_fold(chunks: Seq<Seq<char>>) -> ZState
    decreases chunks.len(),
{
    if chunks.len() == 0 {
        (WcView { branch: empty_branch(), entries: seq![] }, false)
    } else {
        z_step(z_fold(chunks.drop_last()), chunks.last())
    }
}

/// The snapshot a `git status --porcelain=v2 -z --branch` listing
/// describes.
pub open spec fn status_z(input: Seq<char>) -> WcView {
    z_fold(split(input, '\0')).0
}

fn ab_update(b: &mut BranchInfo, rest: &Vec<char>)
    ensures
        final(b)@ == ab_fold(old(b)@, split(rest@, ' ')),
{
    let parts = split_chars(rest, ' ');
    let mut j: usize = 0;
    let ghost start = b@;
    while j < parts.len()
        invariant
            j <= parts.len(),
            views(parts@) == split(rest@, ' '),
            b@ == ab_fold(start, views(parts@).take(j as int)),
        decreases parts.len() - j,
    {
        proof {
            assert(views(parts@).take(j + 1).drop_last() =~= views(parts@).take(j as int));
            assert(views(parts@)[j as int] == parts@[j as int]@);
        }
        let part = &parts[j];
        if part.len() > 0 && part[0] == '+' {
            let n = slice_vec(part, 1, part.len());
            proof {
                assert(starts_with(part@, seq!['+'])) by {
                    assert(part@.take(1) =~= seq!['+']);
                }
                assert(n@ =~= part@.skip(1));
            }
            b.ahead = parse_u64_or_zero(&n) as u32;
        } else if part.len() > 0 && part[0] == '-' {
            let n = slice_vec(part, 1, part.len());
            proof {
                assert(!starts_with(part@, seq!['+'])) by {
                    assert(part@.take(1)[0] == part@[0]);
                }
                assert(starts_with(part@, seq!['-'])) by {
                    assert(part@.take(1) =~= seq!['-']);
                }
                assert(n@ =~= part@.skip(1));
            }
            b.behind = parse_u64_or_zero(&n) as u32;
        } else {
            proof {
                if part@.len() > 0 {
                    assert(part@.take(1)[0] == part@[0]);
                }
            }
        }
        j += 1;
    }
    proof {
        assert(views(parts@).take(parts.len() as int) =~= views(parts@));
    }
}

fn header_update(b: &mut BranchInfo, chunk: &Vec<char>)
    ensures
        final(b)@ == header_fold(old(b)@, split(chunk@, '\n')),
{
    let ls = split_chars(chunk, '\n');
    let ghost start = b@;
    let mut j: usize = 0;
    while j < ls.len()
        invariant
            j <= ls.len(),
            views(ls@) == split(chunk@, '\n'),
            b@ == header_fold(start, views(ls@).take(j as int)),
        decreases ls.len() - j,
    {
        proof {
            assert(views(ls@).take(j + 1).drop_last() =~= views(ls@).take(j as int));
            assert(views(ls@)[j as int] == ls@[j as int]@);
        }
        let line = &ls[j];
        if let Some(rest) = strip_prefix(line, "# branch.head ") {
            b.head = string_from(&trim_vec(&rest));
        } else if let Some(rest) = strip_prefix(line, "# branch.upstream ") {
            b.upstream = Some(string_from(&trim_vec(&rest)));
        } else if let Some(rest) = strip_prefix(line, "# branch.ab ") {
            ab_update(b, &rest);
        }
        j += 1;
    }
    proof {
        assert(views(ls@).take(ls.len() as int) =~= views(ls@));
    }
}

fn plain_file(path: String, x: char, y: char, conflict: Option<String>, untracked: bool) -> (e:
    FileEntry)
    ensures
        e@ == plain_entry(path@, x, y, opt_str(conflict), untracked),
{
    FileEntry {
        path,
        orig_path: None,
        index_status: x,
        wt_status: y,
        conflict,
        untracked,
        staged_lines: None,
        unstaged_lines: None,
        unsupported: false,
    }
}

fn xy_of(field: &Vec<char>) -> (r: (char, char))
    ensures
        r == (xy_at(field@, 0), xy_at(field@, 1)),
{
    let x = if field.len() > 0 { field[0] } else { '.' };
    let y = if field.len() > 1 { field[1] } else { '.' };
    (x, y)
}

proof fn lemma_starts_single(s: Seq<char>, c: char)
    ensures
        starts_with(s, seq![c]) == (s.len() > 0 && s[0] == c),
{
    if s.len() > 0 {
        assert(s.take(1)[0] == s[0]);
        if s[0] == c {
            assert(s.take(1) =~= seq![c]);
        }
    }
}

/// Parses `git status --porcelain=v2 -z --branch`. With `-z`, records are
/// NUL-terminated and header lines are LF-terminated inside one chunk; a
/// rename record's original path rides in the NEXT NUL chunk. Lenient:
/// unknown chunks are ignored.
pub fn parse_status_z(input: &str) -> (wc: WorkingCopy)
    ensures
        wc@ == status_z(input@),
{
    let mut wc = WorkingCopy {
        branch: BranchInfo { head: String::new(), upstream: None, ahead: 0, behind: 0 },
        entries: Vec::new(),
    };
    let chars = chars_of(input);
    let chunks = split_chars(&chars, '\0');
    let mut expect_orig_path = false;
    let mut i: usize = 0;
    proof {
        assert(file_views(wc.entries@) =~= Seq::<FileView>::empty());
        assert(wc.branch@.head =~= Seq::<char>::empty());
        assert(views(chunks@).take(0) =~= Seq::<Seq<char>>::empty());
    }
    while i < chunks.len()
        invariant
            i <= chunks.len(),
            views(chunks@) == split(input@, '\0'),
            (wc@, expect_orig_path) == z_fold(views(chunks@).take(i as int)),
        decreases chunks.len() - i,
    {
        proof {
            assert(views(chunks@).take(i + 1).drop_last() =~= views(chunks@).take(i as int));
            assert(views(chunks@)[i as int] == chunks@[i as int]@);
        }
        let chunk = &chunks[i];
        let ghost before = wc@;
        if expect_orig_path {
            let n = wc.entries.len();
            if n > 0 {
                let orig = string_from(chunk);
                wc.entries[n - 1].orig_path = Some(orig);
                proof {
                    assert(file_views(wc.entries@) =~= before.entries.update(
                        n - 1,
                        FileView { orig_path: Some(chunk@), ..before.entries.last() },
                    ));
                }
            }
            expect_orig_path = false;
        } else if chunk.len() == 0 {
        } else if chunk[0] == '#' {
            header_update(&mut wc.branch, chunk);
        } else if let Some(path) = strip_prefix(chunk, "? ") {
            proof {
                reveal_strlit("? ");
            }
            let e = plain_file(string_from(&path), '?', '?', None, true);
            wc.entries.push(e);
            proof {
                assert(file_views(wc.entries@) =~= before.entries.push(e@));
            }
        } else if has_prefix(chunk, "1 ") {
            let f = splitn_chars(chunk, 9, ' ');
            if f.len() == 9 {
                proof {
                    assert(views(f@)[1] == f@[1]@);
                    assert(views(f@)[8] == f@[8]@);
                }
                let (x, y) = xy_of(&f[1]);
                let e = plain_file(string_from(&f[8]), x, y, None, false);
                wc.entries.push(e);
                proof {
                    assert(file_views(wc.entries@) =~= before.entries.push(e@));
                }
            }
        } else if has_prefix(chunk, "2 ") {
            let f = splitn_chars(chunk, 10, ' ');
            if f.len() == 10 {
                proof {
                    assert(views(f@)[1] == f@[1]@);
                    assert(views(f@)[8] == f@[8]@);
                    assert(views(f@)[9] == f@[9]@);
                    lemma_starts_single(f@[8]@, 'R');
                    lemma_starts_single(f@[8]@, 'C');
                }
                let (x, y) = xy_of(&f[1]);
                let kind = &f[8];
                let is_rename = kind.len() > 0 && (kind[0] == 'R' || kind[0] == 'C');
                let e = plain_file(string_from(&f[9]), x, y, None, false);
                wc.entries.push(e);
                proof {
                    assert(file_views(wc.entries@) =~= before.entries.push(e@));
                }
                if is_rename {
                    expect_orig_path = true;
                }
            }
        } else if has_prefix(chunk, "u ") {
            let f = splitn_chars(chunk, 11, ' ');
            if f.len() == 11 {
                proof {
                    assert(views(f@)[1] == f@[1]@);
                    assert(views(f@)[10] == f@[10]@);
                }
                let e = plain_file(string_from(&f[10]), 'U', 'U', Some(string_from(&f[1])), false);
                wc.entries.push(e);
                proof {
                    assert(file_views(wc.entries@) =~= before.entries.push(e@));
                }
            }
        }
        i += 1;
    }
    proof {
        assert(views(chunks@).take(chunks.len() as int) =~= views(chunks@));
    }
    wc
}

// ---------------------------------------------------------------------
// numstat -z parsing and the snapshot merge
// ---------------------------------------------------------------------

/// One numstat record: path and (+added, −deleted), `None` for binary.
pub type NumstatView = (Seq<char>, Option<(u64, u64)>);

pub open spec fn numstat_step(acc: Seq<NumstatView>, chunk: Seq<char>) -> Seq<NumstatView> {
    let parts = splitn(chunk, 3, '\t');
    if chunk.len() == 0 || parts.len() != 3 {
        acc
    } else {
        let counts = if parts[0] == seq!['-'] || parts[1] == seq!['-'] {
            None
        } else {
            Some((u64_or_zero(parts[0]), u64_or_zero(parts[1])))
        };
        acc.push((parts[2], counts))
    }
}

pub open spec fn numstat_fold(chunks: Seq<Seq<char>>) -> Seq<NumstatView>
    decreases chunks.len(),
{
    if chunks.len() == 0 {
        seq![]
    } else {
        numstat_step(numstat_fold(chunks.drop_last()), chunks.last())
    }
}

/// The records of a `git diff --numstat -z` listing. Rename records'
/// original-path chunks carry no tabs and are skipped.
pub open spec fn numstat(input: Seq<char>) -> Seq<NumstatView> {
    numstat_fold(split(input, '\0'))
}

pub open spec fn numstat_views(v: Seq<(String, Option<(u64, u64)>)>) -> Seq<NumstatView> {
    v.map_values(|r: (String, Option<(u64, u64)>)| (r.0@, r.1))
}

fn is_dash(v: &Vec<char>) -> (b: bool)
    ensures
        b == (v@ == seq!['-']),
{
    let b = v.len() == 1 && v[0] == '-';
    proof {
        if b {
            assert(v@ =~= seq!['-']);
        }
    }
    b
}

/// Parses `git diff --numstat -z`: records are `added\tdeleted\tpath`,
/// NUL-terminated; `-` counts mean binary.
pub fn parse_numstat_z(input: &str) -> (out: Vec<(String, Option<(u64, u64)>)>)
    ensures
        numstat_views(out@) == numstat(input@),
{
    let chars = chars_of(input);
    let chunks = split_chars(&chars, '\0');
    let mut out: Vec<(String, Option<(u64, u64)>)> = Vec::new();
    let mut i: usize = 0;
    proof {
        assert(numstat_views(out@) =~= Seq::<NumstatView>::empty());
    }
    while i < chunks.len()
        invariant
            i <= chunks.len(),
            views(chunks@) == split(input@, '\0'),
            numstat_views(out@) == numstat_fold(views(chunks@).take(i as int)),
        decreases chunks.len() - i,
    {
        proof {
            assert(views(chunks@).take(i + 1).drop_last() =~= views(chunks@).take(i as int));
            assert(views(chunks@)[i as int] == chunks@[i as int]@);
        }
        let chunk = &chunks[i];
        if chunk.len() > 0 {
            let parts = splitn_chars(chunk, 3, '\t');
            if parts.len() == 3 {
                proof {
                    assert(views(parts@)[0] == parts@[0]@);
                    assert(views(parts@)[1] == parts@[1]@);
                    assert(views(parts@)[2] == parts@[2]@);
                }
                let counts = if is_dash(&parts[0]) || is_dash(&parts[1]) {
                    None
                } else {
                    Some((parse_u64_or_zero(&parts[0]), parse_u64_or_zero(&parts[1])))
                };
                let ghost before = numstat_views(out@);
                let path = string_from(&parts[2]);
                out.push((path, counts));
                proof {
                    assert(numstat_views(out@) =~= before.push((parts@[2]@, counts)));
                }
            }
        }
        i += 1;
    }
    proof {
        assert(views(chunks@).take(chunks.len() as int) =~= views(chunks@));
    }
    out
}

/// `i` is the last entry whose path is `path`.
pub open spec fn is_last_with_path(es: Seq<FileView>, path: Seq<char>, i: int) -> bool {
    &&& 0 <= i < es.len()
    &&& es[i].path == path
    &&& forall|j: int| i < j < es.len() ==> es[j].path != path
}

/// One numstat record merged into the entries: the LAST entry with the
/// record's path takes its counts (`staged` picks the surface).
pub open spec fn merge_step(es: Seq<FileView>, rec: NumstatView, staged: bool) -> Seq<FileView> {
    if exists|i: int| is_last_with_path(es, rec.0, i) {
        let i = choose|i: int| is_last_with_path(es, rec.0, i);
        if staged {
            es.update(i, FileView { staged_lines: rec.1, ..es[i] })
        } else {
            es.update(i, FileView { unstaged_lines: rec.1, ..es[i] })
        }
    } else {
        es
    }
}

pub open spec fn merge_fold(es: Seq<FileView>, recs: Seq<NumstatView>, staged: bool) -> Seq<
    FileView,
>
    decreases recs.len(),
{
    if recs.len() == 0 {
        es
    } else {
        merge_step(merge_fold(es, recs.drop_last(), staged), recs.last(), staged)
    }
}

/// The replacement character a lossy decode leaves for invalid bytes.
pub open spec fn replacement() -> char {
    '\u{FFFD}'
}

/// Entries whose (original) path holds a replacement character are
/// marked unsupported.
pub open spec fn mark_mangled(e: FileView) -> FileView {
    if crate::text::has_char(e.path, replacement()) || (e.orig_path matches Some(p)
        && crate::text::has_char(p, replacement())) {
        FileView { unsupported: true, ..e }
    } else {
        e
    }
}

/// The text of the status bytes and whether they were valid UTF-8.
pub open spec fn decoded(raw: Seq<u8>) -> (Seq<char>, bool) {
    if vstd::utf8::valid_utf8(raw) {
        (vstd::utf8::decode_utf8(raw), true)
    } else {
        (crate::text::utf8_lossy(raw), false)
    }
}

/// The full working-copy snapshot from the three git outputs: status v2
/// `-z`, unstaged numstat and staged numstat. Output that is valid UTF-8
/// is read as the text it encodes; only other output is read lossily
/// (and its status entries with replaced characters are marked
/// unsupported).
pub open spec fn snapshot(raw_status: Seq<u8>, unstaged: Seq<u8>, staged: Seq<u8>) -> WcView {
    let (text, strict) = decoded(raw_status);
    let wc = status_z(text);
    let es = if strict {
        wc.entries
    } else {
        wc.entries.map_values(|e: FileView| mark_mangled(e))
    };
    let es1 = merge_fold(es, numstat(decoded(unstaged).0), false);
    let es2 = merge_fold(es1, numstat(decoded(staged).0), true);
    WcView { branch: wc.branch, entries: es2 }
}

/// Calls `std::str::from_utf8`: `Some` exactly for valid UTF-8, holding
/// the decoded text.
#[verifier::external_body]
fn utf8_strict(bytes: &[u8]) -> (r: Option<String>)
    ensures
        r is Some <==> vstd::utf8::valid_utf8(bytes@),
        r matches Some(s) ==> s@ == vstd::utf8::decode_utf8(bytes@),
{
    std::str::from_utf8(bytes).ok().map(|s| s.to_string())
}

fn last_with_path(es: &Vec<FileEntry>, path: &String) -> (r: Option<usize>)
    ensures
        r matches Some(i) ==> is_last_with_path(file_views(es@), path@, i as int),
        r is None ==> !exists|i: int| is_last_with_path(file_views(es@), path@, i),
{
    let mut i = es.len();
    while i > 0
        invariant
            i <= es.len(),
            forall|j: int| i <= j < es.len() ==> es@[j].path@ != path@,
        decreases i,
    {
        if es[i - 1].path == *path {
            proof {
                assert forall|j: int| i - 1 < j < es.len() implies file_views(es@)[j].path
                    != path@ by {}
            }
            return Some(i - 1);
        }
        i -= 1;
    }
    proof {
        if exists|k: int| is_last_with_path(file_views(es@), path@, k) {
            let k = choose|k: int| is_last_with_path(file_views(es@), path@, k);
            assert(file_views(es@)[k].path == es@[k].path@);
        }
    }
    None
}

proof fn lemma_last_unique(es: Seq<FileView>, path: Seq<char>, i: int)
    requires
        is_last_with_path(es, path, i),
    ensures
        (choose|k: int| is_last_with_path(es, path, k)) == i,
{
    let k = choose|k: int| is_last_with_path(es, path, k);
    if k < i {
        assert(es[i].path == path);
    } else if k > i {
        assert(es[k].path == path);
    }
}

fn merge_numstat(es: &mut Vec<FileEntry>, recs: &Vec<(String, Option<(u64, u64)>)>, staged: bool)
    ensures
        file_views(final(es)@) == merge_fold(file_views(old(es)@), numstat_views(recs@), staged),
{
    let ghost start = file_views(es@);
    let mut k: usize = 0;
    while k < recs.len()
        invariant
            k <= recs.len(),
            file_views(es@) == merge_fold(start, numstat_views(recs@).take(k as int), staged),
        decreases recs.len() - k,
    {
        proof {
            assert(numstat_views(recs@).take(k + 1).drop_last() =~= numstat_views(recs@).take(
                k as int,
            ));
        }
        let ghost before = file_views(es@);
        match last_with_path(es, &recs[k].0) {
            Some(i) => {
                proof {
                    lemma_last_unique(before, recs@[k as int].0@, i as int);
                }
                if staged {
                    es[i].staged_lines = recs[k].1;
                } else {
                    es[i].unstaged_lines = recs[k].1;
                }
                proof {
                    if staged {
                        assert(file_views(es@) =~= before.update(
                            i as int,
                            FileView { staged_lines: recs@[k as int].1, ..before[i as int] },
                        ));
                    } else {
                        assert(file_views(es@) =~= before.update(
                            i as int,
                            FileView { unstaged_lines: recs@[k as int].1, ..before[i as int] },
                        ));
                    }
                }
            },
            None => {},
        }
        k += 1;
    }
    proof {
        assert(numstat_views(recs@).take(recs.len() as int) =~= numstat_views(recs@));
    }
}

/// Full working-copy snapshot from git's outputs: status v2 `-z` bytes
/// plus numstat for both diff surfaces. A filename whose bytes are not
/// valid UTF-8 is lossy-decoded and its entry flagged `unsupported`.
pub fn status(raw_status: &[u8], unstaged_numstat: &[u8], staged_numstat: &[u8]) -> (wc:
    WorkingCopy)
    ensures
        wc@ == snapshot(raw_status@, unstaged_numstat@, staged_numstat@),
{
    let (text, strict) = match utf8_strict(raw_status) {
        Some(s) => (s, true),
        None => (crate::text::lossy(raw_status), false),
    };
    proof {
        assert((text@, strict) == decoded(raw_status@));
    }
    let mut wc = parse_status_z(text.as_str());
    let ghost wc0 = status_z(text@);
    if !strict {
        let ghost orig = file_views(wc.entries@);
        let mut i: usize = 0;
        while i < wc.entries.len()
            invariant
                i <= wc.entries.len(),
                wc.branch@ == wc0.branch,
                orig.len() == wc.entries.len(),
                forall|j: int| 0 <= j < i ==> file_views(wc.entries@)[j] == mark_mangled(orig[j]),
                forall|j: int| i <= j < orig.len() ==> file_views(wc.entries@)[j] == orig[j],
            decreases wc.entries.len() - i,
        {
            let ghost before = file_views(wc.entries@);
            let mangled = has_char_vec(&chars_of(wc.entries[i].path.as_str()), '\u{FFFD}')
                || match &wc.entries[i].orig_path {
                Some(p) => has_char_vec(&chars_of(p.as_str()), '\u{FFFD}'),
                None => false,
            };
            if mangled {
                wc.entries[i].unsupported = true;
            }
            proof {
                assert(before[i as int] == orig[i as int]);
                if mangled {
                    assert(file_views(wc.entries@) =~= before.update(
                        i as int,
                        FileView { unsupported: true, ..before[i as int] },
                    ));
                }
            }
            i += 1;
        }
        proof {
            assert(file_views(wc.entries@) =~= orig.map_values(|e: FileView| mark_mangled(e)));
        }
    }
    let ghost es = if strict {
        wc0.entries
    } else {
        wc0.entries.map_values(|e: FileView| mark_mangled(e))
    };
    assert(file_views(wc.entries@) == es);
    assert(wc.branch@ == wc0.branch);
    let un_text = crate::text::lossy(unstaged_numstat);
    assert(un_text@ == decoded(unstaged_numstat@).0);
    let un = parse_numstat_z(un_text.as_str());
    merge_numstat(&mut wc.entries, &un, false);
    let st_text = crate::text::lossy(staged_numstat);
    assert(st_text@ == decoded(staged_numstat@).0);
    let st = parse_numstat_z(st_text.as_str());
    merge_numstat(&mut wc.entries, &st, true);
    wc
}

// ---------------------------------------------------------------------
// Grouped display rows
// ---------------------------------------------------------------------

/// Group membership of one entry.
pub open spec fn in_group(e: FileView, g: Group) -> bool {
    match g {
        Group::Conflicts => e.conflict is Some,
        Group::Staged => !e.untracked && e.conflict is None && e.index_status != '.',
        Group::Unstaged => !e.untracked && e.conflict is None && e.wt_status != '.',
        Group::Untracked => e.untracked,
    }
}

/// Rows of group `g` among the first `n` entries, in entry order.
pub open spec fn rows_of(es: Seq<FileView>, g: Group, n: int) -> Seq<(Group, usize)>
    decreases n,
{
    if n <= 0 {
        seq![]
    } else {
        rows_of(es, g, n - 1) + if in_group(es[n - 1], g) {
            seq![(g, (n - 1) as usize)]
        } else {
            seq![]
        }
    }
}

/// Display order: conflicts, staged, unstaged, untracked; entry order
/// within a group. A file changed in both index and worktree appears in
/// both Staged and Unstaged.
pub open spec fn grouped(es: Seq<FileView>) -> Seq<(Group, usize)> {
    let n = es.len() as int;
    rows_of(es, Group::Conflicts, n) + rows_of(es, Group::Staged, n) + rows_of(
        es,
        Group::Unstaged,
        n,
    ) + rows_of(es, Group::Untracked, n)
}

fn entry_in_group(e: &FileEntry, g: Group) -> (b: bool)
    ensures
        b == in_group(e@, g),
{
    match g {
        Group::Conflicts => e.conflict.is_some(),
        Group::Staged => !e.untracked && e.conflict.is_none() && e.index_status != '.',
        Group::Unstaged => !e.untracked && e.conflict.is_none() && e.wt_status != '.',
        Group::Untracked => e.untracked,
    }
}

fn push_group(rows: &mut Vec<(Group, usize)>, es: &Vec<FileEntry>, g: Group)
    ensures
        final(rows)@ == old(rows)@ + rows_of(file_views(es@), g, es.len() as int),
{
    let ghost start = rows@;
    let mut i: usize = 0;
    while i < es.len()
        invariant
            i <= es.len(),
            rows@ == start + rows_of(file_views(es@), g, i as int),
        decreases es.len() - i,
    {
        if entry_in_group(&es[i], g) {
            rows.push((g, i));
        }
        proof {
            assert(file_views(es@)[i as int] == es@[i as int]@);
            assert(rows@ =~= start + rows_of(file_views(es@), g, i + 1));
        }
        i += 1;
    }
}

/// Display order with stable indices into `wc.entries`.
pub fn group_rows(wc: &WorkingCopy) -> (rows: Vec<(Group, usize)>)
    ensures
        rows@ == grouped(wc@.entries),
{
    let mut rows: Vec<(Group, usize)> = Vec::new();
    push_group(&mut rows, &wc.entries, Group::Conflicts);
    push_group(&mut rows, &wc.entries, Group::Staged);
    push_group(&mut rows, &wc.entries, Group::Unstaged);
    push_group(&mut rows, &wc.entries, Group::Untracked);
    proof {
        assert(rows@ =~= grouped(wc@.entries));
    }
    rows
}

} // verus!

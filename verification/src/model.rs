//! The worktree list model: `git worktree list --porcelain` and
//! `git status --porcelain=v2 --branch` parsing, branch-name sanitising,
//! and the list filter.

use crate::text::{
    chars_of, contains, contains_vec, first_index, has_char, has_prefix, lemma_split_nonempty,
    lines, lines_of, lowercase, parse_u32_or_zero, push_char, replace_char, slice_vec, split,
    split_chars, starts_with, str_lowercase, string_from, strip_prefix, trim_end_char,
    trim_end_char_vec, trim_start_char, trim_start_char_vec, u32_or_zero, views,
};
use crate::paths::{file_name, file_name_of, join, join_path, parent, parent_of};
use vstd::prelude::*;

verus! {

/// Live status of a worktree, filled in by the background status pass.
#[derive(Clone, Debug, PartialEq)]
pub enum WorktreeStatus {
    /// Status pass hasn't completed yet.
    Pending,
    /// `git status` failed for this worktree (e.g. directory is gone).
    Unavailable(String),
    Clean { ahead: u32, behind: u32 },
    Dirty { staged: u32, unstaged: u32, untracked: u32, ahead: u32, behind: u32 },
}

#[derive(Clone, Debug)]
pub struct WorktreeEntry {
    /// Absolute worktree path as git prints it.
    pub path: String,
    pub head: Option<String>,
    pub branch: Option<String>,
    pub is_main: bool,
    pub status: WorktreeStatus,
}

/// Mathematical model of a worktree status.
pub enum StatusView {
    Pending,
    Unavailable(Seq<char>),
    Clean { ahead: u32, behind: u32 },
    Dirty { staged: u32, unstaged: u32, untracked: u32, ahead: u32, behind: u32 },
}

/// Mathematical model of a worktree list entry.
pub struct EntryView {
    pub path: Seq<char>,
    pub head: Option<Seq<char>>,
    pub branch: Option<Seq<char>>,
    pub is_main: bool,
    pub status: StatusView,
}

pub open spec fn opt_view(o: Option<String>) -> Option<Seq<char>> {
    match o {
        Some(s) => Some(s@),
        None => None,
    }
}

impl View for WorktreeStatus {
    type V = StatusView;

    open spec fn view(&self) -> StatusView {
        match self {
            WorktreeStatus::Pending => StatusView::Pending,
            WorktreeStatus::Unavailable(m) => StatusView::Unavailable(m@),
            WorktreeStatus::Clean { ahead, behind } => StatusView::Clean {
                ahead: *ahead,
                behind: *behind,
            },
            WorktreeStatus::Dirty { staged, unstaged, untracked, ahead, behind } =>
                StatusView::Dirty {
                staged: *staged,
                unstaged: *unstaged,
                untracked: *untracked,
                ahead: *ahead,
                behind: *behind,
            },
        }
    }
}

impl View for WorktreeEntry {
    type V = EntryView;

    open spec fn view(&self) -> EntryView {
        EntryView {
            path: self.path@,
            head: opt_view(self.head),
            branch: opt_view(self.branch),
            is_main: self.is_main,
            status: self.status@,
        }
    }
}

pub open spec fn opt_entry(o: Option<WorktreeEntry>) -> Option<EntryView> {
    match o {
        Some(e) => Some(e@),
        None => None,
    }
}

pub open spec fn entry_views(s: Seq<WorktreeEntry>) -> Seq<EntryView> {
    s.map_values(|e: WorktreeEntry| e@)
}

// ---------------------------------------------------------------------
// `git worktree list --porcelain`
// ---------------------------------------------------------------------

/// `s` with every leading copy of `p` removed (`trim_start_matches`).
pub open spec fn strip_all_prefix(s: Seq<char>, p: Seq<char>) -> Seq<char>
    decreases s.len(),
{
    if p.len() > 0 && starts_with(s, p) {
        strip_all_prefix(s.skip(p.len() as int), p)
    } else {
        s
    }
}

pub open spec fn new_entry(path: Seq<char>) -> EntryView {
    EntryView {
        path,
        head: None,
        branch: None,
        is_main: false,
        status: StatusView::Pending,
    }
}

/// Parser state: finished entries and the entry being read.
pub type PorcelainState = (Seq<EntryView>, Option<EntryView>);

pub open spec fn flush(st: PorcelainState) -> Seq<EntryView> {
    match st.1 {
        Some(e) => st.0.push(e),
        None => st.0,
    }
}

/// One porcelain line applied to the parser state.
pub open spec fn porcelain_step(st: PorcelainState, raw: Seq<char>) -> PorcelainState {
    let line = trim_end_char(raw, '\r');
    if line.len() == 0 {
        (flush(st), None)
    } else if starts_with(line, "worktree "@) {
        (flush(st), Some(new_entry(line.skip("worktree "@.len() as int))))
    } else if starts_with(line, "HEAD "@) {
        match st.1 {
            Some(e) => (st.0, Some(EntryView { head: Some(line.skip("HEAD "@.len() as int)), ..e })),
            None => st,
        }
    } else if starts_with(line, "branch "@) {
        match st.1 {
            Some(e) => (
                st.0,
                Some(
                    EntryView {
                        branch: Some(
                            strip_all_prefix(line.skip("branch "@.len() as int), "refs/heads/"@),
                        ),
                        ..e
                    },
                ),
            ),
            None => st,
        }
    } else {
        st
    }
}

pub open spec fn porcelain_fold(ls: Seq<Seq<char>>) -> PorcelainState
    decreases ls.len(),
{
    if ls.len() == 0 {
        (seq![], None)
    } else {
        porcelain_step(porcelain_fold(ls.drop_last()), ls.last())
    }
}

/// The entries of a porcelain listing: one per `worktree` record, the
/// first marked as the main worktree.
pub open spec fn worktree_list(input: Seq<char>) -> Seq<EntryView> {
    let es = flush(porcelain_fold(lines(input)));
    if es.len() > 0 {
        es.update(0, EntryView { is_main: true, ..es[0] })
    } else {
        es
    }
}

/// A line that ends the record before it: a blank line or the `worktree`
/// line of the next record.
pub open spec fn is_record_boundary(raw: Seq<char>) -> bool {
    let line = trim_end_char(raw, '\r');
    line.len() == 0 || starts_with(line, "worktree "@)
}

/// A `HEAD <sha>` line.
pub open spec fn is_head_line(raw: Seq<char>) -> bool {
    starts_with(trim_end_char(raw, '\r'), "HEAD "@)
}

proof fn lemma_step_shift(f: Seq<EntryView>, a: Seq<EntryView>, c: Option<EntryView>, raw: Seq<char>)
    ensures
        porcelain_step((f + a, c), raw).0 == f + porcelain_step((a, c), raw).0,
        porcelain_step((f + a, c), raw).1 == porcelain_step((a, c), raw).1,
{
    assert(flush((f + a, c)) =~= f + flush((a, c)));
}

proof fn lemma_fold_split(pre: Seq<Seq<char>>, rec: Seq<Seq<char>>)
    requires
        rec.len() > 0,
        starts_with(trim_end_char(rec[0], '\r'), "worktree "@),
    ensures
        porcelain_fold(pre + rec).0 == flush(porcelain_fold(pre)) + porcelain_fold(rec).0,
        porcelain_fold(pre + rec).1 == porcelain_fold(rec).1,
    decreases rec.len(),
{
    reveal_strlit("worktree ");
    let f = flush(porcelain_fold(pre));
    let l0 = trim_end_char(rec[0], '\r');
    assert(l0.len() > 0);
    if rec.len() == 1 {
        assert((pre + rec).drop_last() =~= pre);
        assert(rec.drop_last() =~= Seq::<Seq<char>>::empty());
        assert((pre + rec).last() == rec[0]);
        let e0 = (Seq::<EntryView>::empty(), None::<EntryView>);
        assert(porcelain_fold(Seq::<Seq<char>>::empty()) == e0);
        assert(rec.last() == rec[0]);
        assert(porcelain_fold(rec) == porcelain_step(e0, rec[0]));
        assert(flush(e0) =~= Seq::<EntryView>::empty());
        assert(porcelain_fold(rec).0 =~= Seq::<EntryView>::empty());
        assert(porcelain_fold(pre + rec) == porcelain_step(porcelain_fold(pre), rec[0]));
        assert(porcelain_fold(pre + rec).0 == f);
        assert(f + Seq::<EntryView>::empty() =~= f);
    } else {
        assert(rec.drop_last()[0] == rec[0]);
        lemma_fold_split(pre, rec.drop_last());
        assert((pre + rec).drop_last() =~= pre + rec.drop_last());
        assert((pre + rec).last() == rec.last());
        let st = porcelain_fold(rec.drop_last());
        lemma_step_shift(f, st.0, st.1, rec.last());
    }
}

/// A record is read the same wherever it stands: the entries of lines
/// `pre` followed by lines `rec` that open with a `worktree` line are the
/// entries of `pre` followed by those of `rec` read on its own.
pub proof fn records_read_alike_anywhere(pre: Seq<Seq<char>>, rec: Seq<Seq<char>>)
    requires
        rec.len() > 0,
        starts_with(trim_end_char(rec[0], '\r'), "worktree "@),
    ensures
        flush(porcelain_fold(pre + rec)) == flush(porcelain_fold(pre)) + flush(porcelain_fold(rec)),
{
    lemma_fold_split(pre, rec);
    let f = flush(porcelain_fold(pre));
    let st = porcelain_fold(rec);
    assert(flush((f + st.0, st.1)) =~= f + flush(st));
}

proof fn lemma_no_cr(s: Seq<char>)
    requires
        !(s.len() > 0 && s.last() == '\r'),
    ensures
        trim_end_char(s, '\r') == s,
{
}

proof fn lemma_record_body(p: Seq<char>, h: Seq<char>, rest: Seq<Seq<char>>)
    requires
        !(p.len() > 0 && p.last() == '\r'),
        !(h.len() > 0 && h.last() == '\r'),
        forall|i: int|
            0 <= i < rest.len() ==> !is_record_boundary(#[trigger] rest[i]) && !is_head_line(
                rest[i],
            ),
    ensures
        porcelain_fold(seq!["worktree "@ + p, "HEAD "@ + h] + rest).0.len() == 0,
        porcelain_fold(seq!["worktree "@ + p, "HEAD "@ + h] + rest).1 matches Some(e) && e.path == p
            && e.head == Some(h),
        rest.len() == 0 ==> porcelain_fold(seq!["worktree "@ + p, "HEAD "@ + h] + rest).1 == Some(
            EntryView { head: Some(h), ..new_entry(p) },
        ),
    decreases rest.len(),
{
    reveal_strlit("worktree ");
    reveal_strlit("HEAD ");
    let wl = "worktree "@ + p;
    let hl = "HEAD "@ + h;
    let r = seq![wl, hl];
    if rest.len() == 0 {
        assert(r + rest =~= r);
        assert(r.drop_last() =~= seq![wl]);
        assert(seq![wl].drop_last() =~= Seq::<Seq<char>>::empty());
        assert(wl.last() == if p.len() > 0 { p.last() } else { ' ' });
        lemma_no_cr(wl);
        assert(wl.take(9) =~= "worktree "@);
        assert(wl.skip(9) =~= p);
        assert(hl.last() == if h.len() > 0 { h.last() } else { ' ' });
        lemma_no_cr(hl);
        assert(hl.take(5) =~= "HEAD "@);
        assert(hl.skip(5) =~= h);
        assert(hl[0] == 'H');
        if starts_with(hl, "worktree "@) {
            assert(hl.take(9)[0] == 'w');
        }
        let s0 = porcelain_fold(seq![wl]);
        assert(seq![wl].last() == wl);
        assert(porcelain_fold(Seq::<Seq<char>>::empty()) == (Seq::<EntryView>::empty(), None::<EntryView>));
        assert(s0 == porcelain_step((Seq::<EntryView>::empty(), None::<EntryView>), wl));
        assert(s0.0 =~= Seq::<EntryView>::empty());
        assert(s0.1 == Some(new_entry(p)));
        assert(porcelain_fold(r) == porcelain_step(s0, hl));
        assert(starts_with(hl, "HEAD "@));
        assert(hl.len() > 0);
    } else {
        lemma_record_body(p, h, rest.drop_last());
        assert((r + rest).drop_last() =~= r + rest.drop_last());
        assert((r + rest).last() == rest.last());
        assert(rest.last() == rest[rest.len() - 1]);
    }
}

proof fn lemma_fold_prefix(a: Seq<Seq<char>>, b: Seq<Seq<char>>)
    ensures
        porcelain_fold(a).0.len() <= porcelain_fold(a + b).0.len(),
        forall|i: int|
            0 <= i < porcelain_fold(a).0.len() ==> porcelain_fold(a + b).0[i] == porcelain_fold(
                a,
            ).0[i],
    decreases b.len(),
{
    if b.len() == 0 {
        assert(a + b =~= a);
    } else {
        lemma_fold_prefix(a, b.drop_last());
        assert((a + b).drop_last() =~= a + b.drop_last());
    }
}

/// Every record's `HEAD` line gives that entry its head, whatever stands
/// before the record: in a listing whose lines are `pre`, then
/// `worktree <p>` and `HEAD <h>`, then lines of other kinds up to the end
/// of the record, the entry that follows those of `pre` has path `p` and
/// head `h`.
pub proof fn head_line_gives_the_head(
    input: Seq<char>,
    pre: Seq<Seq<char>>,
    p: Seq<char>,
    h: Seq<char>,
    rest: Seq<Seq<char>>,
    post: Seq<Seq<char>>,
)
    requires
        lines(input) == pre + seq!["worktree "@ + p, "HEAD "@ + h] + rest + post,
        !(p.len() > 0 && p.last() == '\r'),
        !(h.len() > 0 && h.last() == '\r'),
        forall|i: int|
            0 <= i < rest.len() ==> !is_record_boundary(#[trigger] rest[i]) && !is_head_line(
                rest[i],
            ),
        post.len() > 0 ==> is_record_boundary(post[0]),
    ensures
        flush(porcelain_fold(pre)).len() < worktree_list(input).len(),
        worktree_list(input)[flush(porcelain_fold(pre)).len() as int].path == p,
        worktree_list(input)[flush(porcelain_fold(pre)).len() as int].head == Some(h),
{
    reveal_strlit("worktree ");
    let wl = "worktree "@ + p;
    let rec = seq![wl, "HEAD "@ + h] + rest;
    let k = flush(porcelain_fold(pre)).len() as int;
    lemma_record_body(p, h, rest);
    assert(rec[0] == wl);
    assert(wl.last() == if p.len() > 0 { p.last() } else { ' ' });
    lemma_no_cr(wl);
    assert(wl.take(9) =~= "worktree "@);
    lemma_fold_split(pre, rec);
    let x = pre + rec;
    assert(x =~= pre + seq![wl, "HEAD "@ + h] + rest);
    let fx = porcelain_fold(x);
    let e = fx.1->0;
    assert(fx.0 =~= flush(porcelain_fold(pre)));
    // the entries once the record is closed
    let closed = fx.0.push(e);
    assert(flush(fx) == closed);
    let es = flush(porcelain_fold(lines(input)));
    if post.len() == 0 {
        assert(lines(input) =~= x);
        assert(es == closed);
    } else {
        let x1 = x + seq![post[0]];
        assert(x1.drop_last() =~= x);
        assert(x1.last() == post[0]);
        assert(porcelain_fold(x1).0 == closed);
        lemma_fold_prefix(x1, post.skip(1));
        assert(lines(input) =~= x1 + post.skip(1));
        let fin = porcelain_fold(lines(input));
        assert(fin.0[k] == closed[k]);
        assert(es.len() >= fin.0.len());
        assert(es[k] == fin.0[k]);
    }
    assert(es[k] == e);
}

/// A record `worktree <p>`, `HEAD <h>`, `branch <b>` read on its own is one
/// entry: path `p`, head `h`, and the branch `b` with its leading
/// `refs/heads/` removed.
pub proof fn branch_record_reads_to_entry(p: Seq<char>, h: Seq<char>, b: Seq<char>)
    requires
        !(p.len() > 0 && p.last() == '\r'),
        !(h.len() > 0 && h.last() == '\r'),
        !(b.len() > 0 && b.last() == '\r'),
    ensures
        flush(porcelain_fold(seq!["worktree "@ + p, "HEAD "@ + h, "branch "@ + b])) == seq![
            EntryView {
                path: p,
                head: Some(h),
                branch: Some(strip_all_prefix(b, "refs/heads/"@)),
                is_main: false,
                status: StatusView::Pending,
            },
        ],
{
    reveal_strlit("worktree ");
    reveal_strlit("HEAD ");
    reveal_strlit("branch ");
    let bl = "branch "@ + b;
    let two = seq!["worktree "@ + p, "HEAD "@ + h];
    let rec = seq!["worktree "@ + p, "HEAD "@ + h, "branch "@ + b];
    lemma_record_body(p, h, Seq::<Seq<char>>::empty());
    assert(two + Seq::<Seq<char>>::empty() =~= two);
    assert(rec.drop_last() =~= two);
    assert(rec.last() == bl);
    assert(bl.last() == if b.len() > 0 { b.last() } else { ' ' });
    lemma_no_cr(bl);
    assert(bl.take(7) =~= "branch "@);
    assert(bl.skip(7) =~= b);
    assert(bl[0] == 'b');
    if starts_with(bl, "worktree "@) {
        assert(bl.take(9)[0] == 'w');
    }
    if starts_with(bl, "HEAD "@) {
        assert(bl.take(5)[0] == 'H');
    }
    let st = porcelain_fold(two);
    assert(st.1 == Some(EntryView { head: Some(h), ..new_entry(p) }));
    assert(porcelain_fold(rec) == porcelain_step(st, bl));
    let e = EntryView {
        path: p,
        head: Some(h),
        branch: Some(strip_all_prefix(b, "refs/heads/"@)),
        is_main: false,
        status: StatusView::Pending,
    };
    assert(porcelain_fold(rec).1 == Some(e));
    assert(porcelain_fold(rec).0 =~= Seq::<EntryView>::empty());
    assert(flush(porcelain_fold(rec)) =~= seq![e]);
}

proof fn lemma_fold_not_main(ls: Seq<Seq<char>>)
    ensures
        forall|i: int|
            0 <= i < porcelain_fold(ls).0.len() ==> !(#[trigger] porcelain_fold(ls).0[i]).is_main,
        porcelain_fold(ls).1 matches Some(e) ==> !e.is_main,
    decreases ls.len(),
{
    if ls.len() > 0 {
        lemma_fold_not_main(ls.drop_last());
    }
}

/// The first entry of a listing, and no other, is the main worktree.
pub proof fn only_the_first_entry_is_main(input: Seq<char>)
    ensures
        forall|i: int|
            0 <= i < worktree_list(input).len() ==> ((#[trigger] worktree_list(input)[i]).is_main
                <==> i == 0),
{
    lemma_fold_not_main(lines(input));
    let st = porcelain_fold(lines(input));
    assert forall|i: int| 0 <= i < flush(st).len() implies !(#[trigger] flush(st)[i]).is_main by {
        if i < st.0.len() {
            assert(flush(st)[i] == st.0[i]);
        }
    }
}

/// `v` with every leading copy of the text `p` removed.
fn strip_all_prefix_vec(v: Vec<char>, p: &str) -> (r: Vec<char>)
    ensures
        r@ == strip_all_prefix(v@, p@),
{
    let pv = chars_of(p);
    if pv.len() == 0 {
        return v;
    }
    let mut cur = v;
    while has_prefix(&cur, p)
        invariant
            pv@ == p@,
            pv@.len() > 0,
            strip_all_prefix(cur@, p@) == strip_all_prefix(v@, p@),
        decreases cur@.len(),
    {
        let next = slice_vec(&cur, pv.len(), cur.len());
        proof {
            assert(next@ =~= cur@.skip(p@.len() as int));
        }
        cur = next;
    }
    cur
}

/// Parses `git worktree list --porcelain`. Lenient: unknown lines are
/// ignored.
pub fn parse_worktree_porcelain(input: &str) -> (entries: Vec<WorktreeEntry>)
    ensures
        entry_views(entries@) == worktree_list(input@),
{
    let chars = chars_of(input);
    let ls = lines_of(&chars);
    let mut entries: Vec<WorktreeEntry> = Vec::new();
    let mut current: Option<WorktreeEntry> = None;
    let mut i: usize = 0;
    while i < ls.len()
        invariant
            i <= ls.len(),
            views(ls@) == lines(input@),
            (entry_views(entries@), opt_entry(current)) == porcelain_fold(
                views(ls@).take(i as int),
            ),
        decreases ls.len() - i,
    {
        let ghost before = (entry_views(entries@), opt_entry(current));
        let ghost raw = views(ls@)[i as int];
        proof {
            assert(views(ls@).take(i + 1).drop_last() =~= views(ls@).take(i as int));
            assert(views(ls@).take(i + 1).last() == raw);
        }
        let line = trim_end_char_vec(ls[i].clone(), '\r');
        if line.len() == 0 {
            if let Some(e) = current.take() {
                entries.push(e);
                proof {
                    assert(entry_views(entries@) =~= before.0.push(before.1->0));
                }
            }
        } else if let Some(rest) = strip_prefix(&line, "worktree ") {
            if let Some(e) = current.take() {
                entries.push(e);
                proof {
                    assert(entry_views(entries@) =~= before.0.push(before.1->0));
                }
            }
            current = Some(
                WorktreeEntry {
                    path: string_from(&rest),
                    head: None,
                    branch: None,
                    is_main: false,
                    status: WorktreeStatus::Pending,
                },
            );
        } else if let Some(rest) = strip_prefix(&line, "HEAD ") {
            if let Some(e) = current.as_mut() {
                e.head = Some(string_from(&rest));
            }
        } else if let Some(rest) = strip_prefix(&line, "branch ") {
            if let Some(e) = current.as_mut() {
                let b = strip_all_prefix_vec(rest, "refs/heads/");
                e.branch = Some(string_from(&b));
            }
        }
        i += 1;
    }
    proof {
        assert(views(ls@).take(ls.len() as int) =~= views(ls@));
    }
    if let Some(e) = current.take() {
        let ghost before = entry_views(entries@);
        entries.push(e);
        proof {
            assert(entry_views(entries@) =~= before.push(e@));
        }
    }
    let ghost flushed = entry_views(entries@);
    if entries.len() > 0 {
        entries[0].is_main = true;
        proof {
            assert(entry_views(entries@) =~= flushed.update(0, EntryView { is_main: true, ..flushed[0] }));
        }
    }
    entries
}

// ---------------------------------------------------------------------
// `git status --porcelain=v2 --branch`
// ---------------------------------------------------------------------

/// Counters read from a status listing:
/// (staged, unstaged, untracked, ahead, behind).
pub type StatusCounts = (nat, nat, nat, u32, u32);

/// The status letter at `i` of the `XY` field, `'.'` when missing.
pub open spec fn letter_at(xy: Seq<char>, i: int) -> char {
    if i < xy.len() {
        xy[i]
    } else {
        '.'
    }
}

/// A status letter that counts as a change.
pub open spec fn is_change(c: char) -> bool {
    c != '.' && c != '!'
}

pub open spec fn status_step(st: StatusCounts, raw: Seq<char>) -> StatusCounts {
    let line = trim_end_char(raw, '\r');
    if starts_with(line, "# branch.ab "@) {
        let parts = split(line.skip("# branch.ab "@.len() as int), ' ');
        let ahead = u32_or_zero(trim_start_char(parts[0], '+'));
        let behind = if parts.len() > 1 {
            u32_or_zero(trim_start_char(parts[1], '-'))
        } else {
            st.4
        };
        (st.0, st.1, st.2, ahead, behind)
    } else if starts_with(line, "? "@) {
        (st.0, st.1, st.2 + 1, st.3, st.4)
    } else if starts_with(line, "1 "@) || starts_with(line, "2 "@) || starts_with(line, "u "@) {
        let fields = split(line, ' ');
        if fields.len() > 1 {
            let xy = fields[1];
            (
                if is_change(letter_at(xy, 0)) { st.0 + 1 } else { st.0 },
                if is_change(letter_at(xy, 1)) { st.1 + 1 } else { st.1 },
                st.2,
                st.3,
                st.4,
            )
        } else {
            st
        }
    } else {
        st
    }
}

pub open spec fn status_fold(ls: Seq<Seq<char>>) -> StatusCounts
    decreases ls.len(),
{
    if ls.len() == 0 {
        (0, 0, 0, 0, 0)
    } else {
        status_step(status_fold(ls.drop_last()), ls.last())
    }
}

/// The status a porcelain v2 listing describes: clean when no change,
/// untracked or unmerged record appears.
pub open spec fn worktree_status(input: Seq<char>) -> StatusView {
    let c = status_fold(lines(input));
    if c.0 + c.1 + c.2 == 0 {
        StatusView::Clean { ahead: c.3, behind: c.4 }
    } else {
        StatusView::Dirty {
            staged: c.0 as u32,
            unstaged: c.1 as u32,
            untracked: c.2 as u32,
            ahead: c.3,
            behind: c.4,
        }
    }
}

pub proof fn lemma_split_len(s: Seq<char>, c: char)
    ensures
        split(s, c).len() <= s.len() + 1,
    decreases s.len(),
{
    if has_char(s, c) {
        let k = first_index(s, c);
        if 0 <= k < s.len() {
            lemma_split_len(s.skip(k + 1), c);
        }
    }
}

proof fn lemma_status_fold_bound(ls: Seq<Seq<char>>)
    ensures
        status_fold(ls).0 <= ls.len(),
        status_fold(ls).1 <= ls.len(),
        status_fold(ls).2 <= ls.len(),
    decreases ls.len(),
{
    if ls.len() > 0 {
        lemma_status_fold_bound(ls.drop_last());
    }
}

/// An untracked-file record, `? <path>`.
pub open spec fn is_untracked_record(raw: Seq<char>) -> bool {
    starts_with(trim_end_char(raw, '\r'), "? "@)
}

/// A changed or unmerged entry record (`1 `, `2 ` or `u `) whose `XY`
/// field marks a change at position `i`: 0 for the index, 1 for the
/// worktree.
pub open spec fn is_change_record(raw: Seq<char>, i: int) -> bool {
    let line = trim_end_char(raw, '\r');
    let fields = split(line, ' ');
    &&& (starts_with(line, "1 "@) || starts_with(line, "2 "@) || starts_with(line, "u "@))
    &&& fields.len() > 1
    &&& is_change(letter_at(fields[1], i))
}

/// How many untracked-file records a listing holds.
pub open spec fn untracked_records(input: Seq<char>) -> nat {
    lines(input).filter(|l: Seq<char>| is_untracked_record(l)).len()
}

/// How many records mark a change in the index.
pub open spec fn staged_records(input: Seq<char>) -> nat {
    lines(input).filter(|l: Seq<char>| is_change_record(l, 0)).len()
}

/// How many records mark a change in the worktree.
pub open spec fn unstaged_records(input: Seq<char>) -> nat {
    lines(input).filter(|l: Seq<char>| is_change_record(l, 1)).len()
}

proof fn lemma_first_char(s: Seq<char>, p: Seq<char>)
    requires
        starts_with(s, p),
        p.len() > 0,
    ensures
        s[0] == p[0],
{
    assert(s.take(p.len() as int)[0] == s[0]);
}

proof fn lemma_status_fold_records(ls: Seq<Seq<char>>)
    ensures
        status_fold(ls).0 == ls.filter(|l: Seq<char>| is_change_record(l, 0)).len(),
        status_fold(ls).1 == ls.filter(|l: Seq<char>| is_change_record(l, 1)).len(),
        status_fold(ls).2 == ls.filter(|l: Seq<char>| is_untracked_record(l)).len(),
    decreases ls.len(),
{
    reveal(Seq::filter);
    if ls.len() > 0 {
        lemma_status_fold_records(ls.drop_last());
        let line = trim_end_char(ls.last(), '\r');
        reveal_strlit("# branch.ab ");
        reveal_strlit("? ");
        reveal_strlit("1 ");
        reveal_strlit("2 ");
        reveal_strlit("u ");
        if starts_with(line, "1 "@) {
            lemma_first_char(line, "1 "@);
        }
        if starts_with(line, "2 "@) {
            lemma_first_char(line, "2 "@);
        }
        if starts_with(line, "u "@) {
            lemma_first_char(line, "u "@);
        }
        if starts_with(line, "? "@) {
            lemma_first_char(line, "? "@);
        }
        if starts_with(line, "# branch.ab "@) {
            lemma_first_char(line, "# branch.ab "@);
        }
    }
}

/// A listing reads as clean exactly when it holds no untracked-file record
/// and no record of a change; otherwise it reads as dirty with one staged
/// change per record marking the index, one unstaged change per record
/// marking the worktree and one untracked file per `? ` record.
pub proof fn status_counts_its_records(input: Seq<char>)
    requires
        input.len() < u32::MAX,
    ensures
        worktree_status(input) is Clean <==> (untracked_records(input) == 0 && staged_records(input)
            == 0 && unstaged_records(input) == 0),
        worktree_status(input) is Clean || (worktree_status(input) matches StatusView::Dirty {
            staged,
            unstaged,
            untracked,
            ..
        } && staged == staged_records(input) && unstaged == unstaged_records(input) && untracked
            == untracked_records(input)),
{
    let ls = lines(input);
    lemma_status_fold_records(ls);
    lemma_status_fold_bound(ls);
    lemma_split_len(input, '\n');
}

/// An ahead/behind header, `# branch.ab +<ahead> -<behind>`.
pub open spec fn is_ab_header(raw: Seq<char>) -> bool {
    starts_with(trim_end_char(raw, '\r'), "# branch.ab "@)
}

proof fn lemma_no_header(ls: Seq<Seq<char>>)
    requires
        forall|i: int| 0 <= i < ls.len() ==> !is_ab_header(#[trigger] ls[i]),
    ensures
        status_fold(ls).3 == 0,
        status_fold(ls).4 == 0,
    decreases ls.len(),
{
    if ls.len() > 0 {
        let d = ls.drop_last();
        assert forall|i: int| 0 <= i < d.len() implies !is_ab_header(#[trigger] d[i]) by {
            assert(d[i] == ls[i]);
        }
        lemma_no_header(d);
        assert(!is_ab_header(ls[ls.len() - 1]));
    }
}

/// A listing without an ahead/behind header reads as even with its
/// upstream: 0 ahead and 0 behind.
pub proof fn missing_header_reads_even(input: Seq<char>)
    requires
        forall|i: int| 0 <= i < lines(input).len() ==> !is_ab_header(#[trigger] lines(input)[i]),
    ensures
        match worktree_status(input) {
            StatusView::Clean { ahead, behind } => ahead == 0 && behind == 0,
            StatusView::Dirty { ahead, behind, .. } => ahead == 0 && behind == 0,
            _ => false,
        },
{
    lemma_no_header(lines(input));
}

/// With `k > 0` untracked-file records a listing reads as dirty with `k`
/// untracked files.
pub proof fn untracked_records_make_dirty(input: Seq<char>)
    requires
        input.len() < u32::MAX,
        untracked_records(input) > 0,
    ensures
        worktree_status(input) matches StatusView::Dirty { untracked, .. } && untracked
            == untracked_records(input),
{
    status_counts_its_records(input);
}

/// Parses `git status --porcelain=v2 --branch`. Lenient: unknown lines
/// are ignored; a missing `branch.ab` header means 0/0 ahead/behind.
pub fn parse_status_porcelain_v2(input: &str) -> (st: WorktreeStatus)
    requires
        input@.len() < u32::MAX,
    ensures
        st@ == worktree_status(input@),
{
    let chars = chars_of(input);
    let ls = lines_of(&chars);
    proof {
        lemma_split_len(input@, '\n');
        assert(views(ls@).len() == ls@.len());
    }
    let mut staged: u32 = 0;
    let mut unstaged: u32 = 0;
    let mut untracked: u32 = 0;
    let mut ahead: u32 = 0;
    let mut behind: u32 = 0;
    let mut i: usize = 0;
    while i < ls.len()
        invariant
            i <= ls.len(),
            ls.len() <= input@.len() + 1,
            input@.len() < u32::MAX,
            views(ls@) == lines(input@),
            (staged as nat, unstaged as nat, untracked as nat, ahead, behind) == status_fold(
                views(ls@).take(i as int),
            ),
        decreases ls.len() - i,
    {
        proof {
            assert(views(ls@).take(i + 1).drop_last() =~= views(ls@).take(i as int));
            lemma_status_fold_bound(views(ls@).take(i as int));
        }
        let line = trim_end_char_vec(ls[i].clone(), '\r');
        if let Some(rest) = strip_prefix(&line, "# branch.ab ") {
            let parts = split_chars(&rest, ' ');
            proof {
                lemma_split_nonempty(rest@, ' ');
            }
            let a = trim_start_char_vec(&parts[0], '+');
            ahead = parse_u32_or_zero(&a);
            if parts.len() > 1 {
                let b = trim_start_char_vec(&parts[1], '-');
                behind = parse_u32_or_zero(&b);
            }
        } else if has_prefix(&line, "? ") {
            untracked += 1;
        } else if has_prefix(&line, "1 ") || has_prefix(&line, "2 ") || has_prefix(&line, "u ") {
            let fields = split_chars(&line, ' ');
            if fields.len() > 1 {
                let xy = &fields[1];
                let x = if xy.len() > 0 { xy[0] } else { '.' };
                let y = if xy.len() > 1 { xy[1] } else { '.' };
                if x != '.' && x != '!' {
                    staged += 1;
                }
                if y != '.' && y != '!' {
                    unstaged += 1;
                }
            }
        }
        i += 1;
    }
    proof {
        assert(views(ls@).take(ls.len() as int) =~= views(ls@));
    }
    if staged == 0 && unstaged == 0 && untracked == 0 {
        WorktreeStatus::Clean { ahead, behind }
    } else {
        WorktreeStatus::Dirty { staged, unstaged, untracked, ahead, behind }
    }
}

// ---------------------------------------------------------------------
// Names and filtering
// ---------------------------------------------------------------------

/// A branch name usable as one directory component: `/` becomes `-`.
pub fn sanitize_branch(branch: &str) -> (r: String)
    ensures
        r@ == replace_char(branch@, '/', seq!['-']),
{
    let v = chars_of(branch);
    let mut r = String::new();
    let mut i: usize = 0;
    while i < v.len()
        invariant
            i <= v.len(),
            v@ == branch@,
            r@ == replace_char(v@.take(i as int), '/', seq!['-']),
        decreases v.len() - i,
    {
        proof {
            assert(v@.take(i + 1).drop_last() =~= v@.take(i as int));
        }
        if v[i] == '/' {
            push_char(&mut r, '-');
        } else {
            push_char(&mut r, v[i]);
        }
        proof {
            assert(r@ =~= replace_char(v@.take(i + 1), '/', seq!['-']));
        }
        i += 1;
    }
    proof {
        assert(v@.take(v.len() as int) =~= v@);
    }
    r
}

/// Case-insensitive substring match on branch name and path.
pub open spec fn matches_filter_spec(e: EntryView, filter: Seq<char>) -> bool {
    let f = str_lowercase(filter);
    ||| filter.len() == 0
    ||| (e.branch matches Some(b) && contains(str_lowercase(b), f))
    ||| contains(str_lowercase(e.path), f)
}

/// The filter sees an entry's path and branch name only through their
/// lowercase forms: two entries whose paths lowercase alike, and whose
/// branch names are both absent or lowercase alike, match the same
/// filters.
pub proof fn filter_sees_only_lowercase(e1: EntryView, e2: EntryView, filter: Seq<char>)
    requires
        str_lowercase(e1.path) == str_lowercase(e2.path),
        e1.branch is Some <==> e2.branch is Some,
        e1.branch is Some ==> str_lowercase(e1.branch->0) == str_lowercase(e2.branch->0),
    ensures
        matches_filter_spec(e1, filter) == matches_filter_spec(e2, filter),
{
}

/// A non-empty filter is read only through its lowercase form: two filters
/// that lowercase alike select the same entries.
pub proof fn filter_case_is_ignored(e: EntryView, f1: Seq<char>, f2: Seq<char>)
    requires
        f1.len() > 0,
        f2.len() > 0,
        str_lowercase(f1) == str_lowercase(f2),
    ensures
        matches_filter_spec(e, f1) == matches_filter_spec(e, f2),
{
}

/// Case-insensitive substring match on branch name and path; the empty
/// filter matches everything.
pub fn matches_filter(entry: &WorktreeEntry, filter: &str) -> (b: bool)
    ensures
        b == matches_filter_spec(entry@, filter@),
{
    if filter.is_empty() {
        return true;
    }
    let f = chars_of(&lowercase(filter));
    let in_branch = match &entry.branch {
        Some(b) => contains_vec(&chars_of(&lowercase(b.as_str())), &f),
        None => false,
    };
    in_branch || contains_vec(&chars_of(&lowercase(entry.path.as_str())), &f)
}

/// Default location for a new worktree: a sibling directory of the repo
/// root, e.g. `/Users/greg/git/myrepo` + branch `feature/x` →
/// `/Users/greg/git/myrepo-worktrees/feature-x`.
pub open spec fn default_path(repo_root: Seq<char>, branch: Seq<char>) -> Seq<char> {
    let name = match file_name(repo_root) {
        Some(n) => n,
        None => seq![],
    };
    let base = match parent(repo_root) {
        Some(p) => p,
        None => seq!['.'],
    };
    join(join(base, name + "-worktrees"@), replace_char(branch, '/', seq!['-']))
}

pub fn default_worktree_path(repo_root: &str, branch: &str) -> (p: String)
    ensures
        p@ == default_path(repo_root@, branch@),
{
    let mut name = match file_name_of(repo_root) {
        Some(n) => n,
        None => String::new(),
    };
    name.append("-worktrees");
    let base = match parent_of(repo_root) {
        Some(p) => p,
        None => {
            let mut d = String::new();
            push_char(&mut d, '.');
            d
        },
    };
    let dir = join_path(base.as_str(), name.as_str());
    let leaf = sanitize_branch(branch);
    let p = join_path(dir.as_str(), leaf.as_str());
    proof {
        assert(base@ == (match parent(repo_root@) {
            Some(p) => p,
            None => seq!['.'],
        })) by {
            if parent(repo_root@) is None {
                assert(base@ =~= seq!['.']);
            }
        }
    }
    p
}

} // verus!

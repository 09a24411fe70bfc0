//! The rows a diff pane shows: the file header summary, each hunk's `@@`
//! line and its marked lines up to the render cap, and a trailer naming
//! how many lines were left out.

use crate::engine::arg_views;
use crate::engine::diff::{hunk_views, DiffHunk, DiffLineKind, HunkView, LineView, UnifiedDiff};
use crate::engine::join_strings;
use crate::text::{chars_of, decimal, join, lines, lines_of, string_from, u128_to_string, views};
use crate::wc_store::{hunk_line_counts, render_bound, DIFF_RENDER_CAP};
use vstd::prelude::*;

verus! {

/// One row of a diff pane.
pub enum DiffItem {
    /// The file header's non-empty lines, joined.
    Header(String),
    /// A hunk's `@@` line.
    Hunk(String),
    /// A diff line: its kind, its marker and its text.
    Line(DiffLineKind, String, String),
    /// A line of a file shown as it is.
    Text(String),
    /// A placeholder in place of content, or a trailer.
    Note(String),
    /// An error, drawn as such.
    Failure(String),
}

pub enum ItemView {
    Header(Seq<char>),
    Hunk(Seq<char>),
    Line(DiffLineKind, Seq<char>, Seq<char>),
    Text(Seq<char>),
    Note(Seq<char>),
    Failure(Seq<char>),
}

impl View for DiffItem {
    type V = ItemView;

    open spec fn view(&self) -> ItemView {
        match self {
            DiffItem::Header(s) => ItemView::Header(s@),
            DiffItem::Hunk(s) => ItemView::Hunk(s@),
            DiffItem::Line(k, m, t) => ItemView::Line(*k, m@, t@),
            DiffItem::Text(s) => ItemView::Text(s@),
            DiffItem::Note(s) => ItemView::Note(s@),
            DiffItem::Failure(s) => ItemView::Failure(s@),
        }
    }
}

pub open spec fn item_views(s: Seq<DiffItem>) -> Seq<ItemView> {
    s.map_values(|i: DiffItem| i@)
}

pub open spec fn marker_of(k: DiffLineKind) -> Seq<char> {
    match k {
        DiffLineKind::Add => "+"@,
        DiffLineKind::Del => "−"@,
        DiffLineKind::Context => " "@,
    }
}

/// A diff line's row: its marker, and its text with a note where the
/// file lacks a final newline.
pub open spec fn line_item(l: LineView) -> ItemView {
    ItemView::Line(
        l.kind,
        marker_of(l.kind),
        l.content + (if l.no_newline {
            "\\ (no newline)"@
        } else {
            seq![]
        }),
    )
}

pub open spec fn line_items(ls: Seq<LineView>) -> Seq<ItemView> {
    ls.map_values(|l: LineView| line_item(l))
}

/// The hunks' rows with at most `budget` diff lines: a hunk's `@@` row
/// shows while the budget lasts, then as many of its lines as it allows.
pub open spec fn hunk_items(hs: Seq<HunkView>, budget: int) -> Seq<ItemView>
    decreases hs.len(),
{
    if hs.len() == 0 || budget <= 0 {
        seq![]
    } else {
        let n: int = if hs[0].lines.len() < budget {
            hs[0].lines.len() as int
        } else {
            budget
        };
        seq![ItemView::Hunk(hs[0].header)] + line_items(hs[0].lines.take(n)) + hunk_items(
            hs.drop_first(),
            budget - n,
        )
    }
}

pub open spec fn total_lines(hs: Seq<HunkView>) -> nat
    decreases hs.len(),
{
    if hs.len() == 0 {
        0
    } else {
        hs[0].lines.len() + total_lines(hs.drop_first())
    }
}

/// The trailer of a diff longer than the cap.
pub open spec fn more_lines_note(total: nat) -> Seq<ItemView> {
    if total > DIFF_RENDER_CAP {
        seq![
            ItemView::Note(
                "… "@ + decimal((total - DIFF_RENDER_CAP) as nat)
                    + " more lines — open the file in your editor"@,
            ),
        ]
    } else {
        seq![]
    }
}

/// The hunks of a diff up to the cap, and the trailer.
pub open spec fn body_of(hs: Seq<HunkView>) -> Seq<ItemView> {
    hunk_items(hs, DIFF_RENDER_CAP as int) + more_lines_note(total_lines(hs))
}

/// The non-empty ones of the lines, in order.
pub open spec fn nonempty(ls: Seq<Seq<char>>) -> Seq<Seq<char>>
    decreases ls.len(),
{
    if ls.len() == 0 {
        seq![]
    } else {
        let sub = nonempty(ls.drop_last());
        if ls.last().len() > 0 {
            sub.push(ls.last())
        } else {
            sub
        }
    }
}

/// The file header on one row: its non-empty lines joined by "  ·  ".
pub open spec fn header_summary(h: Seq<char>) -> Seq<char> {
    join(nonempty(lines(h)), "  ·  "@)
}

/// The rows of hunks shown whole: each `@@` row and all its lines.
pub open spec fn whole_items(hs: Seq<HunkView>) -> Seq<ItemView>
    decreases hs.len(),
{
    if hs.len() == 0 {
        seq![]
    } else {
        seq![ItemView::Hunk(hs[0].header)] + line_items(hs[0].lines) + whole_items(hs.drop_first())
    }
}

pub open spec fn line_counts(hs: Seq<HunkView>) -> Seq<nat> {
    hs.map_values(|h: HunkView| h.lines.len())
}

proof fn lemma_whole_prefix(hs: Seq<HunkView>, budget: int)
    requires
        forall|i: int| 0 <= i < hs.len() ==> (#[trigger] hs[i]).lines.len() > 0,
    ensures
        ({
            let w = whole_items(hs.take(render_bound(line_counts(hs), budget) as int));
            w.len() <= hunk_items(hs, budget).len() && hunk_items(hs, budget).take(w.len() as int)
                == w
        }),
    decreases hs.len(),
{
    let b = render_bound(line_counts(hs), budget);
    if hs.len() == 0 || line_counts(hs)[0] > budget {
        assert(b == 0);
        assert(hs.take(0) =~= Seq::<HunkView>::empty());
        assert(hunk_items(hs, budget).take(0) =~= Seq::<ItemView>::empty());
    } else {
        let h = hs[0];
        let rest = hs.drop_first();
        assert(line_counts(rest) =~= line_counts(hs).drop_first());
        let len = h.lines.len() as int;
        assert forall|i: int| 0 <= i < rest.len() implies (#[trigger] rest[i]).lines.len() > 0 by {
            assert(rest[i] == hs[i + 1]);
        }
        lemma_whole_prefix(rest, budget - len);
        let b1 = render_bound(line_counts(rest), budget - len);
        assert(b == 1 + b1);
        lemma_bound_len(line_counts(rest), budget - len);
        assert(b1 <= rest.len());
        assert(hs.take(b as int).drop_first() =~= rest.take(b1 as int));
        assert(hs.take(b as int)[0] == h);
        assert(len <= budget);
        assert(h.lines.take(len) =~= h.lines);
        let head = seq![ItemView::Hunk(h.header)] + line_items(h.lines);
        let w1 = whole_items(rest.take(b1 as int));
        let r1 = hunk_items(rest, budget - len);
        assert(hs[0].lines.len() > 0);
        assert(budget > 0);
        assert(hunk_items(hs, budget) == head + r1);
        assert(whole_items(hs.take(b as int)) == head + w1);
        assert((head + r1).take((head + w1).len() as int) =~= head + r1.take(w1.len() as int));
    }
}

proof fn lemma_bound_len(c: Seq<nat>, budget: int)
    ensures
        render_bound(c, budget) <= c.len(),
    decreases c.len(),
{
    if c.len() > 0 && c[0] <= budget {
        lemma_bound_len(c.drop_first(), budget - c[0]);
    }
}

/// A hunk counts as stageable only when the pane shows it whole: the
/// rows of the stageable hunks (as many as `hunk_render_bound` gives),
/// each with all its lines, are exactly how the pane's rows begin. (A
/// hunk without lines, which git does not emit, could count right after
/// the cap is reached, where the pane shows nothing more.)
pub proof fn stageable_hunks_are_shown_whole(d: UnifiedDiff)
    requires
        forall|i: int| 0 <= i < d@.hunks.len() ==> (#[trigger] d@.hunks[i]).lines.len() > 0,
    ensures
        ({
            let hv = d@.hunks;
            let w = whole_items(hv.take(render_bound(hunk_line_counts(d), DIFF_RENDER_CAP as int) as int));
            w.len() <= body_of(hv).len() && body_of(hv).take(w.len() as int) == w
        }),
{
    let hv = d@.hunks;
    assert(hunk_line_counts(d) =~= line_counts(hv));
    lemma_whole_prefix(hv, DIFF_RENDER_CAP as int);
    let w = whole_items(hv.take(render_bound(line_counts(hv), DIFF_RENDER_CAP as int) as int));
    let hi = hunk_items(hv, DIFF_RENDER_CAP as int);
    assert(body_of(hv).take(w.len() as int) =~= hi.take(w.len() as int));
}

pub fn header_summary_text(h: &str) -> (s: String)
    ensures
        s@ == header_summary(h@),
{
    let ls = lines_of(&chars_of(h));
    let ghost lv = views(ls@);
    let mut kept: Vec<String> = Vec::new();
    let mut i: usize = 0;
    proof {
        assert(lv.take(0) =~= Seq::<Seq<char>>::empty());
    }
    while i < ls.len()
        invariant
            i <= ls@.len(),
            lv == views(ls@),
            arg_views(kept@) == nonempty(lv.take(i as int)),
        decreases ls@.len() - i,
    {
        proof {
            assert(lv.take(i + 1).drop_last() =~= lv.take(i as int));
            assert(lv.take(i + 1).last() == ls@[i as int]@);
        }
        if ls[i].len() > 0 {
            kept.push(string_from(&ls[i]));
            proof {
                assert(arg_views(kept@) =~= nonempty(lv.take(i as int)).push(ls@[i as int]@));
            }
        }
        i += 1;
    }
    proof {
        assert(lv.take(ls@.len() as int) =~= lv);
    }
    join_strings(&kept, "  ·  ")
}

fn line_row(l: &crate::engine::diff::DiffLine) -> (it: DiffItem)
    ensures
        it@ == line_item(l@),
{
    let marker = match l.kind {
        DiffLineKind::Add => String::from_str("+"),
        DiffLineKind::Del => String::from_str("−"),
        DiffLineKind::Context => String::from_str(" "),
    };
    let mut text = l.content.clone();
    if l.no_newline {
        text.append("\\ (no newline)");
    }
    proof {
        if !l.no_newline {
            assert(text@ =~= l.content@ + Seq::<char>::empty());
        }
    }
    DiffItem::Line(l.kind, marker, text)
}

proof fn lemma_no_budget(hs: Seq<HunkView>, b: int)
    requires
        b <= 0,
    ensures
        hunk_items(hs, b) == Seq::<ItemView>::empty(),
{
}

/// Appends one hunk's rows within the budget.
fn push_hunk(out: &mut Vec<DiffItem>, h: &DiffHunk, budget: usize) -> (used: usize)
    requires
        budget > 0,
    ensures
        used == (if h@.lines.len() < budget {
            h@.lines.len() as int
        } else {
            budget as int
        }),
        item_views(final(out)@) == item_views(old(out)@) + seq![ItemView::Hunk(h@.header)]
            + line_items(h@.lines.take(used as int)),
{
    let n = if h.lines.len() < budget {
        h.lines.len()
    } else {
        budget
    };
    let ghost start = item_views(out@);
    out.push(DiffItem::Hunk(h.header.clone()));
    let mut j: usize = 0;
    proof {
        assert(item_views(out@) =~= start + seq![ItemView::Hunk(h@.header)] + line_items(
            h@.lines.take(0),
        ));
    }
    while j < n
        invariant
            j <= n <= h@.lines.len(),
            item_views(out@) == start + seq![ItemView::Hunk(h@.header)] + line_items(
                h@.lines.take(j as int),
            ),
        decreases n - j,
    {
        let it = line_row(&h.lines[j]);
        let ghost mid = item_views(out@);
        let ghost iv = it@;
        out.push(it);
        proof {
            assert(item_views(out@) =~= mid.push(iv));
            assert(h@.lines[j as int] == h.lines@[j as int]@);
            assert(line_items(h@.lines.take(j + 1)) =~= line_items(h@.lines.take(j as int)).push(
                line_item(h@.lines[j as int]),
            ));
            assert(item_views(out@) =~= start + seq![ItemView::Hunk(h@.header)] + line_items(
                h@.lines.take(j + 1),
            ));
        }
        j += 1;
    }
    n
}

proof fn lemma_total_split(hs: Seq<HunkView>, k: int)
    requires
        0 <= k < hs.len(),
    ensures
        total_lines(hs.skip(k)) == hs[k].lines.len() + total_lines(hs.skip(k + 1)),
{
    assert(hs.skip(k)[0] == hs[k]);
    assert(hs.skip(k).drop_first() =~= hs.skip(k + 1));
}

/// The rows of a diff's hunks up to the render cap, then the trailer
/// when lines were left out.
pub fn diff_body(ud: &UnifiedDiff) -> (v: Vec<DiffItem>)
    ensures
        item_views(v@) == body_of(ud@.hunks),
{
    let ghost hv = ud@.hunks;
    let mut out: Vec<DiffItem> = Vec::new();
    let mut used: usize = 0;
    let mut k: usize = 0;
    proof {
        assert(hv.skip(0) =~= hv);
        assert(item_views(out@) =~= Seq::<ItemView>::empty());
    }
    while k < ud.hunks.len() && used < DIFF_RENDER_CAP
        invariant
            k <= ud.hunks@.len(),
            hv == ud@.hunks,
            hv.len() == ud.hunks@.len(),
            used <= DIFF_RENDER_CAP,
            item_views(out@) + hunk_items(hv.skip(k as int), DIFF_RENDER_CAP - used) == hunk_items(
                hv,
                DIFF_RENDER_CAP as int,
            ),
        decreases ud.hunks@.len() - k,
    {
        let ghost before = item_views(out@);
        let ghost rest = hv.skip(k as int);
        proof {
            assert(rest[0] == ud.hunks@[k as int]@);
            assert(rest.drop_first() =~= hv.skip(k + 1));
        }
        let n = push_hunk(&mut out, &ud.hunks[k], DIFF_RENDER_CAP - used);
        proof {
            assert(item_views(out@) + hunk_items(hv.skip(k + 1), DIFF_RENDER_CAP - used - n)
                =~= before + hunk_items(rest, DIFF_RENDER_CAP - used));
        }
        used = used + n;
        k += 1;
    }
    proof {
        if k < ud.hunks.len() {
            lemma_no_budget(hv.skip(k as int), DIFF_RENDER_CAP - used);
        } else {
            assert(hv.skip(k as int).len() == 0);
        }
        assert(item_views(out@) =~= hunk_items(hv, DIFF_RENDER_CAP as int));
    }
    // the total, in a width no count of lines in memory can overflow
    let mut total: u128 = 0;
    let mut t: usize = 0;
    proof {
        assert(hv.skip(ud.hunks@.len() as int).len() == 0);
    }
    while t < ud.hunks.len()
        invariant
            t <= ud.hunks@.len(),
            hv == ud@.hunks,
            hv.len() == ud.hunks@.len(),
            total <= t * 0x1_0000_0000_0000_0000,
            total + total_lines(hv.skip(t as int)) == total_lines(hv),
        decreases ud.hunks@.len() - t,
    {
        let len = ud.hunks[t].lines.len();
        proof {
            lemma_total_split(hv, t as int);
            assert(hv[t as int].lines.len() == len);
            assert(t < 0x1_0000_0000_0000_0000);
            assert(total + len <= (t + 1) * 0x1_0000_0000_0000_0000) by (nonlinear_arith)
                requires
                    total <= t * 0x1_0000_0000_0000_0000,
                    len < 0x1_0000_0000_0000_0000,
            ;
            assert((t + 1) * 0x1_0000_0000_0000_0000 <= 0x1_0000_0000_0000_0000
                * 0x1_0000_0000_0000_0000) by (nonlinear_arith)
                requires
                    t < 0x1_0000_0000_0000_0000,
            ;
        }
        total = total + len as u128;
        t += 1;
    }
    proof {
        assert(hv.skip(t as int).len() == 0);
    }
    if total > DIFF_RENDER_CAP as u128 {
        let mut note = String::from_str("… ");
        note.append(u128_to_string(total - DIFF_RENDER_CAP as u128).as_str());
        note.append(" more lines — open the file in your editor");
        out.push(DiffItem::Note(note));
    }
    proof {
        assert(item_views(out@) =~= body_of(hv));
    }
    out
}

} // verus!

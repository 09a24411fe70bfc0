//! The History surface: `git log` parsing, in-app graph lane computation,
//! per-commit file lists, and the argv of the log / file-list / diff /
//! checkout / new-worktree commands.

use crate::bytes::{byte_views, nonempty, nonempty_records, split_bytes, split_on_byte};
use crate::engine::working_copy::WorkingCopy;
use crate::engine::{arg_views, args_of, literal, literal_magic, GitError};
use crate::text::{
    chars_of, decimal, i64_to_string, lossy, parse_i64, parse_i64_spec, string_from, trim_end,
    trim_end_vec, u64_to_string, utf8_lossy, words, words_of,
};
use vstd::prelude::*;

verus! {

#[derive(Clone, Debug, PartialEq, Eq)]
pub struct LogCommit {
    /// Full 40-hex sha (the identity every action uses).
    pub hash: String,
    /// Abbreviated sha (display + worktree directory naming).
    pub short: String,
    /// Parent hashes, first parent first.
    pub parents: Vec<String>,
    pub author: String,
    /// Author date, unix seconds.
    pub timestamp: i64,
    /// Ref decorations at this commit (e.g. "HEAD -> main"), "" when none.
    pub refs: String,
    pub subject: String,
    /// Graph lane, assigned by [`assign_lanes`].
    pub lane: usize,
}

/// One cell of a text-graph row.
#[derive(Clone, Copy, Debug, PartialEq, Eq, Structural)]
pub enum GraphCell {
    Commit,
    Wire,
    Empty,
}

/// One row of the text graph: the commit's lane plus a cell per lane.
#[derive(Clone, Debug, PartialEq, Eq)]
pub struct GraphRow {
    pub lane: usize,
    pub cells: Vec<GraphCell>,
}

#[derive(Clone, Debug, PartialEq, Eq)]
pub struct CommitFile {
    /// `diff-tree` status letter: A/M/D/R/C/T/U…
    pub letter: char,
    pub path: String,
    /// Rename/copy source (the `-z` record's first path).
    pub orig_path: Option<String>,
}

pub struct CommitView {
    pub hash: Seq<char>,
    pub short: Seq<char>,
    pub parents: Seq<Seq<char>>,
    pub author: Seq<char>,
    pub timestamp: i64,
    pub refs: Seq<char>,
    pub subject: Seq<char>,
    pub lane: usize,
}

pub open spec fn strings(v: Seq<String>) -> Seq<Seq<char>> {
    v.map_values(|s: String| s@)
}

impl View for LogCommit {
    type V = CommitView;

    open spec fn view(&self) -> CommitView {
        CommitView {
            hash: self.hash@,
            short: self.short@,
            parents: strings(self.parents@),
            author: self.author@,
            timestamp: self.timestamp,
            refs: self.refs@,
            subject: self.subject@,
            lane: self.lane,
        }
    }
}

pub open spec fn commit_views(s: Seq<LogCommit>) -> Seq<CommitView> {
    s.map_values(|c: LogCommit| c@)
}

impl View for GraphRow {
    type V = (usize, Seq<GraphCell>);

    open spec fn view(&self) -> (usize, Seq<GraphCell>) {
        (self.lane, self.cells@)
    }
}

pub open spec fn row_views(s: Seq<GraphRow>) -> Seq<(usize, Seq<GraphCell>)> {
    s.map_values(|r: GraphRow| r@)
}

// ---------------------------------------------------------------------
// `git log` records
// ---------------------------------------------------------------------

/// Field `i` of a record, lossy-decoded; empty when missing.
pub open spec fn field(fields: Seq<Seq<u8>>, i: int) -> Seq<char> {
    if i < fields.len() {
        utf8_lossy(fields[i])
    } else {
        seq![]
    }
}

/// The commit one `%x01`-separated record describes (lane 0).
pub open spec fn record_commit(record: Seq<u8>) -> CommitView {
    let f = split_bytes(record, 1u8);
    CommitView {
        hash: field(f, 0),
        short: field(f, 1),
        parents: words(field(f, 2)),
        author: field(f, 3),
        timestamp: match parse_i64_spec(field(f, 4)) {
            Some(t) => t as i64,
            None => 0,
        },
        refs: field(f, 5),
        subject: trim_end(field(f, 6)),
        lane: 0,
    }
}

pub open spec fn log_step(acc: Seq<CommitView>, record: Seq<u8>) -> Seq<CommitView> {
    if record.len() == 0 || record_commit(record).hash.len() == 0 {
        acc
    } else {
        acc.push(record_commit(record))
    }
}

pub open spec fn log_fold(records: Seq<Seq<u8>>) -> Seq<CommitView>
    decreases records.len(),
{
    if records.len() == 0 {
        seq![]
    } else {
        log_step(log_fold(records.drop_last()), records.last())
    }
}

/// The commits of `%x00`-separated log records with `%x01`-separated
/// fields; records without a hash are skipped.
pub open spec fn log_commits(bytes: Seq<u8>) -> Seq<CommitView> {
    log_fold(split_bytes(bytes, 0u8))
}

fn field_of(fields: &Vec<Vec<u8>>, i: usize) -> (s: String)
    ensures
        s@ == field(byte_views(fields@), i as int),
{
    if i < fields.len() {
        proof {
            assert(byte_views(fields@)[i as int] == fields@[i as int]@);
        }
        lossy(fields[i].as_slice())
    } else {
        String::new()
    }
}

fn parse_record(record: &Vec<u8>) -> (c: LogCommit)
    ensures
        c@ == record_commit(record@),
{
    let fields = split_on_byte(record.as_slice(), 1u8);
    let hash = field_of(&fields, 0);
    let short = field_of(&fields, 1);
    let parents_text = field_of(&fields, 2);
    let parents = words_of(&chars_of(parents_text.as_str()));
    let author = field_of(&fields, 3);
    let ts_text = field_of(&fields, 4);
    let timestamp = match parse_i64(&chars_of(ts_text.as_str())) {
        Some(t) => t,
        None => 0,
    };
    let refs = field_of(&fields, 5);
    let subject_text = field_of(&fields, 6);
    let subject = string_from(&trim_end_vec(&chars_of(subject_text.as_str())));
    LogCommit { hash, short, parents, author, timestamp, refs, subject, lane: 0 }
}

/// Parses `%x00`-separated log records with `%x01`-separated fields.
/// Display strings (author, refs, subject) are lossy-decoded.
pub fn parse_log(bytes: &[u8]) -> (commits: Vec<LogCommit>)
    ensures
        commit_views(commits@) == log_commits(bytes@),
{
    let records = split_on_byte(bytes, 0u8);
    let mut commits: Vec<LogCommit> = Vec::new();
    let mut i: usize = 0;
    proof {
        assert(commit_views(commits@) =~= Seq::<CommitView>::empty());
    }
    while i < records.len()
        invariant
            i <= records.len(),
            byte_views(records@) == split_bytes(bytes@, 0u8),
            commit_views(commits@) == log_fold(byte_views(records@).take(i as int)),
        decreases records.len() - i,
    {
        proof {
            assert(byte_views(records@).take(i + 1).drop_last() =~= byte_views(records@).take(
                i as int,
            ));
            assert(byte_views(records@)[i as int] == records@[i as int]@);
        }
        let record = &records[i];
        if record.len() > 0 {
            let c = parse_record(record);
            if !c.hash.as_str().is_empty() {
                let ghost before = commit_views(commits@);
                commits.push(c);
                proof {
                    assert(commit_views(commits@) =~= before.push(c@));
                }
            }
        }
        i += 1;
    }
    proof {
        assert(byte_views(records@).take(records.len() as int) =~= byte_views(records@));
    }
    commits
}

/// Argv of one `git log --topo-order` batch, newest first. Decorations
/// are pinned to `--decorate=short` so the refs field does not depend on
/// the user's `log.decorate` config.
pub fn log(skip: u64, max_count: u64) -> (args: Vec<String>)
    ensures
        arg_views(args@) == seq![
            "--no-optional-locks"@,
            "log"@,
            "--topo-order"@,
            "--decorate=short"@,
            "--skip="@ + decimal(skip as nat),
            "--max-count="@ + decimal(max_count as nat),
            "--format=%x00%H%x01%h%x01%P%x01%an%x01%at%x01%D%x01%s"@,
        ],
{
    let mut args = args_of(&["--no-optional-locks", "log", "--topo-order", "--decorate=short"]);
    let mut s = String::from_str("--skip=");
    s.append(u64_to_string(skip).as_str());
    let mut m = String::from_str("--max-count=");
    m.append(u64_to_string(max_count).as_str());
    let ghost a0 = arg_views(args@);
    args.push(s);
    args.push(m);
    args.push(String::from_str("--format=%x00%H%x01%h%x01%P%x01%an%x01%at%x01%D%x01%s"));
    proof {
        assert(arg_views(args@) =~= a0 + seq![
            "--skip="@ + decimal(skip as nat),
            "--max-count="@ + decimal(max_count as nat),
            "--format=%x00%H%x01%h%x01%P%x01%an%x01%at%x01%D%x01%s"@,
        ]);
    }
    args
}

/// Argv of the probe that tells an unborn branch (no commits yet, an
/// empty history) from a real one: it fails exactly when HEAD is unborn.
pub fn head_probe() -> (args: Vec<String>)
    ensures
        arg_views(args@) == seq!["rev-parse"@, "--verify"@, "-q"@, "HEAD"@],
{
    args_of(&["rev-parse", "--verify", "-q", "HEAD"])
}

/// The log batch to run, given whether `head_probe` succeeded: an
/// unborn branch is an empty history (no error) and no log runs.
pub fn log_if_born(head_probe_ok: bool, skip: u64, max_count: u64) -> (r: Option<Vec<String>>)
    ensures
        !head_probe_ok ==> r is None,
        head_probe_ok ==> (r matches Some(args) && arg_views(args@) == seq![
            "--no-optional-locks"@,
            "log"@,
            "--topo-order"@,
            "--decorate=short"@,
            "--skip="@ + decimal(skip as nat),
            "--max-count="@ + decimal(max_count as nat),
            "--format=%x00%H%x01%h%x01%P%x01%an%x01%at%x01%D%x01%s"@,
        ]),
{
    if head_probe_ok {
        Some(log(skip, max_count))
    } else {
        None
    }
}

// ---------------------------------------------------------------------
// Graph lanes
// ---------------------------------------------------------------------

/// Lane → the sha whose wire occupies it (`None` = free slot).
pub type Wires = Seq<Option<Seq<char>>>;

pub open spec fn is_first_pos(w: Wires, x: Option<Seq<char>>, k: int) -> bool {
    &&& 0 <= k < w.len()
    &&& w[k] == x
    &&& forall|j: int| 0 <= j < k ==> w[j] != x
}

pub open spec fn first_pos(w: Wires, x: Option<Seq<char>>) -> Option<int> {
    if exists|k: int| is_first_pos(w, x, k) {
        Some(choose|k: int| is_first_pos(w, x, k))
    } else {
        None
    }
}

/// The first free slot, appending one when none is free.
pub open spec fn free_slot(w: Wires) -> (Wires, int) {
    match first_pos(w, None) {
        Some(i) => (w, i),
        None => (w.push(None), w.len() as int),
    }
}

/// The commit's lane: the column of its own wire, else a free slot.
pub open spec fn lane_for(w: Wires, hash: Seq<char>) -> (Wires, int) {
    match first_pos(w, Some(hash)) {
        Some(i) => (w, i),
        None => free_slot(w),
    }
}

/// Wires for the parents: a parent already wired is skipped; the first
/// newly wired parent continues the commit's lane, later ones take free
/// slots. The flag records whether a parent took the lane.
pub open spec fn place_parents(w: Wires, parents: Seq<Seq<char>>, lane: int) -> (Wires, bool)
    decreases parents.len(),
{
    if parents.len() == 0 {
        (w, false)
    } else {
        let (w1, placed) = place_parents(w, parents.drop_last(), lane);
        let p = parents.last();
        if first_pos(w1, Some(p)) is Some {
            (w1, placed)
        } else if placed {
            let (w2, slot) = free_slot(w1);
            (w2.update(slot, Some(p)), true)
        } else {
            (w1.update(lane, Some(p)), true)
        }
    }
}

pub open spec fn row_cells(w: Wires, lane: int) -> Seq<GraphCell> {
    Seq::new(
        w.len(),
        |i: int|
            if i == lane {
                GraphCell::Commit
            } else if w[i] is Some {
                GraphCell::Wire
            } else {
                GraphCell::Empty
            },
    )
}

/// Lane state after the commits: wires, each commit's lane, each row.
pub type LaneState = (Wires, Seq<usize>, Seq<(usize, Seq<GraphCell>)>);

pub open spec fn lane_step(st: LaneState, hash: Seq<char>, parents: Seq<Seq<char>>) -> LaneState {
    let (w1, lane) = lane_for(st.0, hash);
    let w2 = w1.update(lane, None);
    let (w3, _) = place_parents(w2, parents, lane);
    (w3, st.1.push(lane as usize), st.2.push((lane as usize, row_cells(w3, lane))))
}

pub open spec fn lane_fold(cs: Seq<CommitView>) -> LaneState
    decreases cs.len(),
{
    if cs.len() == 0 {
        (seq![], seq![], seq![])
    } else {
        let c = cs.last();
        lane_step(lane_fold(cs.drop_last()), c.hash, c.parents)
    }
}

proof fn lemma_free_slot(w: Wires)
    ensures
        0 <= free_slot(w).1 < free_slot(w).0.len(),
        free_slot(w).0.len() >= w.len(),
{
    if exists|k: int| is_first_pos(w, None, k) {
        let k = choose|k: int| is_first_pos(w, None, k);
    }
}

proof fn lemma_lane_for(w: Wires, hash: Seq<char>)
    ensures
        0 <= lane_for(w, hash).1 < lane_for(w, hash).0.len(),
        lane_for(w, hash).0.len() >= w.len(),
{
    lemma_free_slot(w);
    if exists|k: int| is_first_pos(w, Some(hash), k) {
        let k = choose|k: int| is_first_pos(w, Some(hash), k);
    }
}

proof fn lemma_place_parents_len(w: Wires, parents: Seq<Seq<char>>, lane: int)
    requires
        0 <= lane < w.len(),
    ensures
        place_parents(w, parents, lane).0.len() >= w.len(),
    decreases parents.len(),
{
    if parents.len() > 0 {
        lemma_place_parents_len(w, parents.drop_last(), lane);
        let (w1, placed) = place_parents(w, parents.drop_last(), lane);
        lemma_free_slot(w1);
    }
}

/// No two lanes hold a wire for the same commit.
pub open spec fn unique_wires(w: Wires) -> bool {
    forall|i: int, j: int| 0 <= i < j < w.len() && (#[trigger] w[i]) is Some ==> w[i] != #[trigger] w[j]
}

proof fn lemma_exists_first(w: Wires, x: Option<Seq<char>>, k: int)
    requires
        0 <= k < w.len(),
        w[k] == x,
    ensures
        first_pos(w, x) is Some,
    decreases k,
{
    if exists|j: int| 0 <= j < k && w[j] == x {
        let j = choose|j: int| 0 <= j < k && w[j] == x;
        lemma_exists_first(w, x, j);
    } else {
        assert(is_first_pos(w, x, k));
    }
}

proof fn lemma_absent(w: Wires, x: Option<Seq<char>>)
    requires
        first_pos(w, x) is None,
    ensures
        forall|k: int| 0 <= k < w.len() ==> w[k] != x,
{
    assert forall|k: int| 0 <= k < w.len() implies w[k] != x by {
        if w[k] == x {
            lemma_exists_first(w, x, k);
        }
    }
}

proof fn lemma_unique_free_slot(w: Wires)
    requires
        unique_wires(w),
    ensures
        unique_wires(free_slot(w).0),
        forall|k: int| 0 <= k < free_slot(w).0.len() ==> #[trigger] free_slot(w).0[k] == (if k < w.len() { w[k] } else { None }),
{
    if first_pos(w, None) is None {
        let w2 = w.push(None);
        assert forall|i: int, j: int| 0 <= i < j < w2.len() && (#[trigger] w2[i]) is Some implies w2[i] != #[trigger] w2[j] by {
            if j < w.len() {
                assert(w2[i] == w[i] && w2[j] == w[j]);
            }
        }
    }
}

proof fn lemma_unique_set(w: Wires, k: int, x: Option<Seq<char>>)
    requires
        unique_wires(w),
        0 <= k < w.len(),
        x is Some ==> forall|m: int| 0 <= m < w.len() ==> w[m] != x,
    ensures
        unique_wires(w.update(k, x)),
{
    let w2 = w.update(k, x);
    assert forall|i: int, j: int| 0 <= i < j < w2.len() && (#[trigger] w2[i]) is Some implies w2[i] != #[trigger] w2[j] by {
        if i != k && j != k {
            assert(w2[i] == w[i] && w2[j] == w[j]);
        } else if i == k {
            assert(w2[j] == w[j]);
        } else {
            assert(w2[i] == w[i]);
        }
    }
}

proof fn lemma_unique_place_parents(w: Wires, parents: Seq<Seq<char>>, lane: int)
    requires
        unique_wires(w),
        0 <= lane < w.len(),
    ensures
        unique_wires(place_parents(w, parents, lane).0),
        forall|k: int|
            0 <= k < place_parents(w, parents, lane).0.len() && (#[trigger] place_parents(
                w,
                parents,
                lane,
            ).0[k]) is Some ==> (k < w.len() && w[k] == place_parents(w, parents, lane).0[k])
                || parents.contains(place_parents(w, parents, lane).0[k]->0),
    decreases parents.len(),
{
    if parents.len() > 0 {
        let d = parents.drop_last();
        lemma_unique_place_parents(w, d, lane);
        lemma_place_parents_len(w, d, lane);
        let (w1, placed) = place_parents(w, d, lane);
        let p = parents.last();
        assert forall|x: Seq<char>| d.contains(x) implies parents.contains(x) by {
            let i = choose|i: int| 0 <= i < d.len() && d[i] == x;
            assert(parents[i] == x);
        }
        assert(parents[parents.len() - 1] == p);
        if first_pos(w1, Some(p)) is None {
            lemma_absent(w1, Some(p));
            if placed {
                lemma_free_slot(w1);
                lemma_unique_free_slot(w1);
                let (w2, slot) = free_slot(w1);
                lemma_unique_set(w2, slot, Some(p));
            } else {
                lemma_unique_set(w1, lane, Some(p));
            }
        }
    }
}

proof fn lemma_unique_step(st: LaneState, hash: Seq<char>, parents: Seq<Seq<char>>)
    requires
        unique_wires(st.0),
    ensures
        unique_wires(lane_step(st, hash, parents).0),
        !parents.contains(hash) ==> forall|k: int|
            0 <= k < lane_step(st, hash, parents).0.len() ==> #[trigger] lane_step(
                st,
                hash,
                parents,
            ).0[k] != Some(hash),
{
    let w = st.0;
    lemma_lane_for(w, hash);
    lemma_unique_free_slot(w);
    let (w1, lane) = lane_for(w, hash);
    let w2 = w1.update(lane, None);
    lemma_unique_set(w1, lane, None);
    lemma_unique_place_parents(w2, parents, lane);
    // the commit's own wire is gone once its lane is cleared
    assert forall|k: int| 0 <= k < w2.len() implies w2[k] != Some(hash) by {
        if k != lane {
            match first_pos(w, Some(hash)) {
                Some(i) => {
                    assert(is_first_pos(w, Some(hash), i));
                    assert(w1 == w && lane == i);
                    if w[k] == Some(hash) {
                        if k < i {
                        } else {
                            assert(w[i] is Some);
                        }
                    }
                },
                None => {
                    lemma_absent(w, Some(hash));
                    assert(w1[k] == (if k < w.len() { w[k] } else { None }));
                },
            }
        }
    }
}

/// After every commit is placed, no two lanes hold a wire for the same
/// commit: a parent that already has a wire gets no second one.
pub proof fn wires_stay_unique(cs: Seq<CommitView>)
    ensures
        unique_wires(lane_fold(cs).0),
    decreases cs.len(),
{
    if cs.len() > 0 {
        wires_stay_unique(cs.drop_last());
        lemma_unique_step(lane_fold(cs.drop_last()), cs.last().hash, cs.last().parents);
    }
}

/// A wire ends at the row of the commit it leads to: once a commit is
/// placed, no lane holds a wire for it (unless it names itself as a
/// parent).
pub proof fn placed_commit_ends_its_wire(cs: Seq<CommitView>, c: CommitView)
    requires
        !c.parents.contains(c.hash),
    ensures
        forall|k: int|
            0 <= k < lane_fold(cs.push(c)).0.len() ==> #[trigger] lane_fold(cs.push(c)).0[k] != Some(
                c.hash,
            ),
{
    wires_stay_unique(cs);
    assert(cs.push(c).drop_last() =~= cs);
    assert(cs.push(c).last() == c);
    lemma_unique_step(lane_fold(cs), c.hash, c.parents);
}

proof fn lemma_first_pos_at(w: Wires, x: Option<Seq<char>>, k: int)
    requires
        0 <= k < w.len(),
        w[k] == x,
        forall|j: int| 0 <= j < k ==> w[j] != x,
    ensures
        first_pos(w, x) == Some(k),
{
    assert(is_first_pos(w, x, k));
    let i = choose|i: int| is_first_pos(w, x, i);
    if i < k {
        assert(w[i] == x);
    } else if i > k {
        assert(w[k] != x);
    }
}

/// A commit that already has a wire is drawn in that wire's lane.
pub proof fn commit_follows_its_wire(cs: Seq<CommitView>, c: CommitView, k: int)
    requires
        0 <= k < lane_fold(cs).0.len(),
        lane_fold(cs).0[k] == Some(c.hash),
    ensures
        lane_fold(cs.push(c)).1 == lane_fold(cs).1.push(k as usize),
{
    wires_stay_unique(cs);
    let w = lane_fold(cs).0;
    assert forall|j: int| 0 <= j < k implies w[j] != Some(c.hash) by {
        if w[j] == Some(c.hash) {
            assert(w[j] is Some && w[j] != w[k]);
        }
    }
    lemma_first_pos_at(w, Some(c.hash), k);
    assert(cs.push(c).drop_last() =~= cs);
    assert(cs.push(c).last() == c);
}

proof fn lemma_free_slot_keeps(w: Wires)
    ensures
        forall|k: int|
            0 <= k < free_slot(w).0.len() ==> #[trigger] free_slot(w).0[k] == (if k < w.len() {
                w[k]
            } else {
                None
            }),
        free_slot(w).0.len() <= w.len() + 1,
        0 <= free_slot(w).1 < free_slot(w).0.len(),
        free_slot(w).0[free_slot(w).1] is None,
{
    lemma_free_slot(w);
    if exists|k: int| is_first_pos(w, None, k) {
        let k = choose|k: int| is_first_pos(w, None, k);
    }
}

proof fn lemma_first_parent_lane(w: Wires, ps: Seq<Seq<char>>, lane: int)
    requires
        0 <= lane < w.len(),
        ps.len() > 0,
        forall|k: int| 0 <= k < w.len() ==> w[k] != Some(ps[0]),
    ensures
        place_parents(w, ps, lane).0[lane] == Some(ps[0]),
        place_parents(w, ps, lane).1,
    decreases ps.len(),
{
    if ps.len() == 1 {
        assert(ps.drop_last() =~= Seq::<Seq<char>>::empty());
        assert(ps.last() == ps[0]);
        if first_pos(w, Some(ps[0])) is Some {
            let i = first_pos(w, Some(ps[0]))->0;
            assert(is_first_pos(w, Some(ps[0]), i));
        }
    } else {
        let d = ps.drop_last();
        assert(d[0] == ps[0]);
        lemma_first_parent_lane(w, d, lane);
        lemma_place_parents_len(w, d, lane);
        let (w1, placed) = place_parents(w, d, lane);
        lemma_free_slot_keeps(w1);
    }
}

/// The first parent of a commit, when it has no wire yet, continues the
/// commit's lane.
pub proof fn first_parent_continues_the_lane(cs: Seq<CommitView>, c: CommitView)
    requires
        c.parents.len() > 0,
        lane_fold(cs).0.len() < usize::MAX,
        forall|k: int| 0 <= k < lane_fold(cs).0.len() ==> lane_fold(cs).0[k] != Some(c.parents[0]),
    ensures
        lane_fold(cs.push(c)).0[lane_fold(cs.push(c)).1.last() as int] == Some(c.parents[0]),
{
    let w = lane_fold(cs).0;
    assert(cs.push(c).drop_last() =~= cs);
    assert(cs.push(c).last() == c);
    lemma_lane_for(w, c.hash);
    lemma_free_slot_keeps(w);
    let (w1, lane) = lane_for(w, c.hash);
    let w2 = w1.update(lane, None);
    assert forall|k: int| 0 <= k < w2.len() implies w2[k] != Some(c.parents[0]) by {
        if k != lane {
            if k < w.len() {
                if first_pos(w, Some(c.hash)) is None {
                    assert(w1[k] == w[k]);
                }
            }
        }
    }
    lemma_first_parent_lane(w2, c.parents, lane);
}

fn find_wire(wires: &Vec<Option<String>>, x: &Option<String>) -> (r: Option<usize>)
    ensures
        r matches Some(k) ==> first_pos(wire_views(wires@), opt_chars(*x)) == Some(k as int),
        r is None ==> first_pos(wire_views(wires@), opt_chars(*x)) is None,
{
    let ghost w = wire_views(wires@);
    let ghost xv = opt_chars(*x);
    let mut i: usize = 0;
    while i < wires.len()
        invariant
            i <= wires.len(),
            w == wire_views(wires@),
            xv == opt_chars(*x),
            forall|j: int| 0 <= j < i ==> w[j] != xv,
        decreases wires.len() - i,
    {
        let same = match (&wires[i], x) {
            (Some(a), Some(b)) => *a == *b,
            (None, None) => true,
            _ => false,
        };
        proof {
            assert(w[i as int] == opt_chars(wires@[i as int]));
        }
        if same {
            proof {
                assert(is_first_pos(w, xv, i as int));
                let k = choose|k: int| is_first_pos(w, xv, k);
                if k < i {
                    assert(w[k] != xv);
                } else if k > i {
                    assert(w[i as int] != xv);
                }
            }
            return Some(i);
        }
        i += 1;
    }
    proof {
        if exists|k: int| is_first_pos(w, xv, k) {
            let k = choose|k: int| is_first_pos(w, xv, k);
            assert(w[k] == xv);
        }
    }
    None
}

pub open spec fn opt_chars(o: Option<String>) -> Option<Seq<char>> {
    match o {
        Some(s) => Some(s@),
        None => None,
    }
}

pub open spec fn wire_views(w: Seq<Option<String>>) -> Wires {
    w.map_values(|o: Option<String>| opt_chars(o))
}

fn take_free_slot(wires: &mut Vec<Option<String>>) -> (slot: usize)
    ensures
        (wire_views(final(wires)@), slot as int) == free_slot(wire_views(old(wires)@)),
{
    let none: Option<String> = None;
    match find_wire(wires, &none) {
        Some(i) => i,
        None => {
            let ghost w0 = wire_views(wires@);
            wires.push(None);
            proof {
                assert(wire_views(wires@) =~= w0.push(None));
            }
            wires.len() - 1
        },
    }
}

fn set_wire(wires: &mut Vec<Option<String>>, i: usize, x: Option<String>)
    requires
        i < old(wires)@.len(),
    ensures
        wire_views(final(wires)@) == wire_views(old(wires)@).update(i as int, opt_chars(x)),
{
    let ghost w0 = wire_views(wires@);
    wires.set(i, x);
    proof {
        assert(wire_views(wires@) =~= w0.update(i as int, opt_chars(x)));
    }
}

fn place_parent_wires(wires: &mut Vec<Option<String>>, parents: &Vec<String>, lane: usize)
    requires
        lane < old(wires)@.len(),
    ensures
        wire_views(final(wires)@) == place_parents(
            wire_views(old(wires)@),
            strings(parents@),
            lane as int,
        ).0,
{
    let ghost w0 = wire_views(wires@);
    let mut placed = false;
    let mut k: usize = 0;
    while k < parents.len()
        invariant
            k <= parents.len(),
            lane < w0.len(),
            (wire_views(wires@), placed) == place_parents(w0, strings(parents@).take(k as int), lane as int),
        decreases parents.len() - k,
    {
        proof {
            assert(strings(parents@).take(k + 1).drop_last() =~= strings(parents@).take(k as int));
            assert(strings(parents@)[k as int] == parents@[k as int]@);
            lemma_place_parents_len(w0, strings(parents@).take(k as int), lane as int);
        }
        let p = Some(parents[k].clone());
        match find_wire(wires, &p) {
            Some(_) => {},
            None => {
                if placed {
                    let slot = take_free_slot(wires);
                    proof {
                        lemma_free_slot(place_parents(w0, strings(parents@).take(k as int), lane as int).0);
                    }
                    set_wire(wires, slot, p);
                } else {
                    set_wire(wires, lane, p);
                    placed = true;
                }
            },
        }
        k += 1;
    }
    proof {
        assert(strings(parents@).take(parents.len() as int) =~= strings(parents@));
    }
}

fn cells_for(wires: &Vec<Option<String>>, lane: usize) -> (cells: Vec<GraphCell>)
    ensures
        cells@ == row_cells(wire_views(wires@), lane as int),
{
    let mut cells: Vec<GraphCell> = Vec::new();
    let mut i: usize = 0;
    while i < wires.len()
        invariant
            i <= wires.len(),
            cells@ == row_cells(wire_views(wires@), lane as int).take(i as int),
        decreases wires.len() - i,
    {
        let cell = if i == lane {
            GraphCell::Commit
        } else if wires[i].is_some() {
            GraphCell::Wire
        } else {
            GraphCell::Empty
        };
        proof {
            assert(wire_views(wires@)[i as int] == opt_chars(wires@[i as int]));
        }
        cells.push(cell);
        i += 1;
        proof {
            assert(cells@ =~= row_cells(wire_views(wires@), lane as int).take(i as int));
        }
    }
    proof {
        assert(row_cells(wire_views(wires@), lane as int).take(wires.len() as int) =~= row_cells(
            wire_views(wires@),
            lane as int,
        ));
    }
    cells
}

/// The commits with their lanes set as the fold assigns them.
pub open spec fn with_lanes(cs: Seq<CommitView>, lanes: Seq<usize>) -> Seq<CommitView> {
    Seq::new(cs.len(), |i: int| CommitView { lane: lanes[i], ..cs[i] })
}

/// A row is well-formed when its lane is one of its cells, that cell is
/// the commit's, and no other cell is.
pub open spec fn row_well_formed(lane: usize, cells: Seq<GraphCell>) -> bool {
    &&& lane < cells.len()
    &&& cells[lane as int] == GraphCell::Commit
    &&& forall|j: int| 0 <= j < cells.len() && j != lane ==> cells[j] != GraphCell::Commit
}

/// Assigns graph lanes over the topo-ordered commits (in place: sets each
/// commit's `lane`) and returns one row per commit for rendering. A lane
/// keeps its column for as long as its wire lives; consumed or closed
/// wires leave a slot that the next new wire reuses.
pub fn assign_lanes(commits: &mut Vec<LogCommit>) -> (rows: Vec<GraphRow>)
    ensures
        commit_views(final(commits)@) == with_lanes(
            commit_views(old(commits)@),
            lane_fold(commit_views(old(commits)@)).1,
        ),
        row_views(rows@) == lane_fold(commit_views(old(commits)@)).2,
        rows@.len() == final(commits)@.len(),
        forall|i: int|
            0 <= i < rows@.len() ==> (#[trigger] rows@[i]).lane == final(commits)@[i].lane
                && row_well_formed(rows@[i].lane, rows@[i].cells@),
{
    let ghost cs = commit_views(commits@);
    let mut wires: Vec<Option<String>> = Vec::new();
    let mut rows: Vec<GraphRow> = Vec::new();
    let ghost mut lanes: Seq<usize> = seq![];
    let mut i: usize = 0;
    proof {
        assert(wire_views(wires@) =~= Seq::<Option<Seq<char>>>::empty());
        assert(row_views(rows@) =~= Seq::<(usize, Seq<GraphCell>)>::empty());
        assert(cs.take(0) =~= Seq::<CommitView>::empty());
    }
    while i < commits.len()
        invariant
            i <= commits.len(),
            cs.len() == commits.len(),
            rows@.len() == i,
            lanes.len() == i,
            (wire_views(wires@), lanes, row_views(rows@)) == lane_fold(cs.take(i as int)),
            forall|j: int|
                0 <= j < i ==> commit_views(commits@)[j] == (CommitView { lane: lanes[j], ..cs[j] }),
            forall|j: int| i <= j < cs.len() ==> commit_views(commits@)[j] == cs[j],
            forall|j: int|
                0 <= j < i ==> (#[trigger] rows@[j]).lane == lanes[j] && row_well_formed(
                    rows@[j].lane,
                    rows@[j].cells@,
                ),
        decreases commits.len() - i,
    {
        proof {
            assert(cs.take(i + 1).drop_last() =~= cs.take(i as int));
            assert(cs.take(i + 1).last() == cs[i as int]);
            assert(commit_views(commits@)[i as int] == commits@[i as int]@);
            lemma_lane_for(wire_views(wires@), cs[i as int].hash);
        }
        let ghost w0 = wire_views(wires@);
        let h = Some(commits[i].hash.clone());
        let lane = match find_wire(&wires, &h) {
            Some(k) => k,
            None => take_free_slot(&mut wires),
        };
        proof {
            assert((wire_views(wires@), lane as int) == lane_for(w0, cs[i as int].hash));
        }
        set_wire(&mut wires, lane, None);
        let parents = commits[i].parents.clone();
        proof {
            assert(strings(parents@) =~= strings(commits@[i as int].parents@));
            lemma_place_parents_len(wire_views(wires@), cs[i as int].parents, lane as int);
        }
        place_parent_wires(&mut wires, &parents, lane);
        let cells = cells_for(&wires, lane);
        let ghost before_rows = row_views(rows@);
        let ghost before_commits = commit_views(commits@);
        commits[i].lane = lane;
        let row = GraphRow { lane, cells };
        rows.push(row);
        proof {
            assert(row_views(rows@) =~= before_rows.push(row@));
            lanes = lanes.push(lane);
            assert(commit_views(commits@) =~= before_commits.update(
                i as int,
                (CommitView { lane: lane, ..cs[i as int] }),
            ));
            assert(row_well_formed(rows@[i as int].lane, rows@[i as int].cells@));
        }
        i += 1;
    }
    proof {
        assert(cs.take(cs.len() as int) =~= cs);
        assert(commit_views(commits@) =~= with_lanes(cs, lanes));
        assert forall|k: int| 0 <= k < rows@.len() implies (#[trigger] rows@[k]).lane
            == commits@[k].lane && row_well_formed(rows@[k].lane, rows@[k].cells@) by {
            assert(commit_views(commits@)[k] == commits@[k]@);
        }
    }
    rows
}

// ---------------------------------------------------------------------
// Commit file lists
// ---------------------------------------------------------------------

pub struct CommitFileView {
    pub letter: char,
    pub path: Seq<char>,
    pub orig_path: Option<Seq<char>>,
}

impl View for CommitFile {
    type V = CommitFileView;

    open spec fn view(&self) -> CommitFileView {
        CommitFileView { letter: self.letter, path: self.path@, orig_path: opt_chars(self.orig_path) }
    }
}

pub open spec fn file_list_views(s: Seq<CommitFile>) -> Seq<CommitFileView> {
    s.map_values(|f: CommitFile| f@)
}

pub open spec fn rec_text(recs: Seq<Seq<u8>>, i: int) -> Seq<char> {
    if 0 <= i < recs.len() {
        utf8_lossy(recs[i])
    } else {
        seq![]
    }
}

/// The status letter of a record: its first byte as a character.
pub open spec fn letter_of(rec: Seq<u8>) -> char {
    if rec.len() > 0 {
        rec[0] as char
    } else {
        '?'
    }
}

/// The records after the first `n`, empty when there are fewer.
pub open spec fn after(recs: Seq<Seq<u8>>, n: int) -> Seq<Seq<u8>> {
    if n <= recs.len() {
        recs.skip(n)
    } else {
        seq![]
    }
}

/// Files of `diff-tree --name-status -z` records: a status record, then
/// one path, or for renames and copies (R/C) the old path and then the
/// new one.
pub open spec fn commit_file_list(recs: Seq<Seq<u8>>) -> Seq<CommitFileView>
    decreases recs.len(),
{
    if recs.len() == 0 {
        seq![]
    } else {
        let letter = letter_of(recs[0]);
        if letter == 'R' || letter == 'C' {
            seq![
                CommitFileView {
                    letter,
                    path: rec_text(recs, 2),
                    orig_path: Some(rec_text(recs, 1)),
                },
            ] + commit_file_list(after(recs, 3))
        } else {
            seq![CommitFileView { letter, path: rec_text(recs, 1), orig_path: None }]
                + commit_file_list(after(recs, 2))
        }
    }
}

/// Record `j + k`, lossy-decoded; empty past the end.
fn rec_string(recs: &Vec<Vec<u8>>, j: usize, k: usize) -> (s: String)
    requires
        j <= recs@.len(),
    ensures
        s@ == rec_text(byte_views(recs@), j + k),
{
    if k < recs.len() - j {
        proof {
            assert(byte_views(recs@)[j + k] == recs@[j + k]@);
        }
        lossy(recs[j + k].as_slice())
    } else {
        String::new()
    }
}

/// Parses `git diff-tree -M --no-commit-id --name-status -r -z` output
/// into the changed files with their one-letter statuses.
pub fn parse_commit_files(bytes: &[u8]) -> (files: Vec<CommitFile>)
    ensures
        file_list_views(files@) == commit_file_list(nonempty(split_bytes(bytes@, 0u8))),
{
    let recs = nonempty_records(bytes, 0u8);
    let ghost all = byte_views(recs@);
    let mut files: Vec<CommitFile> = Vec::new();
    let mut j: usize = 0;
    proof {
        assert(all.skip(0) =~= all);
        assert(file_list_views(files@) =~= Seq::<CommitFileView>::empty());
    }
    while j < recs.len()
        invariant
            all == byte_views(recs@),
            j <= recs.len(),
            file_list_views(files@) + commit_file_list(all.skip(j as int)) == commit_file_list(
                all,
            ),
        decreases recs.len() - j,
    {
        let ghost rest = all.skip(j as int);
        proof {
            assert(all[j as int] == recs@[j as int]@);
            assert(rest[0] == all[j as int]);
        }
        let status = &recs[j];
        let letter = if status.len() > 0 { status[0] as char } else { '?' };
        let first = rec_string(&recs, j, 1);
        proof {
            assert(rec_text(rest, 1) == rec_text(all, j + 1));
            assert(rec_text(rest, 2) == rec_text(all, j + 2));
        }
        let ghost before = file_list_views(files@);
        let remaining = recs.len() - j;
        if letter == 'R' || letter == 'C' {
            let second = rec_string(&recs, j, 2);
            let f = CommitFile { letter, path: second, orig_path: Some(first) };
            files.push(f);
            let step: usize = if remaining < 3 { remaining } else { 3 };
            proof {
                assert(file_list_views(files@) =~= before.push(f@));
                assert(after(rest, 3) =~= all.skip(j + step));
                assert(before.push(f@) + commit_file_list(after(rest, 3)) =~= before + (seq![f@]
                    + commit_file_list(after(rest, 3))));
            }
            j += step;
        } else {
            let f = CommitFile { letter, path: first, orig_path: None };
            files.push(f);
            let step: usize = if remaining < 2 { remaining } else { 2 };
            proof {
                assert(file_list_views(files@) =~= before.push(f@));
                assert(after(rest, 2) =~= all.skip(j + step));
                assert(before.push(f@) + commit_file_list(after(rest, 2)) =~= before + (seq![f@]
                    + commit_file_list(after(rest, 2))));
            }
            j += step;
        }
    }
    proof {
        assert(all.skip(j as int) =~= Seq::<Seq<u8>>::empty());
        assert(file_list_views(files@) + Seq::<CommitFileView>::empty() =~= file_list_views(
            files@,
        ));
    }
    files
}

/// Argv of the probe for a merge commit's first parent
/// (`rev-parse -q --verify <sha>^1`).
pub fn first_parent_probe(sha: &str) -> (args: Vec<String>)
    ensures
        arg_views(args@) == seq!["rev-parse"@, "-q"@, "--verify"@, sha@ + "^1"@],
{
    let mut args = args_of(&["rev-parse", "-q", "--verify"]);
    let mut s = String::from_str(sha);
    s.append("^1");
    let ghost a0 = arg_views(args@);
    args.push(s);
    proof {
        assert(arg_views(args@) =~= a0.push(sha@ + "^1"@));
    }
    args
}

/// Argv listing the files a commit changed with one-letter statuses.
/// `--root` makes the root commit list its initial files as additions.
/// For a merge commit, `parent1` (what `first_parent_probe` printed,
/// trimmed; an empty answer counts as none) makes this a plain
/// first-parent..commit diff — single-argument `diff-tree` lists nothing
/// for merges.
pub fn commit_files(sha: &str, parent1: Option<&str>) -> (args: Vec<String>)
    ensures
        arg_views(args@) == seq![
            "--no-optional-locks"@,
            "diff-tree"@,
            "-M"@,
            "--no-commit-id"@,
            "--name-status"@,
            "-r"@,
            "-z"@,
            "--root"@,
        ] + match parent1 {
            Some(p) if p@.len() > 0 => seq![p@, sha@],
            _ => seq![sha@],
        },
{
    let mut args = args_of(
        &["--no-optional-locks", "diff-tree", "-M", "--no-commit-id", "--name-status", "-r", "-z", "--root"],
    );
    let ghost a0 = arg_views(args@);
    let parent1 = match parent1 {
        Some(p) => if p.is_empty() {
            None
        } else {
            Some(p)
        },
        None => None,
    };
    match parent1 {
        Some(p) => {
            args.push(String::from_str(p));
            args.push(String::from_str(sha));
            proof {
                assert(arg_views(args@) =~= a0 + seq![p@, sha@]);
            }
        },
        None => {
            args.push(String::from_str(sha));
            proof {
                assert(arg_views(args@) =~= a0 + seq![sha@]);
            }
        },
    }
    args
}

/// Argv of the unified diff of one file in one commit, against its first
/// parent (`--first-parent` keeps merges out of combined `@@@` diffs;
/// `-M` renders a pure rename as a rename under a pathspec).
pub fn commit_diff(sha: &str, rel_path: &str) -> (args: Vec<String>)
    ensures
        arg_views(args@) == seq![
            "--no-optional-locks"@,
            "show"@,
            "--format="@,
            "--first-parent"@,
            "-M"@,
            "--no-color"@,
            "--no-ext-diff"@,
            "--no-textconv"@,
            "-U3"@,
            sha@,
            "--"@,
            literal_magic() + rel_path@,
        ],
{
    let mut args = args_of(
        &["--no-optional-locks", "show", "--format=", "--first-parent", "-M", "--no-color", "--no-ext-diff", "--no-textconv", "-U3"],
    );
    let ghost a0 = arg_views(args@);
    args.push(String::from_str(sha));
    args.push(String::from_str("--"));
    args.push(literal(rel_path));
    proof {
        assert(arg_views(args@) =~= a0 + seq![sha@, "--"@, literal_magic() + rel_path@]);
    }
    args
}

/// The refusal `checkout` gives while the working copy has changes.
pub open spec fn dirty_checkout_message() -> Seq<char> {
    "the working copy has changes — commit or discard them before checking out a commit"@
}

/// Checks out a commit in this worktree (detached HEAD), given the
/// worktree's current snapshot: refused while the working copy has
/// changes — uncommitted work outranks the jump.
pub fn checkout(status: &WorkingCopy, sha: &str) -> (r: Result<Vec<String>, GitError>)
    ensures
        status.entries@.len() > 0 <==> r is Err,
        r matches Err(e) ==> e.message@ == dirty_checkout_message(),
        r matches Ok(args) ==> arg_views(args@) == seq!["checkout"@, "-q"@, sha@],
{
    if status.entries.len() > 0 {
        return Err(
            GitError {
                message: String::from_str(
                    "the working copy has changes — commit or discard them before checking out a commit",
                ),
            },
        );
    }
    let mut args = args_of(&["checkout", "-q"]);
    let ghost a0 = arg_views(args@);
    args.push(String::from_str(sha));
    proof {
        assert(arg_views(args@) =~= a0.push(sha@));
    }
    Ok(args)
}

pub open spec fn root_worktree_message() -> Seq<char> {
    "cannot place a worktree next to the repository root"@
}

/// Where a new worktree at a commit goes, on the given attempt: a
/// sibling `<name>-<short>` of the worktree, then `<name>-<short>-2`,
/// `-3`, … while earlier candidates exist. `None` when the worktree has
/// no parent (the filesystem root).
pub open spec fn worktree_candidate(worktree: Seq<char>, short: Seq<char>, attempt: nat) -> Option<
    Seq<char>,
> {
    let name = match crate::paths::file_name(worktree) {
        Some(n) => n,
        None => "worktree"@,
    };
    match crate::paths::parent(worktree) {
        None => None,
        Some(p) => Some(
            crate::paths::join(
                p,
                name + "-"@ + short + if attempt == 0 {
                    seq![]
                } else {
                    "-"@ + decimal(attempt + 1)
                },
            ),
        ),
    }
}

/// Where the new worktree goes, found by trying the candidates in
/// order: the caller says whether the current candidate exists.
pub struct Placement {
    worktree: String,
    sha: String,
    short: String,
    attempt: u32,
}

/// What placing a worktree asks for next.
pub enum PlaceStep {
    /// Tell whether this path exists.
    Probe(String),
    /// The path is free: create the worktree there with these arguments.
    Create(String, Vec<String>),
}

pub open spec fn add_args(p: Seq<char>, sha: Seq<char>) -> Seq<Seq<char>> {
    seq!["worktree"@, "add"@, "-q"@, "--detach"@, p, sha]
}

impl Placement {
    /// The candidate under probe.
    pub closed spec fn attempt(&self) -> nat {
        self.attempt as nat
    }

    pub closed spec fn target(&self) -> (Seq<char>, Seq<char>, Seq<char>) {
        (self.worktree@, self.sha@, self.short@)
    }

    /// How many candidates were found taken so far.
    pub fn tried(&self) -> (n: u32)
        ensures
            n == self.attempt(),
    {
        self.attempt
    }

    /// Starts with the first candidate; refused when the worktree has no
    /// parent.
    pub fn start(worktree: &str, sha: &str, short: &str) -> (r: Result<(Placement, String), GitError>)
        ensures
            match worktree_candidate(worktree@, short@, 0) {
                None => r matches Err(e) && e.message@ == root_worktree_message(),
                Some(p) => r matches Ok((pl, path)) && path@ == p && pl.attempt() == 0
                    && pl.target() == (worktree@, sha@, short@),
            },
    {
        let (path, _) = open_worktree_at(worktree, sha, short, 0)?;
        Ok((
            Placement {
                worktree: String::from_str(worktree),
                sha: String::from_str(sha),
                short: String::from_str(short),
                attempt: 0,
            },
            path,
        ))
    }

    /// The answer for the current candidate: a free one is where the
    /// worktree is created, so the least free candidate is taken; a
    /// taken one moves on to the next candidate.
    pub fn next(&mut self, exists: bool) -> (step: PlaceStep)
        requires
            worktree_candidate(old(self).target().0, old(self).target().2, 0) is Some,
            exists ==> old(self).attempt() + 1 < u32::MAX,
        ensures
            final(self).target() == old(self).target(),
            !exists ==> final(self).attempt() == old(self).attempt() && (step matches PlaceStep::Create(
                p,
                args,
            ) && Some(p@) == worktree_candidate(
                old(self).target().0,
                old(self).target().2,
                old(self).attempt(),
            ) && arg_views(args@) == add_args(p@, old(self).target().1)),
            exists ==> final(self).attempt() == old(self).attempt() + 1 && (step matches PlaceStep::Probe(
                p,
            ) && Some(p@) == worktree_candidate(
                old(self).target().0,
                old(self).target().2,
                old(self).attempt() + 1,
            )),
    {
        if exists {
            self.attempt = self.attempt + 1;
        }
        let r = open_worktree_at(self.worktree.as_str(), self.sha.as_str(), self.short.as_str(), self.attempt);
        match r {
            Ok((p, args)) => if exists {
                PlaceStep::Probe(p)
            } else {
                PlaceStep::Create(p, args)
            },
            Err(_) => {
                assert(false);
                PlaceStep::Probe(String::new())
            },
        }
    }
}

/// The new worktree's path on the given attempt (the caller retries
/// with the next attempt while the path exists) and the argv creating a
/// detached worktree there at the commit.
pub fn open_worktree_at(worktree: &str, sha: &str, short: &str, attempt: u32) -> (r: Result<
    (String, Vec<String>),
    GitError,
>)
    ensures
        match worktree_candidate(worktree@, short@, attempt as nat) {
            None => r matches Err(e) && e.message@ == root_worktree_message(),
            Some(p) => r matches Ok((path, args)) && path@ == p && arg_views(args@) == seq![
                "worktree"@,
                "add"@,
                "-q"@,
                "--detach"@,
                p,
                sha@,
            ],
        },
{
    let name = match crate::paths::file_name_of(worktree) {
        Some(n) => n,
        None => String::from_str("worktree"),
    };
    let parent = match crate::paths::parent_of(worktree) {
        Some(p) => p,
        None => {
            return Err(
                GitError {
                    message: String::from_str("cannot place a worktree next to the repository root"),
                },
            );
        },
    };
    let mut leaf = name;
    leaf.append("-");
    leaf.append(short);
    if attempt > 0 {
        leaf.append("-");
        leaf.append(u64_to_string(attempt as u64 + 1).as_str());
    }
    proof {
        let tail: Seq<char> = if attempt == 0 {
            seq![]
        } else {
            "-"@ + decimal(attempt as nat + 1)
        };
        assert(leaf@ =~= name@ + "-"@ + short@ + tail);
    }
    let path = crate::paths::join_path(parent.as_str(), leaf.as_str());
    let mut args = args_of(&["worktree", "add", "-q", "--detach"]);
    let ghost a0 = arg_views(args@);
    args.push(path.clone());
    args.push(String::from_str(sha));
    proof {
        assert(arg_views(args@) =~= a0 + seq![path@, sha@]);
    }
    Ok((path, args))
}

} // verus!

//! Stash operations: parsing the stash list, and the argv of push, pop,
//! apply and drop (`stash@{N}` addresses one entry).

use crate::engine::{arg_views, args_of};
use crate::text::{
    chars_of, decimal, ends_with, has_suffix, parse_unsigned, parse_unsigned_vec, piece, piece_of,
    slice_vec, split, split_chars, splitn, splitn_chars, starts_with, string_from, strip_prefix,
    trim, trim_end, trim_end_vec, trim_vec, u64_to_string, views,
};
use vstd::prelude::*;

verus! {

#[derive(Clone, Debug, PartialEq, Eq)]
pub struct StashEntry {
    /// Stash index (0 = most recent).
    pub index: usize,
    /// Short descriptive message (e.g. "WIP on main: abc123 subject").
    pub message: String,
    /// The stash ref (e.g. `stash@{0}`).
    pub ref_name: String,
}

pub struct StashView {
    pub index: usize,
    pub message: Seq<char>,
    pub ref_name: Seq<char>,
}

impl View for StashEntry {
    type V = StashView;

    open spec fn view(&self) -> StashView {
        StashView { index: self.index, message: self.message@, ref_name: self.ref_name@ }
    }
}

pub open spec fn stash_views(s: Seq<StashEntry>) -> Seq<StashView> {
    s.map_values(|e: StashEntry| e@)
}

/// Argv listing the stash, newest first, as `%x00`-separated records of
/// the ref and the subject.
pub fn list_args() -> (args: Vec<String>)
    ensures
        arg_views(args@) == seq![
            "--no-optional-locks"@,
            "stash"@,
            "list"@,
            "--format=%x00%gd%x01%gs"@,
        ],
{
    args_of(&["--no-optional-locks", "stash", "list", "--format=%x00%gd%x01%gs"])
}

/// The `N` of a `stash@{N}` ref.
pub open spec fn ref_index(r: Seq<char>) -> Option<nat> {
    if starts_with(r, "stash@{"@) {
        let rest = r.skip(("stash@{"@).len() as int);
        if ends_with(rest, "}"@) {
            parse_unsigned(rest.take(rest.len() - ("}"@).len()), usize::MAX as nat)
        } else {
            None
        }
    } else {
        None
    }
}

/// The entry one record describes; an index that cannot be read from the
/// ref is the entry's position.
pub open spec fn stash_record(record: Seq<char>, position: nat) -> StashView {
    let parts = splitn(record, 2, '\u{1}');
    let ref_name = trim(piece(parts, 0));
    StashView {
        index: match ref_index(ref_name) {
            Some(n) => n as usize,
            None => position as usize,
        },
        message: trim_end(piece(parts, 1)),
        ref_name,
    }
}

pub open spec fn stash_fold(records: Seq<Seq<char>>) -> Seq<StashView>
    decreases records.len(),
{
    if records.len() == 0 {
        seq![]
    } else {
        let acc = stash_fold(records.drop_last());
        if records.last().len() == 0 {
            acc
        } else {
            acc.push(stash_record(records.last(), acc.len()))
        }
    }
}

/// The entries of the `list_args` output, newest first.
pub open spec fn stash_list(out: Seq<char>) -> Seq<StashView> {
    stash_fold(split(out, '\0'))
}

fn parse_ref_index(r: &Vec<char>) -> (n: Option<usize>)
    ensures
        match n {
            Some(k) => ref_index(r@) == Some(k as nat),
            None => ref_index(r@) is None,
        },
{
    let rest = match strip_prefix(r, "stash@{") {
        Some(rest) => rest,
        None => return None,
    };
    if !has_suffix(&rest, "}") {
        return None;
    }
    proof {
        reveal_strlit("}");
    }
    let num = slice_vec(&rest, 0, rest.len() - 1);
    proof {
        assert(num@ =~= rest@.take(rest@.len() - ("}"@).len()));
    }
    match parse_unsigned_vec(&num, usize::MAX as u64) {
        Some(k) => Some(k as usize),
        None => None,
    }
}

fn parse_stash_record(record: &Vec<char>, position: usize) -> (e: StashEntry)
    ensures
        e@ == stash_record(record@, position as nat),
{
    let parts = splitn_chars(record, 2, '\u{1}');
    let ref_v = trim_vec(&piece_of(&parts, 0));
    let message = string_from(&trim_end_vec(&piece_of(&parts, 1)));
    let index = match parse_ref_index(&ref_v) {
        Some(n) => n,
        None => position,
    };
    StashEntry { index, message, ref_name: string_from(&ref_v) }
}

/// Parses the stash list (`list_args` output), newest first.
pub fn list(out: &str) -> (entries: Vec<StashEntry>)
    ensures
        stash_views(entries@) == stash_list(out@),
{
    let records = split_chars(&chars_of(out), '\0');
    let mut entries: Vec<StashEntry> = Vec::new();
    let mut i: usize = 0;
    proof {
        assert(stash_views(entries@) =~= Seq::<StashView>::empty());
    }
    while i < records.len()
        invariant
            i <= records.len(),
            views(records@) == split(out@, '\0'),
            stash_views(entries@) == stash_fold(views(records@).take(i as int)),
        decreases records.len() - i,
    {
        proof {
            assert(views(records@).take(i + 1).drop_last() =~= views(records@).take(i as int));
            assert(views(records@)[i as int] == records@[i as int]@);
        }
        if records[i].len() > 0 {
            let ghost before = stash_views(entries@);
            let e = parse_stash_record(&records[i], entries.len());
            entries.push(e);
            proof {
                assert(stash_views(entries@) =~= before.push(e@));
            }
        }
        i += 1;
    }
    proof {
        assert(views(records@).take(records.len() as int) =~= views(records@));
    }
    entries
}

/// Argv stashing all working-copy changes, tracked and untracked.
pub fn push(message: Option<&str>) -> (args: Vec<String>)
    ensures
        arg_views(args@) == seq!["stash"@, "push"@, "-q"@, "--include-untracked"@] + match message {
            Some(m) => seq!["-m"@, m@],
            None => seq![],
        },
{
    let mut args = args_of(&["stash", "push", "-q", "--include-untracked"]);
    let ghost a0 = arg_views(args@);
    match message {
        Some(m) => {
            args.push(String::from_str("-m"));
            args.push(String::from_str(m));
            proof {
                assert(arg_views(args@) =~= a0 + seq!["-m"@, m@]);
            }
        },
        None => {
            proof {
                assert(arg_views(args@) =~= a0 + Seq::<Seq<char>>::empty());
            }
        },
    }
    args
}

/// The `stash@{N}` ref of entry `N`.
pub open spec fn stash_ref(index: usize) -> Seq<char> {
    "stash@{"@ + decimal(index as nat) + "}"@
}

fn stash_ref_of(index: usize) -> (r: String)
    ensures
        r@ == stash_ref(index),
{
    let mut r = String::from_str("stash@{");
    r.append(u64_to_string(index as u64).as_str());
    r.append("}");
    r
}

fn entry_args(verb: &str, index: usize) -> (args: Vec<String>)
    ensures
        arg_views(args@) == seq!["stash"@, verb@, "-q"@, stash_ref(index)],
{
    let mut args = args_of(&["stash"]);
    let ghost a0 = arg_views(args@);
    args.push(String::from_str(verb));
    args.push(String::from_str("-q"));
    args.push(stash_ref_of(index));
    proof {
        assert(arg_views(args@) =~= a0 + seq![verb@, "-q"@, stash_ref(index)]);
    }
    args
}

/// Argv applying the most recent stash without dropping it.
pub fn apply() -> (args: Vec<String>)
    ensures
        arg_views(args@) == seq!["stash"@, "apply"@, "-q"@],
{
    args_of(&["stash", "apply", "-q"])
}

/// Argv applying entry `index` without dropping it.
pub fn apply_at(index: usize) -> (args: Vec<String>)
    ensures
        arg_views(args@) == seq!["stash"@, "apply"@, "-q"@, stash_ref(index)],
{
    entry_args("apply", index)
}

/// Argv applying and dropping the most recent stash.
pub fn pop() -> (args: Vec<String>)
    ensures
        arg_views(args@) == seq!["stash"@, "pop"@, "-q"@],
{
    args_of(&["stash", "pop", "-q"])
}

/// Argv applying and dropping entry `index`.
pub fn pop_at(index: usize) -> (args: Vec<String>)
    ensures
        arg_views(args@) == seq!["stash"@, "pop"@, "-q"@, stash_ref(index)],
{
    entry_args("pop", index)
}

/// Argv dropping entry `index`.
pub fn drop(index: usize) -> (args: Vec<String>)
    ensures
        arg_views(args@) == seq!["stash"@, "drop"@, "-q"@, stash_ref(index)],
{
    entry_args("drop", index)
}

/// The ref that addresses entry `i` (in `apply_at`, `pop_at`, `drop`)
/// reads back as index `i` when the list is parsed.
pub proof fn stash_ref_reads_back(i: usize)
    ensures
        ref_index(stash_ref(i)) == Some(i as nat),
{
    reveal_strlit("stash@{");
    reveal_strlit("}");
    crate::text::decimal_reads_back(i as nat);
    let d = decimal(i as nat);
    let r = stash_ref(i);
    assert(r.take(7) =~= "stash@{"@);
    let rest = r.skip(7);
    assert(rest =~= d + "}"@);
    assert(rest.skip(rest.len() - 1) =~= "}"@);
    assert(rest.take(rest.len() - 1) =~= d);
}

} // verus!

//! Working-copy mutations. Every path argument is a `:(literal)`
//! pathspec, so it can never be glob-interpreted or option-parsed, and
//! long path lists are batched into invocations bounded by both count
//! and length.

use crate::engine::diff::{
    append_bytes, ascii_bytes, byte_lines, byte_prefix, lemma_byte_lines_step, line_end,
    starts_with_bytes,
};
use crate::engine::{arg_views, args_of, literal, literal_magic, str_views, GitError};
use crate::text::{chars_of, starts_with, words, words_of};
use vstd::prelude::*;
use vstd::utf8::encode_utf8;

verus! {

/// The most paths one invocation receives.
pub const MAX_PATHS_PER_INVOCATION: usize = 200;

/// The most argument bytes (wrapper included) one invocation receives,
/// unless a single path is longer on its own.
pub const MAX_CHUNK_BYTES: usize = 16384;

/// The bytes a path costs in an invocation: its UTF-8 length plus the
/// `:(literal)` wrapper and a separator.
pub open spec fn path_cost(p: Seq<char>) -> nat {
    encode_utf8(p).len() + 11
}

pub open spec fn cost_sum(ps: Seq<Seq<char>>) -> nat
    decreases ps.len(),
{
    if ps.len() == 0 {
        0
    } else {
        cost_sum(ps.drop_last()) + path_cost(ps.last())
    }
}

/// Finished chunks, the chunk being filled, and its cost.
pub type ChunkState = (Seq<Seq<Seq<char>>>, Seq<Seq<char>>, nat);

/// A path closes the current chunk when it is full by count or the path
/// would push it past the byte budget; an empty chunk always takes it.
pub open spec fn chunk_step(st: ChunkState, p: Seq<char>) -> ChunkState {
    let (done, chunk, bytes) = st;
    if chunk.len() > 0 && (chunk.len() >= MAX_PATHS_PER_INVOCATION || bytes + path_cost(p)
        > MAX_CHUNK_BYTES) {
        (done.push(chunk), seq![p], path_cost(p))
    } else {
        (done, chunk.push(p), bytes + path_cost(p))
    }
}

pub open spec fn chunk_fold(ps: Seq<Seq<char>>) -> ChunkState
    decreases ps.len(),
{
    if ps.len() == 0 {
        (seq![], seq![], 0)
    } else {
        chunk_step(chunk_fold(ps.drop_last()), ps.last())
    }
}

/// The invocation batches of a path list, in order.
pub open spec fn chunks_of(ps: Seq<Seq<char>>) -> Seq<Seq<Seq<char>>> {
    let (done, chunk, _) = chunk_fold(ps);
    if chunk.len() > 0 {
        done.push(chunk)
    } else {
        done
    }
}

pub open spec fn joined(cs: Seq<Seq<Seq<char>>>) -> Seq<Seq<char>>
    decreases cs.len(),
{
    if cs.len() == 0 {
        seq![]
    } else {
        joined(cs.drop_last()) + cs.last()
    }
}

/// A batch is non-empty, holds at most the count limit, and keeps to the
/// byte budget unless it is one over-long path.
pub open spec fn good_chunk(c: Seq<Seq<char>>) -> bool {
    &&& 0 < c.len() <= MAX_PATHS_PER_INVOCATION
    &&& cost_sum(c) <= MAX_CHUNK_BYTES || c.len() == 1
}

pub open spec fn fold_ok(ps: Seq<Seq<char>>) -> bool {
    let (done, chunk, bytes) = chunk_fold(ps);
    &&& joined(done) + chunk == ps
    &&& forall|i: int| 0 <= i < done.len() ==> good_chunk(#[trigger] done[i])
    &&& chunk.len() <= MAX_PATHS_PER_INVOCATION
    &&& bytes == cost_sum(chunk)
    &&& bytes <= MAX_CHUNK_BYTES || chunk.len() == 1
    &&& ps.len() > 0 ==> chunk.len() > 0
}

proof fn lemma_chunk_fold(ps: Seq<Seq<char>>)
    ensures
        fold_ok(ps),
    decreases ps.len(),
{
    if ps.len() == 0 {
        assert(joined(Seq::<Seq<Seq<char>>>::empty()) + Seq::<Seq<char>>::empty() =~= ps);
    } else {
        let prev = ps.drop_last();
        lemma_chunk_fold(prev);
        let (done, chunk, bytes) = chunk_fold(prev);
        let p = ps.last();
        let (d2, c2, b2) = chunk_fold(ps);
        assert(chunk_fold(ps) == chunk_step(chunk_fold(prev), p));
        if chunk.len() > 0 && (chunk.len() >= MAX_PATHS_PER_INVOCATION || bytes + path_cost(p)
            > MAX_CHUNK_BYTES) {
            assert(d2.drop_last() =~= done);
            assert(joined(d2) == joined(done) + chunk);
            assert(joined(d2) + c2 =~= (joined(done) + chunk).push(p));
            assert(prev.push(p) =~= ps);
            assert(seq![p].drop_last() =~= Seq::<Seq<char>>::empty());
            assert(cost_sum(Seq::<Seq<char>>::empty()) == 0);
            assert(seq![p].last() == p);
            assert(cost_sum(seq![p]) == path_cost(p));
            assert(good_chunk(chunk));
            assert forall|i: int| 0 <= i < d2.len() implies good_chunk(#[trigger] d2[i]) by {
                if i < done.len() {
                    assert(d2[i] == done[i]);
                }
            }
        } else {
            assert(c2.drop_last() =~= chunk);
            assert(c2.last() == p);
            assert(cost_sum(c2) == cost_sum(chunk) + path_cost(p));
            assert(joined(done) + c2 =~= (joined(done) + chunk).push(p));
            assert(prev.push(p) =~= ps);
        }
    }
}

/// Batching keeps every path, in order, and every batch within the
/// limits: the batches concatenate back to the path list, and each is
/// non-empty, holds at most `MAX_PATHS_PER_INVOCATION` paths, and costs
/// at most `MAX_CHUNK_BYTES` unless it is a single over-long path.
pub proof fn chunks_keep_every_path(ps: Seq<Seq<char>>)
    ensures
        joined(chunks_of(ps)) == ps,
        forall|i: int| 0 <= i < chunks_of(ps).len() ==> good_chunk(#[trigger] chunks_of(ps)[i]),
{
    lemma_chunk_fold(ps);
    let (done, chunk, bytes) = chunk_fold(ps);
    if chunk.len() > 0 {
        let cs = done.push(chunk);
        assert(cs.drop_last() =~= done);
        assert forall|i: int| 0 <= i < cs.len() implies good_chunk(#[trigger] cs[i]) by {
            if i < done.len() {
                assert(cs[i] == done[i]);
            }
        }
    } else {
        assert(joined(done) + chunk =~= joined(done));
    }
}

pub open spec fn chunk_views(v: Seq<Vec<String>>) -> Seq<Seq<Seq<char>>> {
    v.map_values(|c: Vec<String>| arg_views(c@))
}

/// Batches the paths (see `chunks_of`).
pub fn chunks(rel_paths: &Vec<String>) -> (cs: Vec<Vec<String>>)
    requires
        forall|i: int| 0 <= i < rel_paths@.len() ==> path_cost(#[trigger] rel_paths@[i]@) <= usize::MAX,
    ensures
        chunk_views(cs@) == chunks_of(arg_views(rel_paths@)),
{
    let ghost ps = arg_views(rel_paths@);
    let mut done: Vec<Vec<String>> = Vec::new();
    let mut chunk: Vec<String> = Vec::new();
    let mut bytes: usize = 0;
    let mut i: usize = 0;
    proof {
        assert(ps.take(0) =~= Seq::<Seq<char>>::empty());
        assert(chunk_views(done@) =~= Seq::<Seq<Seq<char>>>::empty());
        assert(arg_views(chunk@) =~= Seq::<Seq<char>>::empty());
    }
    while i < rel_paths.len()
        invariant
            i <= rel_paths.len(),
            ps == arg_views(rel_paths@),
            forall|j: int| 0 <= j < rel_paths@.len() ==> path_cost(#[trigger] rel_paths@[j]@) <= usize::MAX,
            chunk_fold(ps.take(i as int)) == (chunk_views(done@), arg_views(chunk@), bytes as nat),
            fold_ok(ps.take(i as int)),
        decreases rel_paths.len() - i,
    {
        proof {
            assert(ps.take(i + 1).drop_last() =~= ps.take(i as int));
            assert(ps[i as int] == rel_paths@[i as int]@);
            lemma_chunk_fold(ps.take(i + 1));
        }
        let p = rel_paths[i].clone();
        let cost = p.as_str().len() + 11;
        let over = cost > MAX_CHUNK_BYTES || bytes > MAX_CHUNK_BYTES - cost;
        if chunk.len() > 0 && (chunk.len() >= MAX_PATHS_PER_INVOCATION || over) {
            let ghost d0 = chunk_views(done@);
            let ghost c0 = arg_views(chunk@);
            let full = chunk;
            done.push(full);
            chunk = Vec::new();
            chunk.push(p);
            bytes = cost;
            proof {
                assert(chunk_views(done@) =~= d0.push(c0));
                assert(arg_views(chunk@) =~= seq![ps[i as int]]);
            }
        } else {
            let ghost c0 = arg_views(chunk@);
            chunk.push(p);
            bytes = bytes + cost;
            proof {
                assert(arg_views(chunk@) =~= c0.push(ps[i as int]));
            }
        }
        i += 1;
    }
    proof {
        assert(ps.take(rel_paths.len() as int) =~= ps);
    }
    if chunk.len() > 0 {
        let ghost d0 = chunk_views(done@);
        let ghost c0 = arg_views(chunk@);
        done.push(chunk);
        proof {
            assert(chunk_views(done@) =~= d0.push(c0));
        }
    }
    done
}

/// A command prefix, `--`, then each path as a `:(literal)` pathspec.
pub open spec fn literal_command(prefix: Seq<Seq<char>>, paths: Seq<Seq<char>>) -> Seq<Seq<char>> {
    prefix + seq!["--"@] + paths.map_values(|p: Seq<char>| literal_magic() + p)
}

/// Builds `literal_command`.
pub fn literal_args(prefix: &[&str], rel_paths: &Vec<String>) -> (args: Vec<String>)
    ensures
        arg_views(args@) == literal_command(str_views(prefix@), arg_views(rel_paths@)),
{
    let mut args = args_of(prefix);
    args.push(String::from_str("--"));
    let ghost a0 = arg_views(args@);
    let mut i: usize = 0;
    proof {
        assert(a0 =~= str_views(prefix@) + seq!["--"@]);
    }
    while i < rel_paths.len()
        invariant
            i <= rel_paths.len(),
            a0 == str_views(prefix@) + seq!["--"@],
            arg_views(args@) == a0 + arg_views(rel_paths@).take(i as int).map_values(
                |p: Seq<char>| literal_magic() + p,
            ),
        decreases rel_paths.len() - i,
    {
        let ghost before = arg_views(args@);
        let l = literal(rel_paths[i].as_str());
        args.push(l);
        proof {
            assert(arg_views(rel_paths@)[i as int] == rel_paths@[i as int]@);
            assert(arg_views(args@) =~= before.push(l@));
            assert(arg_views(rel_paths@).take(i + 1).map_values(|p: Seq<char>| literal_magic() + p)
                =~= arg_views(rel_paths@).take(i as int).map_values(
                |p: Seq<char>| literal_magic() + p,
            ).push(literal_magic() + arg_views(rel_paths@)[i as int]));
        }
        i += 1;
    }
    proof {
        assert(arg_views(rel_paths@).take(rel_paths.len() as int) =~= arg_views(rel_paths@));
    }
    args
}

fn batched(prefix: &[&str], rel_paths: &Vec<String>) -> (cmds: Vec<Vec<String>>)
    requires
        forall|i: int| 0 <= i < rel_paths@.len() ==> path_cost(#[trigger] rel_paths@[i]@) <= usize::MAX,
    ensures
        cmds@.len() == chunks_of(arg_views(rel_paths@)).len(),
        forall|i: int|
            0 <= i < cmds@.len() ==> arg_views((#[trigger] cmds@[i])@) == literal_command(
                str_views(prefix@),
                chunks_of(arg_views(rel_paths@))[i],
            ),
{
    let cs = chunks(rel_paths);
    let mut cmds: Vec<Vec<String>> = Vec::new();
    let mut i: usize = 0;
    while i < cs.len()
        invariant
            i <= cs.len(),
            chunk_views(cs@) == chunks_of(arg_views(rel_paths@)),
            cmds@.len() == i,
            forall|j: int|
                0 <= j < i ==> arg_views((#[trigger] cmds@[j])@) == literal_command(
                    str_views(prefix@),
                    chunks_of(arg_views(rel_paths@))[j],
                ),
        decreases cs.len() - i,
    {
        proof {
            assert(chunk_views(cs@)[i as int] == arg_views(cs@[i as int]@));
        }
        cmds.push(literal_args(prefix, &cs[i]));
        i += 1;
    }
    cmds
}

/// The `git add -- <paths>` invocations, batched and run in order; also
/// how a conflict is marked resolved. No invocation for no paths.
pub fn stage(rel_paths: &Vec<String>) -> (cmds: Vec<Vec<String>>)
    requires
        forall|i: int| 0 <= i < rel_paths@.len() ==> path_cost(#[trigger] rel_paths@[i]@) <= usize::MAX,
    ensures
        cmds@.len() == chunks_of(arg_views(rel_paths@)).len(),
        rel_paths@.len() == 0 ==> cmds@.len() == 0,
        forall|i: int|
            0 <= i < cmds@.len() ==> arg_views((#[trigger] cmds@[i])@) == literal_command(
                seq!["add"@],
                chunks_of(arg_views(rel_paths@))[i],
            ),
{
    if rel_paths.len() == 0 {
        proof {
            assert(arg_views(rel_paths@) =~= Seq::<Seq<char>>::empty());
        }
        return Vec::new();
    }
    let cmds = batched(&["add"], rel_paths);
    proof {
        assert(str_views(seq!["add"]) =~= seq!["add"@]);
    }
    cmds
}

/// The prefix that unstages: `reset -q HEAD`, or on an unborn HEAD (no
/// commits yet, nothing for `reset HEAD` to point at) `rm --cached -q
/// --force`, which drops the paths back to untracked and never touches
/// the worktree file.
pub open spec fn unstage_prefix(head_exists: bool) -> Seq<Seq<char>> {
    if head_exists {
        seq!["reset"@, "-q"@, "HEAD"@]
    } else {
        seq!["rm"@, "--cached"@, "-q"@, "--force"@]
    }
}

/// The invocations unstaging the paths, batched, given whether HEAD
/// exists (`history::head_probe`).
pub fn unstage(rel_paths: &Vec<String>, head_exists: bool) -> (cmds: Vec<Vec<String>>)
    requires
        forall|i: int| 0 <= i < rel_paths@.len() ==> path_cost(#[trigger] rel_paths@[i]@) <= usize::MAX,
    ensures
        cmds@.len() == chunks_of(arg_views(rel_paths@)).len(),
        rel_paths@.len() == 0 ==> cmds@.len() == 0,
        forall|i: int|
            0 <= i < cmds@.len() ==> arg_views((#[trigger] cmds@[i])@) == literal_command(
                unstage_prefix(head_exists),
                chunks_of(arg_views(rel_paths@))[i],
            ),
{
    if rel_paths.len() == 0 {
        proof {
            assert(arg_views(rel_paths@) =~= Seq::<Seq<char>>::empty());
        }
        return Vec::new();
    }
    if head_exists {
        let cmds = batched(&["reset", "-q", "HEAD"], rel_paths);
        proof {
            assert(str_views(seq!["reset", "-q", "HEAD"]) =~= unstage_prefix(head_exists));
        }
        cmds
    } else {
        let cmds = batched(&["rm", "--cached", "-q", "--force"], rel_paths);
        proof {
            assert(str_views(seq!["rm", "--cached", "-q", "--force"]) =~= unstage_prefix(
                head_exists,
            ));
        }
        cmds
    }
}

/// Argv restoring the worktree file from the index: only the unstaged
/// delta is discarded, staged changes survive.
pub fn discard_unstaged(rel_path: &str) -> (args: Vec<String>)
    ensures
        arg_views(args@) == seq!["checkout"@, "-q"@, "--"@, literal_magic() + rel_path@],
{
    let mut args = args_of(&["checkout", "-q", "--"]);
    let ghost a0 = arg_views(args@);
    args.push(literal(rel_path));
    proof {
        assert(arg_views(args@) =~= a0.push(literal_magic() + rel_path@));
    }
    args
}

// ---------------------------------------------------------------------
// Hunk staging
// ---------------------------------------------------------------------

pub open spec fn ascii(s: Seq<char>) -> Seq<u8> {
    s.map_values(|c: char| c as u8)
}

/// A header line that survives into a content patch: not a mode line.
pub open spec fn keeps_line(line: Seq<u8>) -> bool {
    !byte_prefix(line, ascii("old mode "@)) && !byte_prefix(line, ascii("new mode "@))
}

pub open spec fn kept(ls: Seq<Seq<u8>>) -> Seq<u8>
    decreases ls.len(),
{
    if ls.len() == 0 {
        seq![]
    } else {
        kept(ls.drop_last()) + if keeps_line(ls.last()) {
            ls.last()
        } else {
            seq![]
        }
    }
}

/// The patch staging one content hunk: the diff header without its
/// `old mode`/`new mode` lines (so staging content never flips the
/// index entry's mode), then the hunk's exact bytes.
pub open spec fn content_patch_of(header_raw: Seq<u8>, hunk_raw: Seq<u8>) -> Seq<u8> {
    kept(byte_lines(header_raw)) + hunk_raw
}

/// Builds `content_patch_of`.
#[verifier::spinoff_prover]
#[verifier::rlimit(30)]
pub fn content_patch(header_raw: &[u8], hunk_raw: &[u8]) -> (patch: Vec<u8>)
    ensures
        patch@ == content_patch_of(header_raw@, hunk_raw@),
{
    let old_mode = ascii_bytes("old mode ");
    let new_mode = ascii_bytes("new mode ");
    let mut patch: Vec<u8> = Vec::new();
    let mut pos: usize = 0;
    let ghost mut done: Seq<Seq<u8>> = seq![];
    proof {
        assert(header_raw@.skip(0) =~= header_raw@);
    }
    while pos < header_raw.len()
        invariant
            pos <= header_raw@.len(),
            old_mode@ == ascii("old mode "@),
            new_mode@ == ascii("new mode "@),
            done + byte_lines(header_raw@.skip(pos as int)) == byte_lines(header_raw@),
            patch@ == kept(done),
        decreases header_raw@.len() - pos,
    {
        let e = line_end(header_raw, pos);
        let ghost line = header_raw@.subrange(pos as int, e as int);
        proof {
            lemma_byte_lines_step(header_raw@, pos as int, e as int);
            assert(done.push(line).drop_last() =~= done);
            assert(done.push(line) + byte_lines(header_raw@.skip(e as int)) =~= done + (seq![line]
                + byte_lines(header_raw@.skip(e as int))));
        }
        let skip = starts_with_bytes(header_raw, pos, e, old_mode.as_slice())
            || starts_with_bytes(header_raw, pos, e, new_mode.as_slice());
        proof {
            assert(skip == !keeps_line(line));
            assert(done.push(line).last() == line);
            assert(kept(done.push(line)) == kept(done) + if keeps_line(line) {
                line
            } else {
                Seq::<u8>::empty()
            });
        }
        if !skip {
            append_bytes(&mut patch, header_raw, pos, e);
        } else {
            proof {
                assert(patch@ =~= patch@ + Seq::<u8>::empty());
            }
        }
        proof {
            done = done.push(line);
        }
        pos = e;
    }
    proof {
        assert(header_raw@.skip(header_raw@.len() as int) =~= Seq::<u8>::empty());
        assert(done + Seq::<Seq<u8>>::empty() =~= done);
    }
    append_bytes(&mut patch, hunk_raw, 0, hunk_raw.len());
    proof {
        assert(hunk_raw@.subrange(0, hunk_raw@.len() as int) =~= hunk_raw@);
    }
    patch
}

/// Why an apply refused. The pre-image refusal is distinct: its remedy
/// is a refresh, not staging the whole file.
#[derive(Debug)]
pub enum ApplyError {
    /// The index's staged blob no longer matches the diff's pre-image —
    /// the file changed since the diff was generated.
    StaleIndex,
    /// `git apply` itself failed (rejected hunk, lock contention, …).
    Git(GitError),
}

pub open spec fn stale_index_message() -> Seq<char> {
    "the file's staged state changed since this diff was loaded — press r and try again"@
}

impl ApplyError {
    /// The text shown for the refusal.
    pub fn message(&self) -> (m: String)
        ensures
            m@ == match self {
                ApplyError::StaleIndex => stale_index_message(),
                ApplyError::Git(e) => e.message@,
            },
    {
        match self {
            ApplyError::StaleIndex => String::from_str(
                "the file's staged state changed since this diff was loaded — press r and try again",
            ),
            ApplyError::Git(e) => e.message.clone(),
        }
    }
}

/// Argv reading the index entry of one path (`<mode> <blob> <stage>\t<path>`).
pub fn index_entry_args(rel_path: &str) -> (args: Vec<String>)
    ensures
        arg_views(args@) == seq!["ls-files"@, "-s"@, "--"@, literal_magic() + rel_path@],
{
    let mut args = args_of(&["ls-files", "-s", "--"]);
    let ghost a0 = arg_views(args@);
    args.push(literal(rel_path));
    proof {
        assert(arg_views(args@) =~= a0.push(literal_magic() + rel_path@));
    }
    args
}

/// The staged blob of an index entry: its second whitespace-separated
/// field, empty when missing.
pub open spec fn index_blob(entry: Seq<char>) -> Seq<char> {
    if words(entry).len() > 1 {
        words(entry)[1]
    } else {
        seq![]
    }
}

/// Argv applying a patch (on stdin) to the index only; the worktree is
/// never touched.
pub open spec fn apply_args() -> Seq<Seq<char>> {
    seq!["apply"@, "--cached"@, "--whitespace=nowarn"@]
}

/// Applies a content patch to the index, given the diff header's
/// abbreviated pre-image blob (when the caller checks it) and the index
/// entry read by `index_entry_args`: a staged blob that does not start
/// with the expected pre-image is refused as stale — a pure insertion
/// has no removal pre-image for `git apply` to catch, and would be
/// duplicated. Otherwise the argv of the apply.
pub fn apply_cached(expects_index_blob: Option<&str>, index_entry: &str) -> (r: Result<
    Vec<String>,
    ApplyError,
>)
    ensures
        match expects_index_blob {
            Some(x) => r is Err <==> !starts_with(index_blob(index_entry@), x@),
            None => r is Ok,
        },
        r matches Err(e) ==> e is StaleIndex,
        r matches Ok(args) ==> arg_views(args@) == apply_args(),
{
    match expects_index_blob {
        Some(expected) => {
            let ws = words_of(&chars_of(index_entry));
            let blob = if ws.len() > 1 {
                proof {
                    assert(ws@.map_values(|x: String| x@)[1] == ws@[1]@);
                }
                chars_of(ws[1].as_str())
            } else {
                Vec::new()
            };
            if !crate::text::has_prefix(&blob, expected) {
                return Err(ApplyError::StaleIndex);
            }
        },
        None => {},
    }
    Ok(args_of(&["apply", "--cached", "--whitespace=nowarn"]))
}

} // verus!

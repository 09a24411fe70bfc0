//! Commit authoring through the user's editor — git's own COMMIT_EDITMSG
//! flow. The editor is resolved as git does ($GIT_EDITOR, core.editor,
//! $VISUAL, $EDITOR, the platform default) and whitespace-split; the
//! message file is substituted for the first `%s` or appended. These are
//! the decisions of the flow; running the editor, the temp files and git
//! are the caller's part.

use crate::engine::{arg_views, args_of, join_strings, GitError};
use crate::text::{
    chars_of, find_sub, first_occurrence, join, lines, lines_of, opt_text, push_char,
    starts_with, string_from, trim, trim_start, trim_vec, views, words, words_of,
};
use vstd::prelude::*;

verus! {

/// Argv reading one git config value.
pub fn config_args(key: &str) -> (args: Vec<String>)
    ensures
        arg_views(args@) == seq!["config"@, "--get"@, key@],
{
    let mut args = args_of(&["config", "--get"]);
    let ghost a0 = arg_views(args@);
    args.push(String::from_str(key));
    proof {
        assert(arg_views(args@) =~= a0.push(key@));
    }
    args
}

/// A config value, or `(unset)` when reading it failed.
pub open spec fn or_unset(v: Option<Seq<char>>) -> Seq<char> {
    match v {
        Some(s) => s,
        None => "(unset)"@,
    }
}

/// The commit author as (name, email), given what `git config
/// user.name` / `user.email` printed (`None` when the read failed).
pub fn author(name: Option<&str>, email: Option<&str>) -> (r: (String, String))
    ensures
        r.0@ == or_unset(opt_text(name)),
        r.1@ == or_unset(opt_text(email)),
{
    let n = match name {
        Some(s) => String::from_str(s),
        None => String::from_str("(unset)"),
    };
    let e = match email {
        Some(s) => String::from_str(s),
        None => String::from_str("(unset)"),
    };
    (n, e)
}

/// The comment character: `core.commentChar`'s first character, `#`
/// when unset, empty, or `auto` (approximated with `#`).
pub open spec fn comment_char_of(config: Option<Seq<char>>) -> char {
    match config {
        Some(v) if trim(v) != "auto"@ && trim(v).len() > 0 => trim(v)[0],
        _ => '#',
    }
}

/// Reads the comment character from the config value.
pub fn comment_char(config: Option<&str>) -> (c: char)
    ensures
        c == comment_char_of(opt_text(config)),
{
    match config {
        Some(v) => {
            let t = trim_vec(&chars_of(v));
            if crate::text::eq_str(&t, "auto") || t.len() == 0 {
                '#'
            } else {
                t[0]
            }
        },
        None => '#',
    }
}

/// The system the editor runs on, as far as the fallback editor goes.
#[derive(Clone, Copy, Debug, PartialEq, Eq, Structural)]
pub enum EditorOs {
    Windows,
    /// FreeBSD's base system ships `ee`, not vim.
    FreeBsd,
    Other,
}

/// The editor used when nothing is configured.
pub open spec fn default_editor(os: EditorOs) -> Seq<char> {
    match os {
        EditorOs::Windows => "notepad"@,
        EditorOs::FreeBsd => "ee"@,
        EditorOs::Other => "vim"@,
    }
}

/// The editor used when nothing is configured.
pub fn platform_default_editor(os: EditorOs) -> (e: &'static str)
    ensures
        e@ == default_editor(os),
{
    match os {
        EditorOs::Windows => "notepad",
        EditorOs::FreeBsd => "ee",
        EditorOs::Other => "vim",
    }
}

/// A value names an editor when it holds something besides white space.
pub open spec fn usable(v: Option<Seq<char>>) -> bool {
    v is Some && trim(v->0).len() > 0
}

/// The editor command and whether it is the platform default: the first
/// usable of `$GIT_EDITOR`, `core.editor`, `$VISUAL`, `$EDITOR`, split on
/// white space; the default otherwise. The argv is never empty.
pub open spec fn editor_of(
    os: EditorOs,
    git_config_value: Option<Seq<char>>,
    git_editor: Option<Seq<char>>,
    visual: Option<Seq<char>>,
    editor: Option<Seq<char>>,
) -> (Seq<Seq<char>>, bool) {
    if usable(git_editor) {
        (words(git_editor->0), false)
    } else if usable(git_config_value) {
        (words(git_config_value->0), false)
    } else if usable(visual) {
        (words(visual->0), false)
    } else if usable(editor) {
        (words(editor->0), false)
    } else {
        (words(default_editor(os)), true)
    }
}

fn usable_text(v: Option<&str>) -> (b: bool)
    ensures
        b == usable(opt_text(v)),
{
    match v {
        Some(s) => trim_vec(&chars_of(s)).len() > 0,
        None => false,
    }
}

/// Resolves the editor from the `core.editor` value and the
/// `GIT_EDITOR`, `VISUAL` and `EDITOR` environment values, falling back
/// to the system's default editor.
pub fn resolve_editor(
    os: EditorOs,
    git_config_value: Option<&str>,
    git_editor: Option<&str>,
    visual: Option<&str>,
    editor: Option<&str>,
) -> (r: (Vec<String>, bool))
    ensures
        (arg_views(r.0@), r.1) == editor_of(
            os,
            opt_text(git_config_value),
            opt_text(git_editor),
            opt_text(visual),
            opt_text(editor),
        ),
{
    let (source, used_default): (&str, bool) = if usable_text(git_editor) {
        (git_editor.unwrap(), false)
    } else if usable_text(git_config_value) {
        (git_config_value.unwrap(), false)
    } else if usable_text(visual) {
        (visual.unwrap(), false)
    } else if usable_text(editor) {
        (editor.unwrap(), false)
    } else {
        (platform_default_editor(os), true)
    };
    let argv = words_of(&chars_of(source));
    (argv, used_default)
}

pub open spec fn no_terminal_message(editor0: Seq<char>) -> Seq<char> {
    "no terminal available for the default editor '"@ + editor0
        + "' — set $GIT_EDITOR or run: git config --global core.editor <editor>"@
}

/// Launched without a terminal, the unix default editor cannot run: the
/// default (and only the default — a configured editor is the user's
/// choice) is refused then.
pub fn check_terminal(argv: &Vec<String>, used_default: bool, stdin_is_terminal: bool) -> (r:
    Result<(), GitError>)
    requires
        argv@.len() > 0,
    ensures
        r is Err <==> used_default && !stdin_is_terminal,
        r matches Err(e) ==> e.message@ == no_terminal_message(argv@[0]@),
{
    if used_default && !stdin_is_terminal {
        let mut message = String::from_str("no terminal available for the default editor '");
        message.append(argv[0].as_str());
        message.append(
            "' — set $GIT_EDITOR or run: git config --global core.editor <editor>",
        );
        return Err(GitError { message });
    }
    Ok(())
}

/// The message template: a blank first line, then commented guidance
/// and the staged summary.
pub open spec fn template_of(c: char, staged_summary: Seq<char>) -> Seq<char> {
    "\n"@ + seq![c] + " Please enter the commit message for your changes. Lines starting\n"@
        + seq![c] + " with '"@ + seq![c]
        + "' are ignored, and an empty message aborts the commit.\n"@ + seq![c] + "\n"@
        + seq![c] + " "@ + staged_summary + "\n"@
}

/// Builds `template_of`.
pub fn template(comment_char: char, staged_summary: &str) -> (t: String)
    ensures
        t@ == template_of(comment_char, staged_summary@),
{
    let mut t = String::from_str("\n");
    push_char(&mut t, comment_char);
    t.append(" Please enter the commit message for your changes. Lines starting\n");
    push_char(&mut t, comment_char);
    t.append(" with '");
    push_char(&mut t, comment_char);
    t.append("' are ignored, and an empty message aborts the commit.\n");
    push_char(&mut t, comment_char);
    t.append("\n");
    push_char(&mut t, comment_char);
    t.append(" ");
    t.append(staged_summary);
    t.append("\n");
    proof {
        assert(t@ =~= template_of(comment_char, staged_summary@));
    }
    t
}

/// The lines that are not comments.
pub open spec fn uncommented(ls: Seq<Seq<char>>, c: char) -> Seq<Seq<char>>
    decreases ls.len(),
{
    if ls.len() == 0 {
        seq![]
    } else if starts_with(ls.last(), seq![c]) {
        uncommented(ls.drop_last(), c)
    } else {
        uncommented(ls.drop_last(), c).push(ls.last())
    }
}

/// The message: comment lines dropped, the rest joined with newlines and
/// trimmed. Empty means the user aborted.
pub open spec fn stripped(c: char, raw: Seq<char>) -> Seq<char> {
    trim(join(uncommented(lines(raw), c), "\n"@))
}

proof fn lemma_uncommented_filters(ls: Seq<Seq<char>>, c: char)
    ensures
        uncommented(ls, c) == ls.filter(|l: Seq<char>| !starts_with(l, seq![c])),
    decreases ls.len(),
{
    reveal(Seq::filter);
    if ls.len() > 0 {
        lemma_uncommented_filters(ls.drop_last(), c);
    }
}

/// A line is a comment exactly when it starts with the comment character:
/// the message keeps every other line, in order, whatever else it holds
/// (the comment character elsewhere in a line included).
pub proof fn comments_are_lines_starting_with_the_char(c: char, raw: Seq<char>)
    ensures
        stripped(c, raw) == trim(
            join(lines(raw).filter(|l: Seq<char>| !starts_with(l, seq![c])), "\n"@),
        ),
{
    lemma_uncommented_filters(lines(raw), c);
}

/// A text none of whose lines starts with the comment character is kept
/// whole: the message is the text with all its lines, trimmed.
pub proof fn lines_not_starting_with_comment_are_kept(c: char, raw: Seq<char>)
    requires
        forall|i: int| 0 <= i < lines(raw).len() ==> !starts_with(#[trigger] lines(raw)[i], seq![c]),
    ensures
        stripped(c, raw) == trim(join(lines(raw), "\n"@)),
{
    lemma_uncommented_keeps(lines(raw), c);
}

proof fn lemma_uncommented_keeps(ls: Seq<Seq<char>>, c: char)
    requires
        forall|i: int| 0 <= i < ls.len() ==> !starts_with(#[trigger] ls[i], seq![c]),
    ensures
        uncommented(ls, c) == ls,
    decreases ls.len(),
{
    if ls.len() > 0 {
        let d = ls.drop_last();
        assert forall|i: int| 0 <= i < d.len() implies !starts_with(#[trigger] d[i], seq![c]) by {
            assert(d[i] == ls[i]);
        }
        lemma_uncommented_keeps(d, c);
        assert(!starts_with(ls[ls.len() - 1], seq![c]));
        assert(d.push(ls.last()) =~= ls);
    }
}

/// Computes `stripped`.
pub fn strip_comments(comment_char: char, raw: &str) -> (m: String)
    ensures
        m@ == stripped(comment_char, raw@),
{
    let ls = lines_of(&chars_of(raw));
    let mut kept: Vec<Vec<char>> = Vec::new();
    let mut i: usize = 0;
    proof {
        assert(views(kept@) =~= Seq::<Seq<char>>::empty());
    }
    while i < ls.len()
        invariant
            i <= ls.len(),
            views(ls@) == lines(raw@),
            views(kept@) == uncommented(views(ls@).take(i as int), comment_char),
        decreases ls.len() - i,
    {
        proof {
            assert(views(ls@).take(i + 1).drop_last() =~= views(ls@).take(i as int));
            assert(views(ls@)[i as int] == ls@[i as int]@);
        }
        let commented = ls[i].len() > 0 && ls[i][0] == comment_char;
        proof {
            let l = ls@[i as int]@;
            assert(commented == starts_with(l, seq![comment_char])) by {
                if l.len() > 0 {
                    assert(l.take(1) =~= seq![l[0]]);
                    if l.take(1) == seq![comment_char] {
                        assert(seq![l[0]][0] == seq![comment_char][0]);
                    }
                }
            }
        }
        if !commented {
            let ghost before = views(kept@);
            kept.push(ls[i].clone());
            proof {
                assert(views(kept@) =~= before.push(ls@[i as int]@));
            }
        }
        i += 1;
    }
    proof {
        assert(views(ls@).take(ls.len() as int) =~= views(ls@));
    }
    let mut joined: Vec<char> = Vec::new();
    let mut k: usize = 0;
    let ghost kv = views(kept@);
    proof {
        assert(kv.take(0) =~= Seq::<Seq<char>>::empty());
    }
    while k < kept.len()
        invariant
            k <= kept.len(),
            kv == views(kept@),
            joined@ == join(kv.take(k as int), "\n"@),
        decreases kept.len() - k,
    {
        proof {
            reveal_strlit("\n");
            assert(kv[k as int] == kept@[k as int]@);
            assert(kv.take(k + 1).drop_last() =~= kv.take(k as int));
            assert(kv.take(k + 1).last() == kv[k as int]);
        }
        let ghost before = joined@;
        if k > 0 {
            joined.push('\n');
        }
        let mut j: usize = 0;
        let ghost mid = joined@;
        while j < kept[k].len()
            invariant
                k < kept.len(),
                j <= kept@[k as int]@.len(),
                joined@ == mid + kept@[k as int]@.take(j as int),
            decreases kept@[k as int]@.len() - j,
        {
            joined.push(kept[k][j]);
            j += 1;
            proof {
                assert(joined@ =~= mid + kept@[k as int]@.take(j as int));
            }
        }
        proof {
            assert(kept@[k as int]@.take(kept@[k as int]@.len() as int) =~= kept@[k as int]@);
            if k == 0 {
                assert(kv.take(1) =~= seq![kv[0]]);
                assert(joined@ =~= kv[0]);
            } else {
                assert(joined@ =~= before + "\n"@ + kv[k as int]);
            }
        }
        k += 1;
    }
    proof {
        assert(kv.take(kept.len() as int) =~= kv);
    }
    string_from(&trim_vec(&joined))
}

/// The editor's argv for a message file: the path replaces the first
/// `%s` of the first argument holding one (as git's editor.c does), or
/// is appended.
pub open spec fn spawn_argv_of(argv: Seq<Seq<char>>, msg_path: Seq<char>) -> Seq<Seq<char>> {
    if exists|i: int| 0 <= i < argv.len() && first_occurrence(argv[i], "%s"@) is Some {
        let i = choose|i: int|
            0 <= i < argv.len() && first_occurrence(argv[i], "%s"@) is Some && forall|j: int|
                0 <= j < i ==> first_occurrence(argv[j], "%s"@) is None;
        let a = argv[i];
        let k = first_occurrence(a, "%s"@)->0;
        argv.update(i, a.take(k) + msg_path + a.skip(k + 2))
    } else {
        argv.push(msg_path)
    }
}

/// Builds `spawn_argv_of`.
pub fn spawn_argv(argv: &Vec<String>, msg_path: &str) -> (r: Vec<String>)
    ensures
        arg_views(r@) == spawn_argv_of(arg_views(argv@), msg_path@),
{
    let ghost av = arg_views(argv@);
    let pat = chars_of("%s");
    proof {
        reveal_strlit("%s");
    }
    let mut out: Vec<String> = Vec::new();
    let mut substituted: Option<usize> = None;
    let mut i: usize = 0;
    while i < argv.len()
        invariant
            i <= argv.len(),
            av == arg_views(argv@),
            pat@ == "%s"@,
            pat@.len() == 2,
            out@.len() == i,
            substituted is None ==> forall|j: int|
                0 <= j < i ==> first_occurrence(#[trigger] av[j], "%s"@) is None,
            forall|j: int|
                0 <= j < i && substituted != Some(j as usize) ==> (#[trigger] out@[j])@ == av[j],
            substituted matches Some(s) ==> s < i && first_occurrence(av[s as int], "%s"@) is Some
                && (forall|j: int| 0 <= j < s ==> first_occurrence(#[trigger] av[j], "%s"@) is None)
                && out@[s as int]@ == ({
                let k = first_occurrence(av[s as int], "%s"@)->0;
                av[s as int].take(k) + msg_path@ + av[s as int].skip(k + 2)
            }),
        decreases argv.len() - i,
    {
        let a = chars_of(argv[i].as_str());
        proof {
            assert(av[i as int] == argv@[i as int]@);
        }
        let found: Option<usize> = match substituted {
            None => find_sub(&a, &pat),
            Some(_) => None,
        };
        proof {
            assert(a@ == av[i as int]);
            if substituted is None && found is None {
                assert(first_occurrence(av[i as int], "%s"@) is None);
            }
        }
        match found {
            Some(k) => {
                proof {
                    assert(crate::text::is_first_occurrence(a@, pat@, k as int));
                    assert(crate::text::occurs_at(a@, pat@, k as int));
                    assert(k + 2 <= a@.len());
                }
                let n = a.len();
                let mut s = crate::text::string_of(&a, 0, k);
                s.append(msg_path);
                s.append(crate::text::string_of(&a, k + 2, n).as_str());
                proof {
                    assert(a@.subrange(0, k as int) =~= a@.take(k as int));
                    assert(a@.subrange(k + 2, a@.len() as int) =~= a@.skip(k + 2));
                }
                out.push(s);
                substituted = Some(i);
            },
            None => {
                let c = argv[i].clone();
                let ghost before = out@;
                out.push(c);
                proof {
                    assert(out@[i as int]@ == av[i as int]);
                    assert(forall|j: int| 0 <= j < i ==> out@[j] == before[j]);
                }
            },
        }
        i += 1;
    }
    match substituted {
        Some(s) => {
            proof {
                let ghost c = choose|c: int|
                    0 <= c < av.len() && first_occurrence(av[c], "%s"@) is Some && forall|j: int|
                        0 <= j < c ==> first_occurrence(av[j], "%s"@) is None;
                assert(0 <= s < av.len() && first_occurrence(av[s as int], "%s"@) is Some);
                if c < s {
                } else if c > s {
                }
                assert(c == s);
                assert(arg_views(out@) =~= spawn_argv_of(av, msg_path@));
            }
        },
        None => {
            let ghost before = arg_views(out@);
            out.push(String::from_str(msg_path));
            proof {
                assert(before =~= av);
                assert(arg_views(out@) =~= spawn_argv_of(av, msg_path@));
            }
        },
    }
    out
}

/// An editor spec of exactly `:` succeeds without launching anything.
pub fn skips_editor(argv: &Vec<String>) -> (b: bool)
    ensures
        b == (argv@.len() == 1 && argv@[0]@ == ":"@),
{
    argv.len() == 1 && crate::text::eq_str(&chars_of(argv[0].as_str()), ":")
}

/// What became of a commit through the editor.
#[derive(Clone, Debug, PartialEq, Eq)]
pub enum CommitOutcome {
    Committed,
    /// The editor produced an empty message. `draft` is the kept raw
    /// file when the user changed it at all; a file still identical to
    /// the template holds nothing typed and is dropped.
    AbortedEmpty { draft: Option<String> },
    /// The user abandoned the session (the editor was killed before
    /// committing). `draft` is saved, non-comment content kept on disk.
    Abandoned { draft: Option<String> },
}

/// What an empty stripped message comes to: the raw file is kept as the
/// draft whenever it differs from the template.
pub fn aborted_empty(raw: &str, template_text: &str, msg_path: &str) -> (o: CommitOutcome)
    ensures
        o matches CommitOutcome::AbortedEmpty { draft } && (draft is Some <==> raw@
            != template_text@) && (draft matches Some(p) ==> p@ == msg_path@),
{
    if crate::text::eq_str(&chars_of(raw), template_text) {
        CommitOutcome::AbortedEmpty { draft: None }
    } else {
        CommitOutcome::AbortedEmpty { draft: Some(String::from_str(msg_path)) }
    }
}

/// After an editor failure or abandon, the content worth keeping: the
/// saved file's stripped message when it is not empty (`None` when the
/// file could not be read or holds nothing recoverable).
pub fn draft_to_keep(comment_char: char, raw: Option<&str>) -> (r: Option<String>)
    ensures
        match raw {
            None => r is None,
            Some(t) => if stripped(comment_char, t@).len() > 0 {
                r matches Some(m) && m@ == stripped(comment_char, t@)
            } else {
                r is None
            },
        },
{
    match raw {
        None => None,
        Some(t) => {
            let m = strip_comments(comment_char, t);
            if m.as_str().is_empty() {
                None
            } else {
                Some(m)
            }
        },
    }
}

pub open spec fn editor_failed_message(argv: Seq<Seq<char>>, draft: Option<Seq<char>>, error: Seq<
    char,
>) -> Seq<char> {
    "could not run editor "@ + join(argv, " "@) + match draft {
        Some(p) => " — your draft is preserved at "@ + p + " (recommit with: git commit -F \""@
            + p + "\")"@,
        None => seq![],
    } + ": "@ + error
}

/// The error for an editor that could not run or exited non-zero,
/// naming the kept draft and the command that recommits it.
pub fn editor_failed(argv: &Vec<String>, draft: Option<&str>, error: &str) -> (e: GitError)
    ensures
        e.message@ == editor_failed_message(arg_views(argv@), opt_text(draft), error@),
{
    let mut message = String::from_str("could not run editor ");
    message.append(join_strings(argv, " ").as_str());
    match draft {
        Some(p) => {
            message.append(" — your draft is preserved at ");
            message.append(p);
            message.append(" (recommit with: git commit -F \"");
            message.append(p);
            message.append("\")");
        },
        None => {},
    }
    message.append(": ");
    message.append(error);
    proof {
        assert(message@ =~= editor_failed_message(arg_views(argv@), opt_text(draft), error@));
    }
    GitError { message }
}

/// The error for a message file that could not be read back: a
/// non-UTF-8 save keeps the draft (convertible with iconv); any other
/// failure names the file, which may still hold typed work.
pub open spec fn read_failed_message(invalid_data: bool, msg_path: Seq<char>, error: Seq<char>) -> Seq<
    char,
> {
    if invalid_data {
        "the editor saved the message in a non-UTF-8 encoding — your draft is preserved at "@
            + msg_path + ": "@ + error
    } else {
        "could not read the commit message file at "@ + msg_path
            + " — whatever the editor saved is preserved there: "@ + error
    }
}

/// Builds the read-back error.
pub fn read_failed(invalid_data: bool, msg_path: &str, error: &str) -> (e: GitError)
    ensures
        e.message@ == read_failed_message(invalid_data, msg_path@, error@),
{
    let mut message = if invalid_data {
        String::from_str(
            "the editor saved the message in a non-UTF-8 encoding — your draft is preserved at ",
        )
    } else {
        String::from_str("could not read the commit message file at ")
    };
    message.append(msg_path);
    if invalid_data {
        message.append(": ");
    } else {
        message.append(" — whatever the editor saved is preserved there: ");
    }
    message.append(error);
    GitError { message }
}

/// The temp file name of a commit message (`n` makes it unique within
/// the process).
pub open spec fn msg_file_name_of(pid: u32, n: u64) -> Seq<char> {
    "worktree-tool-commit-"@ + crate::text::decimal(pid as nat) + "-"@ + crate::text::decimal(
        n as nat,
    ) + ".msg"@
}

/// Builds `msg_file_name_of`.
pub fn msg_file_name(pid: u32, n: u64) -> (s: String)
    ensures
        s@ == msg_file_name_of(pid, n),
{
    let mut s = String::from_str("worktree-tool-commit-");
    s.append(crate::text::u64_to_string(pid as u64).as_str());
    s.append("-");
    s.append(crate::text::u64_to_string(n).as_str());
    s.append(".msg");
    s
}

/// Argv committing the message file: `-F` avoids every quoting and
/// length issue of `-m`; hooks run normally.
pub fn commit(msg_path: &str) -> (args: Vec<String>)
    ensures
        arg_views(args@) == seq!["commit"@, "-q"@, "-F"@, msg_path@],
{
    let mut args = args_of(&["commit", "-q", "-F"]);
    let ghost a0 = arg_views(args@);
    args.push(String::from_str(msg_path));
    proof {
        assert(arg_views(args@) =~= a0.push(msg_path@));
    }
    args
}

/// A failed commit keeps its message file and names it.
pub fn commit_failed(error: &GitError, msg_path: &str) -> (e: GitError)
    ensures
        e.message@ == error.message@ + " — your commit message is preserved at "@ + msg_path@,
{
    let mut message = error.message.clone();
    message.append(" — your commit message is preserved at ");
    message.append(msg_path);
    GitError { message }
}

/// An unedited template holds no message: every line but the blank
/// first one is a comment, so it strips to nothing and the commit is
/// aborted (for a one-line staged summary).
pub proof fn template_strips_to_nothing(c: char, staged_summary: Seq<char>)
    requires
        !crate::text::has_char(staged_summary, '\n'),
        c != '\n',
    ensures
        stripped(c, template_of(c, staged_summary)) == Seq::<char>::empty(),
{
    reveal_strlit("\n");
    reveal_strlit(" Please enter the commit message for your changes. Lines starting\n");
    reveal_strlit(" Please enter the commit message for your changes. Lines starting");
    reveal_strlit(" with '");
    reveal_strlit("' are ignored, and an empty message aborts the commit.\n");
    reveal_strlit("' are ignored, and an empty message aborts the commit.");
    reveal_strlit(" ");
    let e: Seq<char> = seq![];
    let a = seq![c] + " Please enter the commit message for your changes. Lines starting"@;
    let b = seq![c] + " with '"@ + seq![c] + "' are ignored, and an empty message aborts the commit."@;
    let d = seq![c];
    let f = seq![c] + " "@ + staged_summary;
    let t = template_of(c, staged_summary);
    assert(t =~= e + seq!['\n'] + (a + seq!['\n'] + (b + seq!['\n'] + (d + seq!['\n'] + (f
        + seq!['\n'] + e)))));
    assert(!crate::text::has_char(e, '\n'));
    assert(!crate::text::has_char(a, '\n')) by {
        if crate::text::has_char(a, '\n') {
            let k = choose|k: int| 0 <= k < a.len() && a[k] == '\n';
            assert(a[k] == '\n');
        }
    }
    assert(!crate::text::has_char(b, '\n')) by {
        if crate::text::has_char(b, '\n') {
            let k = choose|k: int| 0 <= k < b.len() && b[k] == '\n';
            assert(b[k] == '\n');
        }
    }
    assert(!crate::text::has_char(d, '\n')) by {
        if crate::text::has_char(d, '\n') {
            let k = choose|k: int| 0 <= k < d.len() && d[k] == '\n';
        }
    }
    assert(!crate::text::has_char(f, '\n')) by {
        if crate::text::has_char(f, '\n') {
            let k = choose|k: int| 0 <= k < f.len() && f[k] == '\n';
            if k >= 2 {
                assert(staged_summary[k - 2] == '\n');
            }
        }
    }
    crate::text::lemma_lines_empty();
    crate::text::lemma_lines_prefix(f, e);
    crate::text::lemma_lines_prefix(d, f + seq!['\n'] + e);
    crate::text::lemma_lines_prefix(b, d + seq!['\n'] + (f + seq!['\n'] + e));
    crate::text::lemma_lines_prefix(a, b + seq!['\n'] + (d + seq!['\n'] + (f + seq!['\n'] + e)));
    crate::text::lemma_lines_prefix(
        e,
        a + seq!['\n'] + (b + seq!['\n'] + (d + seq!['\n'] + (f + seq!['\n'] + e))),
    );
    let sa = crate::text::strip_cr(a);
    let sb = crate::text::strip_cr(b);
    let sd = crate::text::strip_cr(d);
    let sf = crate::text::strip_cr(f);
    let ls = lines(t);
    assert(ls =~= seq![e, sa, sb, sd, sf]);
    // every line but the first starts with the comment character, the
    // bare comment line aside when the comment character is a carriage
    // return (it strips to a blank line)
    assert(sa[0] == c && sb[0] == c && sf[0] == c);
    assert(starts_with(sa, seq![c])) by {
        assert(sa.take(1) =~= seq![c]);
    }
    assert(starts_with(sb, seq![c])) by {
        assert(sb.take(1) =~= seq![c]);
    }
    assert(starts_with(sf, seq![c])) by {
        assert(sf.take(1) =~= seq![c]);
    }
    assert(!starts_with(e, seq![c]));
    let l5 = seq![e, sa, sb, sd, sf];
    assert(l5.drop_last() =~= seq![e, sa, sb, sd]);
    assert(seq![e, sa, sb, sd].drop_last() =~= seq![e, sa, sb]);
    assert(seq![e, sa, sb].drop_last() =~= seq![e, sa]);
    assert(seq![e, sa].drop_last() =~= seq![e]);
    assert(seq![e].drop_last() =~= Seq::<Seq<char>>::empty());
    assert(uncommented(Seq::<Seq<char>>::empty(), c) == Seq::<Seq<char>>::empty());
    assert(seq![e].last() == e);
    assert(uncommented(seq![e], c) =~= seq![e]);
    assert(seq![e, sa].last() == sa);
    assert(uncommented(seq![e, sa], c) == uncommented(seq![e], c));
    assert(seq![e, sa, sb].last() == sb);
    assert(uncommented(seq![e, sa, sb], c) == uncommented(seq![e, sa], c));
    assert(seq![e, sa, sb, sd].last() == sd);
    assert(l5.last() == sf);
    assert(uncommented(l5, c) == uncommented(seq![e, sa, sb, sd], c));
    if c == '\r' {
        assert(sd =~= e);
        assert(!starts_with(sd, seq![c]));
        assert(uncommented(l5, c) =~= seq![e, e]);
        let j = join(seq![e, e], "\n"@);
        assert(seq![e, e].drop_last() =~= seq![e]);
        assert(join(seq![e], "\n"@) == e);
        assert(j == e + "\n"@ + e);
        assert(j =~= seq!['\n']);
        assert(crate::text::is_ws('\n'));
        assert(j.drop_first() =~= e);
        assert(trim_start(e) == e);
        assert(trim_start(j) == e);
    } else {
        assert(sd =~= d);
        assert(starts_with(sd, seq![c])) by {
            assert(sd.take(1) =~= seq![c]);
        }
        assert(uncommented(l5, c) == seq![e]);
        assert(join(seq![e], "\n"@) == e);
        assert(trim_start(e) == e);
    }
}

/// The editor process to spawn on the message file, or `None` for an
/// editor spec of exactly `:`, which succeeds without launching
/// anything.
pub fn editor_spawn(argv: &Vec<String>, msg_path: &str) -> (r: Option<Vec<String>>)
    ensures
        r is None <==> (argv@.len() == 1 && argv@[0]@ == ":"@),
        r matches Some(a) ==> arg_views(a@) == spawn_argv_of(arg_views(argv@), msg_path@),
{
    if skips_editor(argv) {
        None
    } else {
        Some(spawn_argv(argv, msg_path))
    }
}

/// What the saved message file leads to, once the editor succeeded.
pub enum AfterEdit {
    /// Write `message` (the stripped text) to the message file and run
    /// `args`; the file is removed afterwards, whatever the commit gives.
    Commit { message: String, args: Vec<String> },
    /// Nothing to commit: the outcome, and whether the file goes (it
    /// stays as the draft when the user changed it at all).
    Aborted { outcome: CommitOutcome, remove_file: bool },
}

pub open spec fn after_edit_ok(r: AfterEdit, c: char, raw: Seq<char>, template_text: Seq<char>, msg_path: Seq<char>) -> bool {
    if stripped(c, raw).len() > 0 {
        r matches AfterEdit::Commit { message, args } && message@ == stripped(c, raw) && arg_views(
            args@,
        ) == seq!["commit"@, "-q"@, "-F"@, msg_path]
    } else {
        r matches AfterEdit::Aborted { outcome, remove_file } && remove_file == (raw
            == template_text) && (outcome matches CommitOutcome::AbortedEmpty { draft } && (
        draft is Some <==> raw != template_text) && (draft matches Some(p) ==> p@ == msg_path))
    }
}

/// Decides on the saved message file `raw` (the file held `template_text`
/// before the editor ran): a message that strips to nothing commits
/// nothing, and the file goes only when it still is the template.
pub fn after_edit(comment_char: char, raw: &str, template_text: &str, msg_path: &str) -> (r:
    AfterEdit)
    ensures
        after_edit_ok(r, comment_char, raw@, template_text@, msg_path@),
{
    let message = strip_comments(comment_char, raw);
    if message.unicode_len() > 0 {
        AfterEdit::Commit { message, args: commit(msg_path) }
    } else {
        let unchanged = crate::text::eq_str(&chars_of(raw), template_text);
        AfterEdit::Aborted {
            outcome: aborted_empty(raw, template_text, msg_path),
            remove_file: unchanged,
        }
    }
}

/// An editor that leaves the template as it is (such as `:`, which is
/// not even launched) commits nothing, and the message file is removed:
/// the untouched template strips to nothing.
pub proof fn untouched_template_commits_nothing(
    r: AfterEdit,
    c: char,
    staged_summary: Seq<char>,
    msg_path: Seq<char>,
)
    requires
        !crate::text::has_char(staged_summary, '\n'),
        c != '\n',
        after_edit_ok(
            r,
            c,
            template_of(c, staged_summary),
            template_of(c, staged_summary),
            msg_path,
        ),
    ensures
        (r matches AfterEdit::Aborted { outcome, remove_file } && remove_file && outcome
            == (CommitOutcome::AbortedEmpty { draft: None })),
{
    template_strips_to_nothing(c, staged_summary);
}

} // verus!

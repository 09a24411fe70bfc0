//! History-rewrite operations on the checked-out branch: cherry-pick,
//! revert, and a scripted rewrite of recent history. Commit-ish
//! arguments are validated object ids. A rewrite plan becomes a command
//! script: the branch is reset to the plan's base and each step is
//! replayed by cherry-pick; a failing replay unwinds the whole chain
//! back to the pre-operation tip, so the repository is never left
//! wedged mid-chain.

use crate::engine::{arg_views, args_of, GitError};
use crate::text::{chars_of, debug_quoted, str_debug};
use vstd::prelude::*;

verus! {

pub open spec fn is_hex(c: char) -> bool {
    ('0' <= c && c <= '9') || ('a' <= c && c <= 'f') || ('A' <= c && c <= 'F')
}

/// Object ids only: 40 (SHA-1) or 64 (SHA-256) hex digits, so a
/// malformed ref can never be read as an option.
pub open spec fn valid_oid(oid: Seq<char>) -> bool {
    &&& (oid.len() == 40 || oid.len() == 64)
    &&& forall|i: int| 0 <= i < oid.len() ==> is_hex(#[trigger] oid[i])
}

pub open spec fn invalid_oid_message(oid: Seq<char>) -> Seq<char> {
    "invalid commit id: "@ + str_debug(oid)
}

fn validate_oid(oid: &str) -> (r: Result<(), GitError>)
    ensures
        r is Ok <==> valid_oid(oid@),
        r matches Err(e) ==> e.message@ == invalid_oid_message(oid@),
{
    let v = chars_of(oid);
    let mut ok = v.len() == 40 || v.len() == 64;
    let mut i: usize = 0;
    while i < v.len()
        invariant
            i <= v.len(),
            v@ == oid@,
            ok == ((v@.len() == 40 || v@.len() == 64) && forall|j: int|
                0 <= j < i ==> is_hex(#[trigger] v@[j])),
        decreases v.len() - i,
    {
        let c = v[i];
        if !(('0' <= c && c <= '9') || ('a' <= c && c <= 'f') || ('A' <= c && c <= 'F')) {
            ok = false;
        }
        i += 1;
    }
    if ok {
        Ok(())
    } else {
        let mut message = String::from_str("invalid commit id: ");
        message.append(debug_quoted(oid).as_str());
        Err(GitError { message })
    }
}

/// Argv applying commit `oid` onto the current branch. A conflicted run
/// pauses (see `sequence::finish_with_conflicts`).
pub fn cherry_pick(oid: &str) -> (r: Result<Vec<String>, GitError>)
    ensures
        r is Ok <==> valid_oid(oid@),
        r matches Err(e) ==> e.message@ == invalid_oid_message(oid@),
        r matches Ok(args) ==> arg_views(args@) == seq!["cherry-pick"@, oid@],
{
    validate_oid(oid)?;
    let mut args = args_of(&["cherry-pick"]);
    let ghost a0 = arg_views(args@);
    args.push(String::from_str(oid));
    proof {
        assert(arg_views(args@) =~= a0.push(oid@));
    }
    Ok(args)
}

/// Argv reverting commit `oid` with an auto-generated revert commit.
pub fn revert(oid: &str) -> (r: Result<Vec<String>, GitError>)
    ensures
        r is Ok <==> valid_oid(oid@),
        r matches Err(e) ==> e.message@ == invalid_oid_message(oid@),
        r matches Ok(args) ==> arg_views(args@) == seq!["revert"@, "--no-edit"@, oid@],
{
    validate_oid(oid)?;
    let mut args = args_of(&["revert", "--no-edit"]);
    let ghost a0 = arg_views(args@);
    args.push(String::from_str(oid));
    proof {
        assert(arg_views(args@) =~= a0.push(oid@));
    }
    Ok(args)
}

// ---------------------------------------------------------------------
// Rewrite plans
// ---------------------------------------------------------------------

/// One line of a rewrite plan.
#[derive(Clone, Copy, Debug, PartialEq, Eq, Structural)]
pub enum TodoAction {
    Pick,
    Drop,
    Fixup,
}

#[derive(Clone, Debug, PartialEq, Eq)]
pub struct TodoStep {
    pub action: TodoAction,
    /// Full object id of the commit this line applies.
    pub oid: String,
    /// Subject (dialog display only — the replay matches on the oid).
    pub subject: String,
}

pub struct StepView {
    pub action: TodoAction,
    pub oid: Seq<char>,
    pub subject: Seq<char>,
}

impl View for TodoStep {
    type V = StepView;

    open spec fn view(&self) -> StepView {
        StepView { action: self.action, oid: self.oid@, subject: self.subject@ }
    }
}

pub open spec fn step_views(s: Seq<TodoStep>) -> Seq<StepView> {
    s.map_values(|t: TodoStep| t@)
}

/// The oid of the first step whose oid is invalid.
pub open spec fn first_bad_oid(steps: Seq<StepView>) -> Option<Seq<char>>
    decreases steps.len(),
{
    if steps.len() == 0 {
        None
    } else {
        match first_bad_oid(steps.drop_last()) {
            Some(o) => Some(o),
            None => if !valid_oid(steps.last().oid) {
                Some(steps.last().oid)
            } else {
                None
            },
        }
    }
}

pub open spec fn empty_plan_message() -> Seq<char> {
    "empty rewrite plan"@
}

/// Why a plan is refused before anything runs: an invalid base, no
/// steps, or an invalid step oid (the first one).
pub open spec fn plan_error(base: Seq<char>, steps: Seq<StepView>) -> Option<Seq<char>> {
    if !valid_oid(base) {
        Some(invalid_oid_message(base))
    } else if steps.len() == 0 {
        Some(empty_plan_message())
    } else {
        match first_bad_oid(steps) {
            Some(o) => Some(invalid_oid_message(o)),
            None => None,
        }
    }
}

/// Checks a plan before anything runs.
pub fn check_plan(base: &str, steps: &Vec<TodoStep>) -> (r: Result<(), GitError>)
    ensures
        r is Ok <==> plan_error(base@, step_views(steps@)) is None,
        r matches Err(e) ==> Some(e.message@) == plan_error(base@, step_views(steps@)),
{
    validate_oid(base)?;
    if steps.len() == 0 {
        return Err(GitError { message: String::from_str("empty rewrite plan") });
    }
    let ghost sv = step_views(steps@);
    let mut i: usize = 0;
    while i < steps.len()
        invariant
            i <= steps.len(),
            sv == step_views(steps@),
            valid_oid(base@),
            steps@.len() > 0,
            first_bad_oid(sv.take(i as int)) is None,
        decreases steps.len() - i,
    {
        proof {
            assert(sv.take(i + 1).drop_last() =~= sv.take(i as int));
            assert(sv[i as int] == steps@[i as int]@);
        }
        let r = validate_oid(steps[i].oid.as_str());
        if r.is_err() {
            proof {
                assert(first_bad_oid(sv.take(i + 1)) == Some(sv[i as int].oid));
                lemma_first_bad_prefix(sv, i as int + 1);
            }
            return r;
        }
        i += 1;
    }
    proof {
        assert(sv.take(steps.len() as int) =~= sv);
    }
    Ok(())
}

/// A first bad oid found in a prefix is the first bad oid of the whole.
proof fn lemma_first_bad_prefix(s: Seq<StepView>, n: int)
    requires
        0 <= n <= s.len(),
        first_bad_oid(s.take(n)) is Some,
    ensures
        first_bad_oid(s) == first_bad_oid(s.take(n)),
    decreases s.len() - n,
{
    if n < s.len() {
        assert(s.take(n + 1).drop_last() =~= s.take(n));
        lemma_first_bad_prefix(s, n + 1);
    } else {
        assert(s.take(n) =~= s);
    }
}

pub open spec fn dirty_message() -> Seq<char> {
    "working copy has uncommitted changes — commit or stash before rewriting history"@
}

/// Argv of the cleanliness probe that must print nothing before a
/// rewrite (a rewrite would destroy uncommitted changes).
pub fn status_probe() -> (args: Vec<String>)
    ensures
        arg_views(args@) == seq!["--no-optional-locks"@, "status"@, "--porcelain"@],
{
    args_of(&["--no-optional-locks", "status", "--porcelain"])
}

/// Refuses a rewrite while the (trimmed) status probe printed anything.
pub fn check_clean(status: &str) -> (r: Result<(), GitError>)
    ensures
        r is Ok <==> status@.len() == 0,
        r matches Err(e) ==> e.message@ == dirty_message(),
{
    if !status.is_empty() {
        return Err(GitError { message: String::from_str(dirty_message_text()) });
    }
    Ok(())
}

fn dirty_message_text() -> (s: &'static str)
    ensures
        s@ == dirty_message(),
{
    "working copy has uncommitted changes — commit or stash before rewriting history"
}

/// Argv reading the branch tip the plan must still end at.
pub fn tip_probe() -> (args: Vec<String>)
    ensures
        arg_views(args@) == seq!["rev-parse"@, "HEAD"@],
{
    args_of(&["rev-parse", "HEAD"])
}

/// What a script does when one of its commands fails.
#[derive(Clone, Copy, Debug, PartialEq, Eq, Structural)]
pub enum OnFailure {
    /// Return git's error as it is (nothing changed yet).
    Propagate,
    /// Probe the conflicts, then run `unwind_commands` and report the
    /// conflicts, or the error when there are none.
    Unwind,
    /// Go on with the next command.
    Ignore,
}

pub struct ScriptCommand {
    pub args: Vec<String>,
    pub on_failure: OnFailure,
}

pub struct RewriteScript {
    /// The commands, run in order.
    pub commands: Vec<ScriptCommand>,
    /// The plan's first replayed step is a fixup: after the commands
    /// (which put the branch back) the plan is refused.
    pub fixup_first: bool,
}

pub type CmdView = (Seq<Seq<char>>, OnFailure);

impl View for ScriptCommand {
    type V = CmdView;

    open spec fn view(&self) -> CmdView {
        (arg_views(self.args@), self.on_failure)
    }
}

pub open spec fn command_views(s: Seq<ScriptCommand>) -> Seq<CmdView> {
    s.map_values(|c: ScriptCommand| c@)
}

pub open spec fn pick_args(oid: Seq<char>) -> Seq<Seq<char>> {
    seq!["cherry-pick"@, oid]
}

pub open spec fn pick_no_commit_args(oid: Seq<char>) -> Seq<Seq<char>> {
    seq!["cherry-pick"@, "-n"@, oid]
}

pub open spec fn amend_args() -> Seq<Seq<char>> {
    seq!["commit"@, "--amend"@, "--no-edit"@]
}

pub open spec fn reset_args(oid: Seq<char>) -> Seq<Seq<char>> {
    seq!["reset"@, "--hard"@, oid]
}

/// Replay of the steps, oldest first: drops are skipped, a pick is
/// cherry-picked, a fixup is cherry-picked without committing and folded
/// into the previous replayed commit. Returns the commands, whether a
/// commit was replayed, and whether a fixup came before any replayed
/// commit (which stops the replay: it would amend the base itself).
pub open spec fn replay_fold(steps: Seq<StepView>) -> (Seq<CmdView>, bool, bool)
    decreases steps.len(),
{
    if steps.len() == 0 {
        (seq![], false, false)
    } else {
        let (cmds, replayed, stopped) = replay_fold(steps.drop_last());
        let s = steps.last();
        if stopped {
            (cmds, replayed, stopped)
        } else {
            match s.action {
                TodoAction::Drop => (cmds, replayed, false),
                TodoAction::Pick => (cmds.push((pick_args(s.oid), OnFailure::Unwind)), true, false),
                TodoAction::Fixup => if !replayed {
                    (cmds, replayed, true)
                } else {
                    (
                        cmds + seq![
                            (pick_no_commit_args(s.oid), OnFailure::Unwind),
                            (amend_args(), OnFailure::Unwind),
                        ],
                        true,
                        false,
                    )
                },
            }
        }
    }
}

/// The script of a plan: reset to the base, then the replay; when the
/// replay stops at a leading fixup, a reset back to the tip instead.
pub open spec fn script_of(base: Seq<char>, tip: Seq<char>, steps: Seq<StepView>) -> (
    Seq<CmdView>,
    bool,
) {
    let (cmds, _, stopped) = replay_fold(steps);
    (
        seq![(reset_args(base), OnFailure::Propagate)] + cmds + if stopped {
            seq![(reset_args(tip), OnFailure::Ignore)]
        } else {
            seq![]
        },
        stopped,
    )
}

pub open spec fn history_changed_message() -> Seq<char> {
    "history changed since this plan was opened — reopen it"@
}

pub open spec fn fixup_first_message() -> Seq<char> {
    "the first commit of a plan cannot be a fixup — pick it instead"@
}

/// Whether some step applies the commit `oid`.
pub open spec fn plan_has(steps: Seq<StepView>, oid: Seq<char>) -> bool {
    exists|i: int| 0 <= i < steps.len() && (#[trigger] steps[i]).oid == oid
}

/// Why the plan is refused once the status probe's output and the tip
/// are known: the plan's own error, uncommitted changes (the reset that
/// starts the replay would destroy them), an invalid tip, or a tip that
/// no step applies (the branch moved since the plan's log was read).
pub open spec fn rewrite_error(
    base: Seq<char>,
    steps: Seq<StepView>,
    status: Seq<char>,
    tip: Seq<char>,
) -> Option<Seq<char>> {
    if plan_error(base, steps) is Some {
        plan_error(base, steps)
    } else if status.len() > 0 {
        Some(dirty_message())
    } else if !valid_oid(tip) {
        Some(invalid_oid_message(tip))
    } else if !plan_has(steps, tip) {
        Some(history_changed_message())
    } else {
        None
    }
}

proof fn lemma_replay_fold(steps: Seq<StepView>)
    ensures
        ({
            let (cmds, replayed, stopped) = replay_fold(steps);
            &&& !replayed ==> cmds.len() == 0
            &&& stopped ==> !replayed && cmds.len() == 0
            &&& forall|i: int| 0 <= i < cmds.len() ==> (#[trigger] cmds[i]).1 == OnFailure::Unwind
            &&& replayed ==> exists|j: int|
                0 <= j < cmds.len() && (#[trigger] cmds[j]).0.len() == 2 && cmds[j].0[0]
                    == "cherry-pick"@
            &&& forall|i: int|
                0 <= i < cmds.len() && (#[trigger] cmds[i]).0 == amend_args() ==> exists|j: int|
                    0 <= j < i && (#[trigger] cmds[j]).0.len() == 2 && cmds[j].0[0]
                        == "cherry-pick"@
        }),
    decreases steps.len(),
{
    reveal_strlit("commit");
    reveal_strlit("cherry-pick");
    if steps.len() > 0 {
        lemma_replay_fold(steps.drop_last());
        let (cmds, replayed, stopped) = replay_fold(steps.drop_last());
        let s = steps.last();
        let (c2, r2, s2) = replay_fold(steps);
        if !stopped {
            match s.action {
                TodoAction::Pick => {
                    assert(c2 == cmds.push((pick_args(s.oid), OnFailure::Unwind)));
                    assert(c2[cmds.len() as int].0.len() == 2);
                    assert forall|i: int|
                        0 <= i < c2.len() && (#[trigger] c2[i]).0 == amend_args() implies exists|
                        j: int,
                    | 0 <= j < i && (#[trigger] c2[j]).0.len() == 2 && c2[j].0[0]
                        == "cherry-pick"@ by {
                        if i == cmds.len() {
                            assert(c2[i].0[0] == "cherry-pick"@);
                            assert(amend_args()[0] == "commit"@);
                            assert("commit"@ != "cherry-pick"@) by {
                                assert("commit"@[1] != "cherry-pick"@[1]);
                            }
                        } else {
                            assert(cmds[i] == c2[i]);
                            let j = choose|j: int|
                                0 <= j < i && (#[trigger] cmds[j]).0.len() == 2 && cmds[j].0[0]
                                    == "cherry-pick"@;
                            assert(c2[j] == cmds[j]);
                        }
                    }
                    assert(exists|j: int|
                        0 <= j < c2.len() && (#[trigger] c2[j]).0.len() == 2 && c2[j].0[0]
                            == "cherry-pick"@) by {
                        assert(c2[cmds.len() as int].0.len() == 2);
                    }
                },
                TodoAction::Fixup => {
                    if replayed {
                        let j0 = choose|j: int|
                            0 <= j < cmds.len() && (#[trigger] cmds[j]).0.len() == 2
                                && cmds[j].0[0] == "cherry-pick"@;
                        assert(c2 == cmds + seq![
                            (pick_no_commit_args(s.oid), OnFailure::Unwind),
                            (amend_args(), OnFailure::Unwind),
                        ]);
                        assert(c2[j0] == cmds[j0]);
                        assert forall|i: int|
                            0 <= i < c2.len() && (#[trigger] c2[i]).0 == amend_args() implies exists|
                            j: int,
                        | 0 <= j < i && (#[trigger] c2[j]).0.len() == 2 && c2[j].0[0]
                            == "cherry-pick"@ by {
                            if i < cmds.len() {
                                assert(cmds[i] == c2[i]);
                                let j = choose|j: int|
                                    0 <= j < i && (#[trigger] cmds[j]).0.len() == 2
                                        && cmds[j].0[0] == "cherry-pick"@;
                                assert(c2[j] == cmds[j]);
                            } else {
                                assert(c2[j0] == cmds[j0]);
                            }
                        }
                        assert forall|i: int| 0 <= i < c2.len() implies (#[trigger] c2[i]).1
                            == OnFailure::Unwind by {
                            if i < cmds.len() {
                                assert(cmds[i] == c2[i]);
                            }
                        }
                    }
                },
                TodoAction::Drop => {},
            }
        }
    }
}

/// A leading fixup never amends the base, and every fold of a fixup
/// into "the previous commit" has a commit this script replayed before
/// it: in a plan's script, each amend is preceded by a plain
/// cherry-pick, and only the first command (the reset to the base, when
/// nothing has changed yet) propagates its failure as it is.
pub proof fn amend_follows_pick(base: Seq<char>, tip: Seq<char>, steps: Seq<StepView>)
    ensures
        ({
            let (cmds, _) = script_of(base, tip, steps);
            &&& forall|i: int|
                0 < i < cmds.len() ==> (#[trigger] cmds[i]).1 != OnFailure::Propagate
            &&& forall|i: int|
                0 <= i < cmds.len() && (#[trigger] cmds[i]).0 == amend_args() ==> exists|j: int|
                    0 < j < i && (#[trigger] cmds[j]).0 == pick_args(cmds[j].0[1])
        }),
{
    reveal_strlit("reset");
    reveal_strlit("commit");
    reveal_strlit("cherry-pick");
    lemma_replay_fold(steps);
    let (rc, _, stopped) = replay_fold(steps);
    let (cmds, _) = script_of(base, tip, steps);
    let head = seq![(reset_args(base), OnFailure::Propagate)];
    let tail: Seq<CmdView> = if stopped {
        seq![(reset_args(tip), OnFailure::Ignore)]
    } else {
        seq![]
    };
    assert(cmds == head + rc + tail);
    assert forall|i: int| 0 < i < cmds.len() implies (#[trigger] cmds[i]).1
        != OnFailure::Propagate by {
        if i <= rc.len() {
            assert(cmds[i] == rc[i - 1]);
        }
    }
    assert forall|i: int| 0 <= i < cmds.len() && (#[trigger] cmds[i]).0 == amend_args() implies exists|
        j: int,
    | 0 < j < i && (#[trigger] cmds[j]).0 == pick_args(cmds[j].0[1]) by {
        if i == 0 {
            assert(cmds[0].0[0] == "reset"@);
            assert("reset"@ != "commit"@) by {
                assert("reset"@[0] != "commit"@[0]);
            }
        } else if i <= rc.len() {
            assert(cmds[i] == rc[i - 1]);
            let j = choose|j: int|
                0 <= j < i - 1 && (#[trigger] rc[j]).0.len() == 2 && rc[j].0[0] == "cherry-pick"@;
            assert(cmds[j + 1] == rc[j]);
            assert(cmds[j + 1].0 =~= pick_args(cmds[j + 1].0[1]));
        } else {
            assert(stopped);
            assert(cmds[i].0[0] == "reset"@);
            assert("reset"@ != "commit"@) by {
                assert("reset"@[0] != "commit"@[0]);
            }
        }
    }
}

/// Builds the script of a rewrite of the current branch's recent
/// history per `steps` (oldest first, from `base`'s child through the
/// tip), given the (trimmed) output of `status_probe` and the branch tip
/// read by `tip_probe`. The working copy must be clean, and the tip must
/// be one of the plan's commits: the plan was built from a log ending at
/// it.
pub fn run_rewrite_plan(base: &str, steps: &Vec<TodoStep>, status: &str, tip: &str) -> (r: Result<
    RewriteScript,
    GitError,
>)
    ensures
        r is Ok <==> rewrite_error(base@, step_views(steps@), status@, tip@) is None,
        r matches Err(e) ==> Some(e.message@) == rewrite_error(
            base@,
            step_views(steps@),
            status@,
            tip@,
        ),
        r matches Ok(script) ==> (command_views(script.commands@), script.fixup_first)
            == script_of(base@, tip@, step_views(steps@)),
{
    check_plan(base, steps)?;
    check_clean(status)?;
    validate_oid(tip)?;
    let ghost sv = step_views(steps@);
    let mut found = false;
    let mut i: usize = 0;
    while i < steps.len()
        invariant
            i <= steps.len(),
            sv == step_views(steps@),
            found == exists|j: int| 0 <= j < i && (#[trigger] sv[j]).oid == tip@,
        decreases steps.len() - i,
    {
        proof {
            assert(sv[i as int] == steps@[i as int]@);
        }
        if crate::text::eq_str(&chars_of(steps[i].oid.as_str()), tip) {
            found = true;
        }
        i += 1;
    }
    if !found {
        return Err(
            GitError {
                message: String::from_str("history changed since this plan was opened — reopen it"),
            },
        );
    }
    let mut commands: Vec<ScriptCommand> = Vec::new();
    let mut reset = args_of(&["reset", "--hard"]);
    let ghost r0 = arg_views(reset@);
    reset.push(String::from_str(base));
    proof {
        assert(arg_views(reset@) =~= r0.push(base@));
    }
    proof {
        assert(arg_views(reset@) =~= reset_args(base@));
    }
    commands.push(ScriptCommand { args: reset, on_failure: OnFailure::Propagate });
    let ghost head = command_views(commands@);
    proof {
        assert(head =~= seq![(reset_args(base@), OnFailure::Propagate)]);
        assert(sv.take(0) =~= Seq::<StepView>::empty());
        assert(command_views(commands@) =~= head + Seq::<CmdView>::empty());
    }
    let mut replayed = false;
    let mut stopped = false;
    let mut k: usize = 0;
    while k < steps.len()
        invariant
            k <= steps.len(),
            sv == step_views(steps@),
            head == seq![(reset_args(base@), OnFailure::Propagate)],
            ({
                let (c, rp, st) = replay_fold(sv.take(k as int));
                command_views(commands@) == head + c && rp == replayed && st == stopped
            }),
        decreases steps.len() - k,
    {
        proof {
            assert(sv.take(k + 1).drop_last() =~= sv.take(k as int));
            assert(sv[k as int] == steps@[k as int]@);
        }
        let ghost before = command_views(commands@);
        let ghost prev = replay_fold(sv.take(k as int));
        proof {
            assert(replay_fold(sv.take(k + 1)) == ({
                let (cmds, replayed, stopped) = prev;
                let s = sv[k as int];
                if stopped {
                    (cmds, replayed, stopped)
                } else {
                    match s.action {
                        TodoAction::Drop => (cmds, replayed, false),
                        TodoAction::Pick => (
                            cmds.push((pick_args(s.oid), OnFailure::Unwind)),
                            true,
                            false,
                        ),
                        TodoAction::Fixup => if !replayed {
                            (cmds, replayed, true)
                        } else {
                            (
                                cmds + seq![
                                    (pick_no_commit_args(s.oid), OnFailure::Unwind),
                                    (amend_args(), OnFailure::Unwind),
                                ],
                                true,
                                false,
                            )
                        },
                    }
                }
            }));
        }
        if !stopped {
            match steps[k].action {
                TodoAction::Drop => {},
                TodoAction::Pick => {
                    let mut a = args_of(&["cherry-pick"]);
                    let ghost a0 = arg_views(a@);
                    a.push(steps[k].oid.clone());
                    proof {
                        assert(arg_views(a@) =~= a0.push(sv[k as int].oid));
                    }
                    let c = ScriptCommand { args: a, on_failure: OnFailure::Unwind };
                    commands.push(c);
                    proof {
                        assert(arg_views(c.args@) =~= pick_args(sv[k as int].oid));
                        assert(command_views(commands@) =~= before.push(c@));
                        assert(command_views(commands@) =~= head + prev.0.push(
                            (pick_args(sv[k as int].oid), OnFailure::Unwind),
                        ));
                    }
                    replayed = true;
                },
                TodoAction::Fixup => {
                    if !replayed {
                        stopped = true;
                    } else {
                        let mut a = args_of(&["cherry-pick", "-n"]);
                        let ghost a0 = arg_views(a@);
                        a.push(steps[k].oid.clone());
                        proof {
                            assert(arg_views(a@) =~= a0.push(sv[k as int].oid));
                        }
                        let c1 = ScriptCommand { args: a, on_failure: OnFailure::Unwind };
                        let c2 = ScriptCommand {
                            args: args_of(&["commit", "--amend", "--no-edit"]),
                            on_failure: OnFailure::Unwind,
                        };
                        commands.push(c1);
                        commands.push(c2);
                        proof {
                            assert(arg_views(c1.args@) =~= pick_no_commit_args(sv[k as int].oid));
                            assert(arg_views(c2.args@) =~= amend_args());
                            assert(command_views(commands@) =~= before + seq![c1@, c2@]);
                            assert(command_views(commands@) =~= head + (prev.0 + seq![
                                (pick_no_commit_args(sv[k as int].oid), OnFailure::Unwind),
                                (amend_args(), OnFailure::Unwind),
                            ]));
                        }
                    }
                },
            }
        }
        k += 1;
    }
    proof {
        assert(sv.take(steps.len() as int) =~= sv);
    }
    if stopped {
        let ghost before = command_views(commands@);
        let mut back = args_of(&["reset", "--hard"]);
        let ghost b0 = arg_views(back@);
        back.push(String::from_str(tip));
        proof {
            assert(arg_views(back@) =~= b0.push(tip@));
        }
        proof {
            assert(arg_views(back@) =~= reset_args(tip@));
        }
        let c = ScriptCommand { args: back, on_failure: OnFailure::Ignore };
        commands.push(c);
        proof {
            assert(command_views(commands@) =~= before.push(c@));
        }
    } else {
        proof {
            assert(command_views(commands@) =~= command_views(commands@) + Seq::<CmdView>::empty());
        }
    }
    Ok(RewriteScript { commands, fixup_first: stopped })
}

impl RewriteScript {
    /// What the plan comes to once every command ran (a failing
    /// `Ignore` command included): refused for a leading fixup, else
    /// done with no conflicts.
    pub fn finish(&self) -> (r: Result<Vec<String>, GitError>)
        ensures
            self.fixup_first <==> r is Err,
            r matches Err(e) ==> e.message@ == fixup_first_message(),
            r matches Ok(v) ==> v@.len() == 0,
    {
        if self.fixup_first {
            Err(
                GitError {
                    message: String::from_str(
                        "the first commit of a plan cannot be a fixup — pick it instead",
                    ),
                },
            )
        } else {
            Ok(Vec::new())
        }
    }
}

/// The commands that unwind a failed replay, after the conflicts were
/// probed: abort the cherry-pick, then put the branch back at the tip
/// it had before the rewrite (their failures are ignored).
pub fn unwind_commands(tip: &str) -> (cmds: Vec<Vec<String>>)
    ensures
        cmds@.len() == 2,
        arg_views(cmds@[0]@) == seq!["cherry-pick"@, "--abort"@],
        arg_views(cmds@[1]@) == reset_args(tip@),
{
    let mut cmds: Vec<Vec<String>> = Vec::new();
    cmds.push(args_of(&["cherry-pick", "--abort"]));
    let mut back = args_of(&["reset", "--hard"]);
    let ghost b0 = arg_views(back@);
    back.push(String::from_str(tip));
    proof {
        assert(arg_views(back@) =~= b0.push(tip@));
    }
    cmds.push(back);
    cmds
}

} // verus!

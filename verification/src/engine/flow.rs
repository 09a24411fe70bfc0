//! Running a sequence of git commands: which command runs next, given
//! what the previous one gave, and what the whole run comes to. A
//! failure either ends the run with git's error, is passed over, or
//! leads to the conflict probe: the conflicted paths are listed, the
//! cleanup commands run (always, or only when there are conflicts), and
//! the run ends with the conflicts, or with the error when there are
//! none. The caller runs each command and hands back its output.

use crate::engine::arg_views;
use crate::engine::branches::{
    conflict_list, conflicted_files, conflicted_files_args, invalid_name_message, merge,
    merge_abort_args, rebase, rebase_abort_args, valid_branch_name,
};
use crate::engine::mutate::{chunks_of, literal_command, path_cost, stage, unstage, unstage_prefix};
use crate::engine::rewrite::{
    cherry_pick, fixup_first_message, invalid_oid_message, reset_args, revert, unwind_commands,
    valid_oid, CmdView as ScriptView, OnFailure, RewriteScript, ScriptCommand,
};
use crate::engine::GitError;
use vstd::prelude::*;

verus! {

/// What a failure of a command leads to.
pub enum Failure {
    /// The run ends with git's error.
    Propagate,
    /// The run goes on with the next command.
    Ignore,
    /// The conflicted paths are probed; `cleanup` runs when `always` is
    /// set or there are conflicts; the run ends with the conflicts, or
    /// with the error when there are none. A failed probe counts as no
    /// conflicts.
    Conflicts { cleanup: Vec<Vec<String>>, always: bool },
}

pub struct FlowCommand {
    pub args: Vec<String>,
    pub on_failure: Failure,
}

pub enum FailureView {
    Propagate,
    Ignore,
    Conflicts(Seq<Seq<Seq<char>>>, bool),
}

pub type CommandView = (Seq<Seq<char>>, FailureView);

pub type OutcomeView = Result<Seq<Seq<char>>, Seq<char>>;

pub open spec fn cmd_views(s: Seq<Vec<String>>) -> Seq<Seq<Seq<char>>> {
    s.map_values(|v: Vec<String>| arg_views(v@))
}

impl View for FlowCommand {
    type V = CommandView;

    open spec fn view(&self) -> CommandView {
        (
            arg_views(self.args@),
            match self.on_failure {
                Failure::Propagate => FailureView::Propagate,
                Failure::Ignore => FailureView::Ignore,
                Failure::Conflicts { cleanup, always } => FailureView::Conflicts(
                    cmd_views(cleanup@),
                    always,
                ),
            },
        )
    }
}

pub open spec fn command_views(s: Seq<FlowCommand>) -> Seq<CommandView> {
    s.map_values(|c: FlowCommand| c@)
}

pub open spec fn outcome_view(r: Result<Vec<String>, GitError>) -> OutcomeView {
    match r {
        Ok(v) => Ok(arg_views(v@)),
        Err(e) => Err(e.message@),
    }
}

pub open spec fn reply_view(r: Result<Vec<u8>, GitError>) -> Result<Seq<u8>, Seq<char>> {
    match r {
        Ok(v) => Ok(v@),
        Err(e) => Err(e.message@),
    }
}

/// What the run asks for next.
pub enum FlowStep {
    /// Run git with these arguments and hand back its output.
    Git(Vec<String>),
    /// The run is over.
    Finished(Result<Vec<String>, GitError>),
}

pub enum StepView {
    Git(Seq<Seq<char>>),
    Finished(OutcomeView),
}

impl View for FlowStep {
    type V = StepView;

    open spec fn view(&self) -> StepView {
        match self {
            FlowStep::Git(a) => StepView::Git(arg_views(a@)),
            FlowStep::Finished(r) => StepView::Finished(outcome_view(*r)),
        }
    }
}

enum Phase {
    Running,
    Probing(GitError),
    Cleaning(Result<Vec<String>, GitError>, usize),
    Done,
}

pub enum PhaseView {
    /// The command at `at` runs.
    Running,
    /// It failed with this error; the conflict probe runs.
    Probing(Seq<char>),
    /// Cleanup command `k` runs; the run will end with the outcome.
    Cleaning(OutcomeView, nat),
    Done,
}

pub struct FlowView {
    pub commands: Seq<CommandView>,
    pub at: nat,
    pub phase: PhaseView,
    /// What the run ends with when every command has run.
    pub success: OutcomeView,
}

/// A run of git commands.
pub struct Flow {
    commands: Vec<FlowCommand>,
    at: usize,
    phase: Phase,
    success: Result<Vec<String>, GitError>,
}

impl View for Flow {
    type V = FlowView;

    closed spec fn view(&self) -> FlowView {
        FlowView {
            commands: command_views(self.commands@),
            at: self.at as nat,
            phase: match self.phase {
                Phase::Running => PhaseView::Running,
                Phase::Probing(e) => PhaseView::Probing(e.message@),
                Phase::Cleaning(o, k) => PhaseView::Cleaning(outcome_view(o), k as nat),
                Phase::Done => PhaseView::Done,
            },
            success: outcome_view(self.success),
        }
    }
}

pub open spec fn cleanup_of(c: CommandView) -> Seq<Seq<Seq<char>>> {
    match c.1 {
        FailureView::Conflicts(cl, _) => cl,
        _ => seq![],
    }
}

/// The run's state is consistent: a running or probing run is at one of
/// its commands, and a cleaning one at one of that command's cleanup
/// commands.
pub open spec fn flow_ok(v: FlowView) -> bool {
    match v.phase {
        PhaseView::Done => true,
        PhaseView::Running => v.at < v.commands.len(),
        PhaseView::Probing(_) => v.at < v.commands.len() && v.commands[v.at as int].1 is Conflicts,
        PhaseView::Cleaning(_, k) => v.at < v.commands.len() && k < cleanup_of(
            v.commands[v.at as int],
        ).len(),
    }
}

/// The step after command `at` is over (it succeeded or its failure is
/// passed over): the next command, or the end with `success`.
pub open spec fn after_command(v: FlowView) -> (FlowView, StepView) {
    if v.at + 1 < v.commands.len() {
        (
            FlowView { at: v.at + 1, phase: PhaseView::Running, ..v },
            StepView::Git(v.commands[v.at + 1int].0),
        )
    } else {
        (FlowView { phase: PhaseView::Done, ..v }, StepView::Finished(v.success))
    }
}

/// The conflicted paths a probe reply lists: none when the probe failed.
pub open spec fn probed(reply: Result<Seq<u8>, Seq<char>>) -> Seq<Seq<char>> {
    match reply {
        Ok(out) => conflict_list(out),
        Err(_) => seq![],
    }
}

/// One step of the run: what it does with the reply to the command it
/// asked for last.
pub open spec fn advance(v: FlowView, reply: Result<Seq<u8>, Seq<char>>) -> (FlowView, StepView) {
    match v.phase {
        PhaseView::Running => match reply {
            Ok(_) => after_command(v),
            Err(e) => match v.commands[v.at as int].1 {
                FailureView::Propagate => (
                    FlowView { phase: PhaseView::Done, ..v },
                    StepView::Finished(Err(e)),
                ),
                FailureView::Ignore => after_command(v),
                FailureView::Conflicts(_, _) => (
                    FlowView { phase: PhaseView::Probing(e), ..v },
                    StepView::Git(
                        seq!["--no-optional-locks"@, "diff"@, "--name-only"@, "--diff-filter=U"@],
                    ),
                ),
            },
        },
        PhaseView::Probing(e) => {
            let c = probed(reply);
            let outcome: OutcomeView = if c.len() > 0 {
                Ok(c)
            } else {
                Err(e)
            };
            let (cleanup, always) = match v.commands[v.at as int].1 {
                FailureView::Conflicts(cl, al) => (cl, al),
                _ => (seq![], false),
            };
            if (always || c.len() > 0) && cleanup.len() > 0 {
                (
                    FlowView { phase: PhaseView::Cleaning(outcome, 0), ..v },
                    StepView::Git(cleanup[0]),
                )
            } else {
                (FlowView { phase: PhaseView::Done, ..v }, StepView::Finished(outcome))
            }
        },
        PhaseView::Cleaning(outcome, k) => {
            let cleanup = cleanup_of(v.commands[v.at as int]);
            if k + 1 < cleanup.len() {
                (
                    FlowView { phase: PhaseView::Cleaning(outcome, k + 1), ..v },
                    StepView::Git(cleanup[k + 1int]),
                )
            } else {
                (FlowView { phase: PhaseView::Done, ..v }, StepView::Finished(outcome))
            }
        },
        PhaseView::Done => (v, StepView::Finished(v.success)),
    }
}

fn copy_args(v: &Vec<String>) -> (r: Vec<String>)
    ensures
        arg_views(r@) == arg_views(v@),
{
    let mut r: Vec<String> = Vec::new();
    let mut i: usize = 0;
    while i < v.len()
        invariant
            i <= v@.len(),
            r@.len() == i,
            forall|j: int| 0 <= j < i ==> (#[trigger] r@[j])@ == v@[j]@,
        decreases v@.len() - i,
    {
        r.push(v[i].clone());
        i += 1;
    }
    proof {
        assert(arg_views(r@) =~= arg_views(v@));
    }
    r
}

impl Flow {
    pub closed spec fn ok(&self) -> bool {
        flow_ok(self@)
    }

    /// Starts a run of `commands` that ends with `success` when every
    /// command ran: the first command, or the end at once when there are
    /// none.
    pub fn start(commands: Vec<FlowCommand>, success: Result<Vec<String>, GitError>) -> (r: (
        Flow,
        FlowStep,
    ))
        ensures
            r.0.ok(),
            r.0@.commands == command_views(commands@),
            commands@.len() > 0 ==> r.0@.success == outcome_view(success) && r.0@.at == 0 && r.0@.phase == PhaseView::Running && r.1@
                == StepView::Git(command_views(commands@)[0].0),
            commands@.len() == 0 ==> r.0@.phase == PhaseView::Done && r.1@ == StepView::Finished(
                outcome_view(success),
            ),
    {
        if commands.len() == 0 {
            let ghost sv = outcome_view(success);
            let f = Flow { commands, at: 0, phase: Phase::Done, success: Ok(Vec::new()) };
            (f, FlowStep::Finished(success))
        } else {
            let first = copy_args(&commands[0].args);
            proof {
                assert(command_views(commands@)[0] == commands@[0]@);
            }
            (Flow { commands, at: 0, phase: Phase::Running, success }, FlowStep::Git(first))
        }
    }

    /// The run is over.
    pub fn is_done(&self) -> (b: bool)
        ensures
            b == (self@.phase == PhaseView::Done),
    {
        match self.phase {
            Phase::Done => true,
            _ => false,
        }
    }

    fn take_success(&mut self) -> (r: Result<Vec<String>, GitError>)
        ensures
            outcome_view(r) == old(self)@.success,
            final(self).commands == old(self).commands,
            final(self).at == old(self).at,
            final(self)@.phase == old(self)@.phase,
    {
        let mut s: Result<Vec<String>, GitError> = Ok(Vec::new());
        std::mem::swap(&mut s, &mut self.success);
        s
    }

    /// Hands back what the command asked for last gave (its standard
    /// output, or its error) and tells what comes next (see `advance`).
    /// Once the run is over it stays over.
    pub fn next(&mut self, reply: Result<Vec<u8>, GitError>) -> (step: FlowStep)
        requires
            old(self).ok(),
            old(self)@.phase != PhaseView::Done,
        ensures
            final(self).ok(),
            final(self)@.commands == old(self)@.commands,
            (final(self)@.phase, step@) == ({
                let (v, s) = advance(old(self)@, reply_view(reply));
                (v.phase, s)
            }),
            final(self)@.at == advance(old(self)@, reply_view(reply)).0.at,
    {
        let ghost v = self@;
        proof {
            assert(self.commands@.len() == v.commands.len());
            assert(!(self.phase is Done));
            assert(self.at < self.commands@.len());
            assert(v.commands[self.at as int] == self.commands@[self.at as int]@);
        }
        let mut phase = Phase::Done;
        std::mem::swap(&mut phase, &mut self.phase);
        match phase {
            Phase::Running => {
                let go_on = match &reply {
                    Ok(_) => true,
                    Err(_) => match &self.commands[self.at].on_failure {
                        Failure::Ignore => true,
                        _ => false,
                    },
                };
                if go_on {
                    if self.commands.len() - self.at > 1 {
                        self.at = self.at + 1;
                        self.phase = Phase::Running;
                        proof {
                            assert(command_views(self.commands@)[self.at as int]
                                == self.commands@[self.at as int]@);
                        }
                        return FlowStep::Git(copy_args(&self.commands[self.at].args));
                    } else {
                        let s = self.take_success();
                        return FlowStep::Finished(s);
                    }
                }
                let e = match reply {
                    Err(e) => e,
                    Ok(_) => GitError { message: String::new() },
                };
                match &self.commands[self.at].on_failure {
                    Failure::Conflicts { .. } => {
                        self.phase = Phase::Probing(e);
                        FlowStep::Git(conflicted_files_args())
                    },
                    _ => FlowStep::Finished(Err(e)),
                }
            },
            Phase::Probing(e) => {
                let c = match &reply {
                    Ok(out) => conflicted_files(out.as_slice()),
                    Err(_) => Vec::new(),
                };
                proof {
                    assert(arg_views(c@) =~= probed(reply_view(reply)));
                }
                let has = c.len() > 0;
                let outcome: Result<Vec<String>, GitError> = if has {
                    Ok(c)
                } else {
                    Err(e)
                };
                let at = self.at;
                match &self.commands[at].on_failure {
                    Failure::Conflicts { cleanup, always } => {
                        if (*always || has) && cleanup.len() > 0 {
                            let first = copy_args(&cleanup[0]);
                            self.phase = Phase::Cleaning(outcome, 0);
                            FlowStep::Git(first)
                        } else {
                            FlowStep::Finished(outcome)
                        }
                    },
                    _ => FlowStep::Finished(outcome),
                }
            },
            Phase::Cleaning(outcome, k) => {
                let at = self.at;
                match &self.commands[at].on_failure {
                    Failure::Conflicts { cleanup, .. } => {
                        proof {
                            assert(k < cleanup@.len()) by {
                                assert(cmd_views(cleanup@).len() == cleanup@.len());
                            }
                        }
                        if cleanup.len() - k > 1 {
                            let a = copy_args(&cleanup[k + 1]);
                            self.phase = Phase::Cleaning(outcome, k + 1);
                            FlowStep::Git(a)
                        } else {
                            FlowStep::Finished(outcome)
                        }
                    },
                    _ => FlowStep::Finished(outcome),
                }
            },
            Phase::Done => FlowStep::Finished(Ok(Vec::new())),
        }
    }
}

/// The view of a run that has just started its commands.
pub open spec fn started(commands: Seq<CommandView>, success: OutcomeView) -> FlowView {
    FlowView { commands, at: 0, phase: PhaseView::Running, success }
}

pub open spec fn conflict_args() -> Seq<Seq<char>> {
    seq!["--no-optional-locks"@, "diff"@, "--name-only"@, "--diff-filter=U"@]
}

/// A single operation whose conflicts lead to `cleanup` (when there are
/// conflicts); it ends with no conflicts when it succeeds.
pub open spec fn single_op(args: Seq<Seq<char>>, cleanup: Seq<Seq<Seq<char>>>) -> FlowView {
    started(seq![(args, FailureView::Conflicts(cleanup, false))], Ok(seq![]))
}

fn single(args: Vec<String>, cleanup: Vec<Vec<String>>) -> (r: (Flow, FlowStep))
    ensures
        r.0.ok(),
        r.0@ == single_op(arg_views(args@), cmd_views(cleanup@)),
        r.1@ == StepView::Git(arg_views(args@)),
{
    let ghost av = arg_views(args@);
    let ghost cv = cmd_views(cleanup@);
    let mut cmds: Vec<FlowCommand> = Vec::new();
    cmds.push(FlowCommand { args, on_failure: Failure::Conflicts { cleanup, always: false } });
    let r = Flow::start(cmds, Ok(Vec::new()));
    proof {
        assert(command_views(cmds@) =~= seq![(av, FailureView::Conflicts(cv, false))]);
        assert(arg_views(Seq::<String>::empty()) =~= Seq::<Seq<char>>::empty());
        assert(r.0@ =~= single_op(av, cv));
    }
    r
}

pub open spec fn merge_view(branch: Seq<char>) -> FlowView {
    single_op(
        seq!["merge"@, "--no-edit"@, "--"@, branch],
        seq![seq!["merge"@, "--abort"@]],
    )
}

/// Merges `branch` into the current branch: a conflicted merge reports
/// its conflicted paths and is aborted (nothing continues a merge here,
/// and a left-over MERGE_HEAD would block every later operation); any
/// other failure, or a failed conflict probe, ends with the merge's own
/// error and aborts nothing.
pub fn merge_flow(branch: &str) -> (r: Result<(Flow, FlowStep), GitError>)
    ensures
        r is Ok <==> valid_branch_name(branch@),
        r matches Err(e) ==> e.message@ == invalid_name_message(branch@),
        r matches Ok((f, s)) ==> f.ok() && f@ == merge_view(branch@) && s@ == StepView::Git(
            seq!["merge"@, "--no-edit"@, "--"@, branch@],
        ),
{
    let args = merge(branch)?;
    let mut cleanup: Vec<Vec<String>> = Vec::new();
    cleanup.push(merge_abort_args());
    proof {
        assert(cmd_views(cleanup@) =~= seq![seq!["merge"@, "--abort"@]]);
    }
    Ok(single(args, cleanup))
}

pub open spec fn rebase_view(onto: Seq<char>) -> FlowView {
    single_op(seq!["rebase"@, "--"@, onto], seq![seq!["rebase"@, "--abort"@]])
}

/// Rebases the current branch onto `onto`, with `merge_flow`'s rule: the
/// branch is never left mid-rebase after conflicts, and without found
/// conflicts (or when the probe failed) nothing is aborted and the
/// rebase's error stands.
pub fn rebase_flow(onto: &str) -> (r: Result<(Flow, FlowStep), GitError>)
    ensures
        r is Ok <==> valid_branch_name(onto@),
        r matches Err(e) ==> e.message@ == invalid_name_message(onto@),
        r matches Ok((f, s)) ==> f.ok() && f@ == rebase_view(onto@) && s@ == StepView::Git(
            seq!["rebase"@, "--"@, onto@],
        ),
{
    let args = rebase(onto)?;
    let mut cleanup: Vec<Vec<String>> = Vec::new();
    cleanup.push(rebase_abort_args());
    proof {
        assert(cmd_views(cleanup@) =~= seq![seq!["rebase"@, "--abort"@]]);
    }
    Ok(single(args, cleanup))
}

/// Reverts commit `oid`: a conflicted revert stays paused (its sequence
/// state is kept for resolve-and-continue) and reports the conflicted
/// paths; any other failure ends with the revert's error.
pub fn revert_flow(oid: &str) -> (r: Result<(Flow, FlowStep), GitError>)
    ensures
        r is Ok <==> valid_oid(oid@),
        r matches Err(e) ==> e.message@ == invalid_oid_message(oid@),
        r matches Ok((f, s)) ==> f.ok() && f@ == single_op(
            seq!["revert"@, "--no-edit"@, oid@],
            seq![],
        ) && s@ == StepView::Git(seq!["revert"@, "--no-edit"@, oid@]),
{
    let args = revert(oid)?;
    let cleanup: Vec<Vec<String>> = Vec::new();
    proof {
        assert(cmd_views(cleanup@) =~= Seq::<Seq<Seq<char>>>::empty());
    }
    Ok(single(args, cleanup))
}

/// Applies commit `oid` onto the current branch, pausing on conflicts as
/// `revert_flow` does.
pub fn cherry_pick_flow(oid: &str) -> (r: Result<(Flow, FlowStep), GitError>)
    ensures
        r is Ok <==> valid_oid(oid@),
        r matches Err(e) ==> e.message@ == invalid_oid_message(oid@),
        r matches Ok((f, s)) ==> f.ok() && f@ == single_op(seq!["cherry-pick"@, oid@], seq![])
            && s@ == StepView::Git(seq!["cherry-pick"@, oid@]),
{
    let args = cherry_pick(oid)?;
    let cleanup: Vec<Vec<String>> = Vec::new();
    proof {
        assert(cmd_views(cleanup@) =~= Seq::<Seq<Seq<char>>>::empty());
    }
    Ok(single(args, cleanup))
}

/// Commands whose first failure ends the run with its error.
pub open spec fn propagating(cs: Seq<Seq<Seq<char>>>) -> Seq<CommandView> {
    cs.map_values(|a: Seq<Seq<char>>| (a, FailureView::Propagate))
}

fn chained(cmds: Vec<Vec<String>>) -> (r: (Flow, FlowStep))
    ensures
        r.0.ok(),
        r.0@.commands == propagating(cmd_views(cmds@)),
        cmds@.len() > 0 ==> r.0@ == started(propagating(cmd_views(cmds@)), Ok(seq![])) && r.1@
            == StepView::Git(arg_views(cmds@[0]@)),
        cmds@.len() == 0 ==> r.0@.phase == PhaseView::Done && r.1@ == StepView::Finished(
            Ok(seq![]),
        ),
{
    let ghost cv = cmd_views(cmds@);
    let mut out: Vec<FlowCommand> = Vec::new();
    let mut i: usize = 0;
    let mut cmds = cmds;
    let ghost orig = cmds@;
    while i < cmds.len()
        invariant
            i <= cmds@.len(),
            cmds@ == orig,
            cv == cmd_views(orig),
            command_views(out@) == propagating(cv).take(i as int),
        decreases cmds@.len() - i,
    {
        let a = copy_args(&cmds[i]);
        let fc = FlowCommand { args: a, on_failure: Failure::Propagate };
        let ghost before = command_views(out@);
        proof {
            assert(cv[i as int] == arg_views(cmds@[i as int]@));
            assert(fc@ == propagating(cv)[i as int]);
        }
        out.push(fc);
        proof {
            assert(command_views(out@) =~= before.push(fc@));
            assert(command_views(out@) =~= propagating(cv).take(i + 1));
        }
        i += 1;
    }
    proof {
        assert(propagating(cv).take(cmds@.len() as int) =~= propagating(cv));
        assert(arg_views(Seq::<String>::empty()) =~= Seq::<Seq<char>>::empty());
    }
    Flow::start(out, Ok(Vec::new()))
}

/// Stages the paths (`git add`, batched): nothing runs for no paths; the
/// chunks run in order, and the first that fails ends the run with its
/// error, no later chunk running.
pub fn stage_flow(rel_paths: &Vec<String>) -> (r: (Flow, FlowStep))
    requires
        forall|i: int| 0 <= i < rel_paths@.len() ==> path_cost(#[trigger] rel_paths@[i]@) <= usize::MAX,
    ensures
        r.0.ok(),
        r.0@.commands == propagating(
            chunks_of(arg_views(rel_paths@)).map_values(
                |c: Seq<Seq<char>>| literal_command(seq!["add"@], c),
            ),
        ),
        r.0@.commands.len() > 0 ==> r.0@.at == 0 && r.0@.phase == PhaseView::Running
            && r.0@.success == Ok::<Seq<Seq<char>>, Seq<char>>(seq![]) && r.1@ == StepView::Git(
            r.0@.commands[0].0,
        ),
        rel_paths@.len() == 0 ==> r.0@.phase == PhaseView::Done && r.1@ == StepView::Finished(
            Ok(seq![]),
        ),
{
    let cmds = stage(rel_paths);
    proof {
        assert(cmd_views(cmds@) =~= chunks_of(arg_views(rel_paths@)).map_values(
            |c: Seq<Seq<char>>| literal_command(seq!["add"@], c),
        ));
    }
    chained(cmds)
}

/// Unstages the paths, batched, with `stage_flow`'s rule for failures.
pub fn unstage_flow(rel_paths: &Vec<String>, head_exists: bool) -> (r: (Flow, FlowStep))
    requires
        forall|i: int| 0 <= i < rel_paths@.len() ==> path_cost(#[trigger] rel_paths@[i]@) <= usize::MAX,
    ensures
        r.0.ok(),
        r.0@.commands == propagating(
            chunks_of(arg_views(rel_paths@)).map_values(
                |c: Seq<Seq<char>>| literal_command(unstage_prefix(head_exists), c),
            ),
        ),
        r.0@.commands.len() > 0 ==> r.0@.at == 0 && r.0@.phase == PhaseView::Running
            && r.0@.success == Ok::<Seq<Seq<char>>, Seq<char>>(seq![]) && r.1@ == StepView::Git(
            r.0@.commands[0].0,
        ),
        rel_paths@.len() == 0 ==> r.0@.phase == PhaseView::Done && r.1@ == StepView::Finished(
            Ok(seq![]),
        ),
{
    let cmds = unstage(rel_paths, head_exists);
    proof {
        assert(cmd_views(cmds@) =~= chunks_of(arg_views(rel_paths@)).map_values(
            |c: Seq<Seq<char>>| literal_command(unstage_prefix(head_exists), c),
        ));
    }
    chained(cmds)
}

/// How a rewrite script's command fails: as it is, passed over, or by
/// unwinding (probe the conflicts, abort the cherry-pick, reset the
/// branch to `tip`, whatever the probe found).
pub open spec fn rewrite_command(c: ScriptView, tip: Seq<char>) -> CommandView {
    (
        c.0,
        match c.1 {
            OnFailure::Propagate => FailureView::Propagate,
            OnFailure::Ignore => FailureView::Ignore,
            OnFailure::Unwind => FailureView::Conflicts(
                seq![seq!["cherry-pick"@, "--abort"@], reset_args(tip)],
                true,
            ),
        },
    )
}

pub open spec fn script_outcome(fixup_first: bool) -> OutcomeView {
    if fixup_first {
        Err(fixup_first_message())
    } else {
        Ok(seq![])
    }
}

/// Runs a rewrite script whose plan was checked against `tip` (the
/// branch tip before the rewrite): a failed replay command unwinds, so
/// the branch ends back at `tip`, with the conflicts probed before the
/// unwind, or the failure's error when there are none; when every
/// command ran, the plan ends as `RewriteScript::finish` says.
pub fn rewrite_flow(script: RewriteScript, tip: &str) -> (r: (Flow, FlowStep))
    ensures
        r.0.ok(),
        r.0@.commands == crate::engine::rewrite::command_views(script.commands@).map_values(
            |c: ScriptView| rewrite_command(c, tip@),
        ),
        script.commands@.len() > 0 ==> r.0@.at == 0 && r.0@.phase == PhaseView::Running
            && r.0@.success == script_outcome(script.fixup_first) && r.1@ == StepView::Git(
            r.0@.commands[0].0,
        ),
        script.commands@.len() == 0 ==> r.0@.phase == PhaseView::Done && r.1@
            == StepView::Finished(script_outcome(script.fixup_first)),
{
    let success = script.finish();
    let ghost sv = crate::engine::rewrite::command_views(script.commands@);
    let ghost want = sv.map_values(|c: ScriptView| rewrite_command(c, tip@));
    let mut out: Vec<FlowCommand> = Vec::new();
    let mut i: usize = 0;
    while i < script.commands.len()
        invariant
            i <= script.commands@.len(),
            sv == crate::engine::rewrite::command_views(script.commands@),
            want == sv.map_values(|c: ScriptView| rewrite_command(c, tip@)),
            command_views(out@) == want.take(i as int),
        decreases script.commands@.len() - i,
    {
        let c = &script.commands[i];
        let a = copy_args(&c.args);
        let f = match c.on_failure {
            OnFailure::Propagate => Failure::Propagate,
            OnFailure::Ignore => Failure::Ignore,
            OnFailure::Unwind => {
                let u = unwind_commands(tip);
                proof {
                    assert(cmd_views(u@) =~= seq![seq!["cherry-pick"@, "--abort"@], reset_args(tip@)]);
                }
                Failure::Conflicts { cleanup: u, always: true }
            },
        };
        let fc = FlowCommand { args: a, on_failure: f };
        let ghost before = command_views(out@);
        proof {
            assert(sv[i as int] == c@);
            assert(fc@ == want[i as int]);
        }
        out.push(fc);
        proof {
            assert(command_views(out@) =~= before.push(fc@));
            assert(command_views(out@) =~= want.take(i + 1));
        }
        i += 1;
    }
    proof {
        assert(want.take(script.commands@.len() as int) =~= want);
        assert(outcome_view(success) == script_outcome(script.fixup_first)) by {
            if !script.fixup_first {
                assert(arg_views(success->Ok_0@) =~= Seq::<Seq<char>>::empty());
            }
        }
    }
    Flow::start(out, success)
}

/// A failed operation whose failure probes conflicts: the probe runs;
/// with conflicts found (or when `always`), the cleanup runs, and every
/// cleanup step leads to the next one or to the end with the conflicts
/// (or the error when none were found); with neither, the run ends with
/// the operation's error and nothing is cleaned up. A failed probe
/// counts as no conflicts.
pub proof fn conflicts_lead_to_cleanup(
    v: FlowView,
    e: Seq<char>,
    probe: Result<Seq<u8>, Seq<char>>,
    reply: Result<Seq<u8>, Seq<char>>,
)
    requires
        flow_ok(v),
        v.phase == PhaseView::Running,
        v.commands[v.at as int].1 is Conflicts,
    ensures
        ({
            let (cleanup, always) = match v.commands[v.at as int].1 {
                FailureView::Conflicts(cl, al) => (cl, al),
                _ => (seq![], false),
            };
            let (v1, s1) = advance(v, Err(e));
            let (v2, s2) = advance(v1, probe);
            let c = probed(probe);
            let outcome: OutcomeView = if c.len() > 0 {
                Ok(c)
            } else {
                Err(e)
            };
            &&& s1 == StepView::Git(conflict_args())
            &&& flow_ok(v1)
            &&& if (always || c.len() > 0) && cleanup.len() > 0 {
                &&& s2 == StepView::Git(cleanup[0])
                &&& v2.phase == PhaseView::Cleaning(outcome, 0)
                &&& flow_ok(v2)
                &&& forall|k: nat|
                    #![trigger advance(FlowView { phase: PhaseView::Cleaning(outcome, k), ..v2 }, reply)]
                    k < cleanup.len() ==> advance(
                        FlowView { phase: PhaseView::Cleaning(outcome, k), ..v2 },
                        reply,
                    ).1 == (if k + 1 < cleanup.len() {
                        StepView::Git(cleanup[k + 1int])
                    } else {
                        StepView::Finished(outcome)
                    })
            } else {
                s2 == StepView::Finished(outcome) && v2.phase == PhaseView::Done
            }
        }),
{
}

/// In a run of commands that each pass their failure on (staging or
/// unstaging in chunks), the first command to fail ends the run with its
/// error and no later command runs; a command that succeeds leads to the
/// next one, or, after the last, to the run's success.
pub proof fn first_failure_ends_the_run(
    cs: Seq<Seq<Seq<char>>>,
    v: FlowView,
    reply: Result<Seq<u8>, Seq<char>>,
)
    requires
        v.commands == propagating(cs),
        v.phase == PhaseView::Running,
        v.at < cs.len(),
    ensures
        reply matches Err(e) ==> advance(v, reply) == (
            FlowView { phase: PhaseView::Done, ..v },
            StepView::Finished(Err(e)),
        ),
        reply is Ok ==> advance(v, reply).1 == (if v.at + 1 < cs.len() {
            StepView::Git(cs[v.at + 1int])
        } else {
            StepView::Finished(v.success)
        }),
{
}

} // verus!

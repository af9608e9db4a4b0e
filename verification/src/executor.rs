//! The executor: what to do with each generated command. The decisions are
//! made here; the caller prints the reports and starts the processes, and
//! tells the executor how each attempt ended.

use crate::text::{split_whitespace, words};
use vstd::prelude::*;
use vstd::string::StringExecFns;

verus! {

/// How the attempt to run one command ended.
#[derive(Clone, Copy, Debug, PartialEq, Eq, Structural)]
pub enum ExecutionOutcome {
    /// The process was started and ended well, or nothing had to be started.
    Succeeded,
    /// The process was started and reported a failure when it ended.
    ChildReportedFailure,
    /// The process could not be started.
    FailedToStart,
}

/// A program and the arguments to start it with.
#[derive(Debug, PartialEq, Eq)]
pub struct Invocation {
    pub program: String,
    pub args: Vec<String>,
}

/// The mathematical value of an `Invocation`.
pub struct InvocationView {
    pub program: Seq<char>,
    pub args: Seq<Seq<char>>,
}

impl View for Invocation {
    type V = InvocationView;

    open spec fn view(&self) -> InvocationView {
        InvocationView { program: self.program@, args: self.args.deep_view() }
    }
}

/// What is to be done for one command: a line to print first, if any, and a
/// process to start after it, if any.
#[derive(Debug, PartialEq, Eq)]
pub struct Step {
    pub report: Option<String>,
    pub invocation: Option<Invocation>,
}

/// The mathematical value of a `Step`.
pub struct StepView {
    pub report: Option<Seq<char>>,
    pub invocation: Option<InvocationView>,
}

impl View for Step {
    type V = StepView;

    open spec fn view(&self) -> StepView {
        StepView {
            report: match self.report {
                Some(line) => Some(line@),
                None => None,
            },
            invocation: match self.invocation {
                Some(invocation) => Some(invocation@),
                None => None,
            },
        }
    }
}

/// The report of a dry run on `command`.
pub open spec fn would_do_line(command: Seq<char>) -> Seq<char> {
    "would do '"@ + command + "'"@
}

/// The report that announces `command` before it runs.
pub open spec fn running_line(command: Seq<char>) -> Seq<char> {
    "> "@ + command
}

/// The report on a `command` whose process could not be started.
pub open spec fn never_started_line(command: Seq<char>) -> Seq<char> {
    "'"@ + command + "' never started"@
}

/// `command` split on white space: the first word is the program, the others
/// are its arguments. A command without a word names the empty program, which
/// cannot be started.
pub open spec fn invocation_of(command: Seq<char>) -> InvocationView {
    let parts = words(command);
    if parts.len() == 0 {
        InvocationView { program: seq![], args: seq![] }
    } else {
        InvocationView { program: parts[0], args: parts.skip(1) }
    }
}

/// What is to be done for `command`. A dry run reports the command and
/// starts nothing. Otherwise the command is started, after a report where
/// `verbose` asks for one.
pub open spec fn planned(command: Seq<char>, dryrun: bool, verbose: bool) -> StepView {
    if dryrun {
        StepView { report: Some(would_do_line(command)), invocation: None }
    } else {
        StepView {
            report: if verbose {
                Some(running_line(command))
            } else {
                None
            },
            invocation: Some(invocation_of(command)),
        }
    }
}

/// What is reported once the attempt to run `command` ended with `outcome`:
/// only a process that never started is reported. How a process that did
/// start ended is not.
pub open spec fn concluded(command: Seq<char>, outcome: ExecutionOutcome) -> Option<Seq<char>> {
    if outcome == ExecutionOutcome::FailedToStart {
        Some(never_started_line(command))
    } else {
        None
    }
}

/// The state of an executor: the commands, the two modes, and how many of the
/// commands have been dealt with.
pub struct ExecutorView {
    pub commands: Seq<Seq<char>>,
    pub dryrun: bool,
    pub verbose: bool,
    pub cursor: nat,
}

/// The state in which an executor starts on `commands`.
pub open spec fn started(commands: Seq<Seq<char>>, dryrun: bool, verbose: bool) -> ExecutorView {
    ExecutorView { commands, dryrun, verbose, cursor: 0 }
}

/// What is to be done next in `state`, if any command is left.
pub open spec fn current(state: ExecutorView) -> Option<StepView> {
    if state.cursor < state.commands.len() {
        Some(planned(state.commands[state.cursor as int], state.dryrun, state.verbose))
    } else {
        None
    }
}

/// The state after the current command of `state` ended with `outcome`: the
/// next command is current, however the attempt ended.
pub open spec fn advanced(state: ExecutorView, outcome: ExecutionOutcome) -> ExecutorView {
    if state.cursor < state.commands.len() {
        ExecutorView { cursor: state.cursor + 1, ..state }
    } else {
        state
    }
}

/// What is reported when the current command of `state` ended with
/// `outcome`. A dry run starts nothing, so it has nothing to report here.
pub open spec fn outcome_report(state: ExecutorView, outcome: ExecutionOutcome) -> Option<
    Seq<char>,
> {
    if state.cursor < state.commands.len() && !state.dryrun {
        concluded(state.commands[state.cursor as int], outcome)
    } else {
        None
    }
}

/// The state that `outcomes`, one after the other, lead to from `state`.
pub open spec fn after(state: ExecutorView, outcomes: Seq<ExecutionOutcome>) -> ExecutorView
    decreases outcomes.len(),
{
    if outcomes.len() == 0 {
        state
    } else {
        advanced(after(state, outcomes.drop_last()), outcomes.last())
    }
}

/// The line that a dry run prints for `command`.
pub fn would_do(command: &str) -> (line: String)
    ensures
        line@ == would_do_line(command@),
{
    let mut line = String::from_str("would do '");
    line.append(command);
    line.append("'");
    line
}

/// Splits `command` on white space into a program and its arguments.
pub fn split_command(command: &str) -> (invocation: Invocation)
    ensures
        invocation@ == invocation_of(command@),
{
    let mut parts = split_whitespace(command);
    let ghost all = parts.deep_view();
    if parts.len() == 0 {
        let invocation = Invocation { program: String::new(), args: parts };
        assert(invocation.args.deep_view() =~= Seq::<Seq<char>>::empty());
        invocation
    } else {
        let program = parts.remove(0);
        assert(parts.deep_view() =~= all.skip(1));
        Invocation { program, args: parts }
    }
}

/// Decides what is to be done for `command`. A dry run never starts a
/// process.
pub fn plan(command: &str, dryrun: bool, verbose: bool) -> (step: Step)
    ensures
        step@ == planned(command@, dryrun, verbose),
        dryrun ==> step.invocation is None,
{
    if dryrun {
        Step { report: Some(would_do(command)), invocation: None }
    } else {
        let report = if verbose {
            let mut line = String::from_str("> ");
            line.append(command);
            Some(line)
        } else {
            None
        };
        Step { report, invocation: Some(split_command(command)) }
    }
}

/// Decides what is to be reported once the attempt to run `command` ended
/// with `outcome`.
pub fn conclude(command: &str, outcome: ExecutionOutcome) -> (report: Option<String>)
    ensures
        match concluded(command@, outcome) {
            Some(line) => report matches Some(text) && text@ == line,
            None => report is None,
        },
{
    match outcome {
        ExecutionOutcome::FailedToStart => {
            let mut line = String::from_str("'");
            line.append(command);
            line.append("' never started");
            Some(line)
        },
        _ => None,
    }
}

/// Runs through a list of commands, strictly in order and one at a time.
///
/// The caller asks for the next step, carries it out, and records how it
/// ended; then the following command is current. Nothing but the end of the
/// list ends the run.
pub struct Executor {
    commands: Vec<String>,
    dryrun: bool,
    verbose: bool,
    cursor: usize,
}

impl View for Executor {
    type V = ExecutorView;

    closed spec fn view(&self) -> ExecutorView {
        ExecutorView {
            commands: self.commands.deep_view(),
            dryrun: self.dryrun,
            verbose: self.verbose,
            cursor: self.cursor as nat,
        }
    }
}

impl Executor {
    /// The cursor never passes the end of the list.
    #[verifier::type_invariant]
    spec fn cursor_in_list(self) -> bool {
        self.cursor <= self.commands.len()
    }

    /// An executor at the start of `commands`.
    pub fn new(commands: Vec<String>, dryrun: bool, verbose: bool) -> (executor: Executor)
        ensures
            executor@ == started(commands.deep_view(), dryrun, verbose),
    {
        Executor { commands, dryrun, verbose, cursor: 0 }
    }

    /// The commands of this run, those dealt with included.
    pub fn commands(&self) -> (commands: &Vec<String>)
        ensures
            commands.deep_view() == self@.commands,
    {
        &self.commands
    }

    /// Whether every command has been dealt with.
    pub fn is_done(&self) -> (done: bool)
        ensures
            done == (current(self@) is None),
    {
        proof {
            use_type_invariant(self);
        }
        self.cursor >= self.commands.len()
    }

    /// What is to be done next: the step for the current command, or `None`
    /// when none is left. In a dry run no step starts a process.
    pub fn next_step(&self) -> (step: Option<Step>)
        ensures
            match current(self@) {
                Some(planned) => step matches Some(s) && s@ == planned,
                None => step is None,
            },
            self@.dryrun ==> (step matches Some(s) ==> s.invocation is None),
    {
        if self.cursor < self.commands.len() {
            Some(plan(self.commands[self.cursor].as_str(), self.dryrun, self.verbose))
        } else {
            None
        }
    }

    /// Records how the current command ended and moves on to the next one,
    /// whatever `outcome` is. Returns what is to be reported on the outcome.
    pub fn record(&mut self, outcome: ExecutionOutcome) -> (report: Option<String>)
        ensures
            final(self)@ == advanced(old(self)@, outcome),
            match outcome_report(old(self)@, outcome) {
                Some(line) => report matches Some(text) && text@ == line,
                None => report is None,
            },
    {
        proof {
            use_type_invariant(&*self);
        }
        if self.cursor < self.commands.len() {
            let report = if self.dryrun {
                None
            } else {
                conclude(self.commands[self.cursor].as_str(), outcome)
            };
            self.cursor = self.cursor + 1;
            report
        } else {
            None
        }
    }
}

/// An outcome moves the cursor by one and changes nothing else, as long as a
/// command is current.
pub proof fn lemma_after(state: ExecutorView, outcomes: Seq<ExecutionOutcome>)
    requires
        state.cursor + outcomes.len() <= state.commands.len(),
    ensures
        after(state, outcomes) == (ExecutorView {
            cursor: state.cursor + outcomes.len(),
            ..state
        }),
    decreases outcomes.len(),
{
    if outcomes.len() > 0 {
        lemma_after(state, outcomes.drop_last());
    }
}

/// A dry run never starts a process: whatever the commands are and however
/// far the run has come, the step that is current starts none.
pub proof fn lemma_dry_run_starts_nothing(
    commands: Seq<Seq<char>>,
    verbose: bool,
    outcomes: Seq<ExecutionOutcome>,
)
    ensures
        current(after(started(commands, true, verbose), outcomes)) matches Some(step)
            ==> step.invocation is None,
    decreases outcomes.len(),
{
    lemma_modes_stay(started(commands, true, verbose), outcomes);
}

/// No outcome changes the commands or the modes of a run.
pub proof fn lemma_modes_stay(state: ExecutorView, outcomes: Seq<ExecutionOutcome>)
    ensures
        after(state, outcomes).commands == state.commands,
        after(state, outcomes).dryrun == state.dryrun,
        after(state, outcomes).verbose == state.verbose,
    decreases outcomes.len(),
{
    if outcomes.len() > 0 {
        lemma_modes_stay(state, outcomes.drop_last());
    }
}

/// A failure stops nothing. After the first `k` commands have ended, each
/// with any outcome, a failure to start among them, command `k` is the
/// current one, and its step is the one that it would have had if all before
/// it had succeeded. And each of the `k` was reported on by its own outcome
/// alone: outside a dry run, the one that never started was reported as such.
pub proof fn lemma_failure_isolation(
    commands: Seq<Seq<char>>,
    dryrun: bool,
    verbose: bool,
    outcomes: Seq<ExecutionOutcome>,
)
    requires
        outcomes.len() < commands.len(),
    ensures
        after(started(commands, dryrun, verbose), outcomes).cursor == outcomes.len(),
        current(after(started(commands, dryrun, verbose), outcomes)) == Some(
            planned(commands[outcomes.len() as int], dryrun, verbose),
        ),
        forall|i: int|
            0 <= i < outcomes.len() ==> #[trigger] outcome_report(
                after(started(commands, dryrun, verbose), outcomes.take(i)),
                outcomes[i],
            ) == if dryrun {
                None
            } else {
                concluded(commands[i], outcomes[i])
            },
{
    let start = started(commands, dryrun, verbose);
    lemma_after(start, outcomes);
    assert forall|i: int| 0 <= i < outcomes.len() implies #[trigger] outcome_report(
        after(start, outcomes.take(i)),
        outcomes[i],
    ) == if dryrun {
        None
    } else {
        concluded(commands[i], outcomes[i])
    } by {
        lemma_after(start, outcomes.take(i));
    }
}

} // verus!

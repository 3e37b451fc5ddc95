//! The read-dispatch loop: what the interpreter does with each thing that the
//! line reader hands it, and how a command goes either to the builtin
//! dispatcher or to the process launcher.

use crate::action::{forks, Action};
use crate::builtin::{builtin_named, builtin_of, Builtin};
use crate::job::{law_one_process_per_launch, JobEvent, JobState};
use crate::parser::{is_command, law_name_not_empty, law_parse_line, nul_message, parse_line};
use crate::shell::Shell;
use crate::text::{chars_of, trim, trim_bounds};
use vstd::prelude::*;

verus! {

/// What the line reader hands over.
#[derive(PartialEq, Eq, Debug)]
pub enum ReadEvent {
    /// The user entered this line.
    Line(String),
    /// The user pressed the interrupt key while editing.
    Interrupted,
    /// The input has ended.
    EndOfInput,
    /// The reader failed for another reason.
    Failed,
}

/// Why the loop ends.
#[derive(Clone, Copy, PartialEq, Eq, Debug)]
pub enum StopCause {
    Interrupted,
    EndOfInput,
    Failed,
}

/// What the loop does next.
#[derive(PartialEq, Eq, Debug)]
pub enum LoopStep {
    /// The line held nothing but whitespace: read the next one.
    Skip,
    /// Record the line in the history, dispatch `argv`, and go on.
    Run { argv: Vec<String> },
    /// Record the line in the history, tell the user `message`, and go on.
    Reject { message: String },
    /// Leave the loop, store the history and close the session.
    Stop { cause: StopCause },
}

/// Which of the two ways a command goes.
#[derive(PartialEq, Eq, Debug)]
pub enum Dispatch {
    /// The interpreter runs it itself: store the history first if
    /// `save_history` says so, then run `argv` as a builtin.
    Builtin { save_history: bool, argv: Vec<String> },
    /// An external program: launch it through the job-control state machine.
    External { argv: Vec<String> },
}

/// A `ReadEvent` with its text as a sequence of characters.
pub enum ReadEventView {
    Line(Seq<char>),
    Interrupted,
    EndOfInput,
    Failed,
}

/// A `LoopStep` with its text as sequences of characters.
pub enum LoopStepView {
    Skip,
    Run { argv: Seq<Seq<char>> },
    Reject { message: Seq<char> },
    Stop { cause: StopCause },
}

/// A `Dispatch` with its text as sequences of characters.
pub enum DispatchView {
    Builtin { save_history: bool, argv: Seq<Seq<char>> },
    External { argv: Seq<Seq<char>> },
}

impl View for ReadEvent {
    type V = ReadEventView;

    open spec fn view(&self) -> ReadEventView {
        match self {
            ReadEvent::Line(line) => ReadEventView::Line(line@),
            ReadEvent::Interrupted => ReadEventView::Interrupted,
            ReadEvent::EndOfInput => ReadEventView::EndOfInput,
            ReadEvent::Failed => ReadEventView::Failed,
        }
    }
}

impl View for LoopStep {
    type V = LoopStepView;

    open spec fn view(&self) -> LoopStepView {
        match self {
            LoopStep::Skip => LoopStepView::Skip,
            LoopStep::Run { argv } => LoopStepView::Run { argv: argv.deep_view() },
            LoopStep::Reject { message } => LoopStepView::Reject { message: message@ },
            LoopStep::Stop { cause } => LoopStepView::Stop { cause: *cause },
        }
    }
}

impl View for Dispatch {
    type V = DispatchView;

    open spec fn view(&self) -> DispatchView {
        match self {
            Dispatch::Builtin { save_history, argv } => DispatchView::Builtin {
                save_history: *save_history,
                argv: argv.deep_view(),
            },
            Dispatch::External { argv } => DispatchView::External { argv: argv.deep_view() },
        }
    }
}

/// What the loop does with `event`. A line of whitespace only is skipped;
/// any other line is parsed, and either its command is run or the parse
/// error is reported. Everything that is not a line ends the loop.
pub open spec fn loop_step(event: ReadEventView) -> LoopStepView {
    match event {
        ReadEventView::Line(line) => if trim(line).len() == 0 {
            LoopStepView::Skip
        } else {
            match parse_line(line) {
                Some(argv) => LoopStepView::Run { argv },
                None => LoopStepView::Reject { message: nul_message() },
            }
        },
        ReadEventView::Interrupted => LoopStepView::Stop { cause: StopCause::Interrupted },
        ReadEventView::EndOfInput => LoopStepView::Stop { cause: StopCause::EndOfInput },
        ReadEventView::Failed => LoopStepView::Stop { cause: StopCause::Failed },
    }
}

/// Whether the history is stored before the builtin runs: before `exit`,
/// which ends the process, and before `history`, which reads the store.
pub open spec fn saves_history(builtin: Builtin) -> bool {
    builtin is Exit || builtin is History
}

/// Which way the command `argv` goes: to the builtin dispatcher when its
/// name is that of a builtin, to the launcher otherwise.
pub open spec fn dispatch_of(argv: Seq<Seq<char>>) -> DispatchView {
    match builtin_of(argv[0]) {
        Some(builtin) => DispatchView::Builtin { save_history: saves_history(builtin), argv },
        None => DispatchView::External { argv },
    }
}

/// Every action that the interpreter's own process is asked for while a
/// launched command is dealt with, from the launch to the state in which the
/// machine rests, when process creation returns `fork_result` in the
/// process `pid` and the wait returns `wait_result`.
pub open spec fn launch_actions(shell: Shell, fork_result: i32, pid: i32, wait_result: i32) -> Seq<
    Action,
> {
    let launch = shell.job_step(JobState::Idle, JobEvent::Launch).unwrap();
    let forked = shell.job_step(
        launch.next,
        JobEvent::Forked { result: fork_result, pid },
    ).unwrap();
    if forked.next is ChildForeground {
        let handed = shell.job_step(forked.next, JobEvent::HandedOff).unwrap();
        let waited = shell.job_step(
            handed.next,
            JobEvent::Waited { result: wait_result },
        ).unwrap();
        launch.plan + forked.plan + handed.plan + waited.plan
    } else {
        launch.plan + forked.plan
    }
}

/// Every system action that dealing with `dispatch` asks for. A builtin asks
/// for none: it acts on the interpreter's own process and goes nowhere near
/// the launcher.
pub open spec fn dispatch_actions(
    shell: Shell,
    dispatch: DispatchView,
    fork_result: i32,
    pid: i32,
    wait_result: i32,
) -> Seq<Action> {
    match dispatch {
        DispatchView::Builtin { .. } => Seq::empty(),
        DispatchView::External { .. } => launch_actions(shell, fork_result, pid, wait_result),
    }
}

impl Shell {
    /// Decides what the loop does with what the line reader handed over.
    pub fn on_read(event: ReadEvent) -> (step: LoopStep)
        ensures
            step@ == loop_step(event@),
    {
        match event {
            ReadEvent::Line(line) => {
                let chars = chars_of(line.as_str());
                let (from, to) = trim_bounds(&chars);
                if from == to {
                    LoopStep::Skip
                } else {
                    match Shell::cmd_parse(line) {
                        Ok(argv) => LoopStep::Run { argv },
                        Err(message) => LoopStep::Reject { message },
                    }
                }
            },
            ReadEvent::Interrupted => LoopStep::Stop { cause: StopCause::Interrupted },
            ReadEvent::EndOfInput => LoopStep::Stop { cause: StopCause::EndOfInput },
            ReadEvent::Failed => LoopStep::Stop { cause: StopCause::Failed },
        }
    }

    /// Decides which way the command `argv` goes.
    pub fn dispatch(&self, argv: Vec<String>) -> (d: Dispatch)
        requires
            argv.len() > 0,
        ensures
            d@ == dispatch_of(argv.deep_view()),
    {
        assert(argv.deep_view()[0] == argv[0]@);
        match builtin_named(argv[0].as_str()) {
            Some(builtin) => {
                let save_history = match builtin {
                    Builtin::Exit => true,
                    Builtin::Cd => false,
                    Builtin::History => true,
                };
                Dispatch::Builtin { save_history, argv }
            },
            None => Dispatch::External { argv },
        }
    }
}

/// The process creations of two plans, one after the other, add up.
pub proof fn lemma_forks_concat(first: Seq<Action>, second: Seq<Action>)
    ensures
        forks(first + second) == forks(first) + forks(second),
    decreases second.len(),
{
    if second.len() == 0 {
        assert(first + second =~= first);
    } else {
        assert((first + second).drop_last() =~= first + second.drop_last());
        lemma_forks_concat(first, second.drop_last());
    }
}

/// A command that the loop runs has a name that is not empty, and none of
/// its arguments holds a null character.
pub proof fn law_run_has_name(event: ReadEventView)
    requires
        loop_step(event) is Run,
    ensures
        loop_step(event)->Run_argv.len() >= 1,
        loop_step(event)->Run_argv[0].len() > 0,
        is_command(loop_step(event)->Run_argv),
{
    let line = event->Line_0;
    law_parse_line(line);
    law_name_not_empty(line);
}

/// Builtins and external programs exclude each other. A command named `cd`,
/// `exit` or `history` goes to the builtin dispatcher, and dealing with it
/// asks for no process. A command of any other name goes to the launcher,
/// and dealing with it asks for exactly one process, whatever process
/// creation and the wait return.
pub proof fn law_builtin_exclusivity(
    shell: Shell,
    argv: Seq<Seq<char>>,
    fork_result: i32,
    pid: i32,
    wait_result: i32,
)
    requires
        argv.len() > 0,
    ensures
        (argv[0] == "cd"@ || argv[0] == "exit"@ || argv[0] == "history"@) ==> {
            &&& dispatch_of(argv) is Builtin
            &&& forks(
                dispatch_actions(shell, dispatch_of(argv), fork_result, pid, wait_result),
            ) == 0
        },
        !(argv[0] == "cd"@ || argv[0] == "exit"@ || argv[0] == "history"@) ==> {
            &&& dispatch_of(argv) is External
            &&& forks(
                dispatch_actions(shell, dispatch_of(argv), fork_result, pid, wait_result),
            ) == 1
        },
{
    if builtin_of(argv[0]) is None {
        let launch = shell.job_step(JobState::Idle, JobEvent::Launch).unwrap();
        let forked_event = JobEvent::Forked { result: fork_result, pid };
        let forked = shell.job_step(launch.next, forked_event).unwrap();
        law_one_process_per_launch(shell, JobState::Idle, JobEvent::Launch);
        law_one_process_per_launch(shell, launch.next, forked_event);
        lemma_forks_concat(launch.plan, forked.plan);
        if forked.next is ChildForeground {
            let handed = shell.job_step(forked.next, JobEvent::HandedOff).unwrap();
            let waited_event = JobEvent::Waited { result: wait_result };
            let waited = shell.job_step(handed.next, waited_event).unwrap();
            law_one_process_per_launch(shell, forked.next, JobEvent::HandedOff);
            law_one_process_per_launch(shell, handed.next, waited_event);
            lemma_forks_concat(launch.plan + forked.plan, handed.plan);
            lemma_forks_concat(launch.plan + forked.plan + handed.plan, waited.plan);
        }
    }
}

} // verus!

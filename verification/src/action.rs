//! The system actions that the interpreter asks for, and a model of what they
//! do to the terminal and to the processes around it.
//!
//! The interpreter's logic never performs an action itself. It hands out
//! plans, sequences of `Action` values, and whoever drives it carries them
//! out in order. What a plan achieves is stated over `World`, a mathematical
//! picture of the state that the actions change.

use vstd::prelude::*;

verus! {

/// The signals that the interpreter sets a disposition for or sends.
#[derive(Clone, Copy, PartialEq, Eq, Debug)]
pub enum Signal {
    /// Keyboard interrupt.
    Interrupt,
    /// Keyboard quit.
    Quit,
    /// Keyboard stop.
    TerminalStop,
    /// A background process read from the terminal.
    TerminalInput,
    /// A background process wrote to the terminal.
    TerminalOutput,
    /// Request to terminate.
    Terminate,
}

/// What a process does when a signal arrives.
#[derive(Clone, Copy, PartialEq, Eq, Debug)]
pub enum Disposition {
    /// The system's default action for the signal.
    Default,
    /// The signal is discarded.
    Ignore,
}

/// A snapshot of a terminal's line-discipline settings. The interpreter
/// carries it from startup to shutdown and never looks inside.
#[derive(Clone, Copy, PartialEq, Eq, Debug)]
pub struct TerminalModes {
    pub input_flags: u64,
    pub output_flags: u64,
    pub control_flags: u64,
    pub local_flags: u64,
    pub line_discipline: u8,
    pub control_chars: [u8; 32],
    pub input_speed: u64,
    pub output_speed: u64,
}

/// A failure that the user is told about in one line.
#[derive(Clone, Copy, PartialEq, Eq, Debug)]
pub enum Notice {
    /// No process could be created for the command.
    ProcessCreationFailed,
    /// Waiting for the child ended in an error.
    WaitFailed,
}

/// One step that the interpreter asks its driver to carry out.
#[derive(Clone, Copy, PartialEq, Eq, Debug)]
pub enum Action {
    /// Create a process that is a copy of this one.
    Fork,
    /// Put process `pid` into process group `pgid`.
    SetProcessGroup { pid: i32, pgid: i32 },
    /// Make `pgid` the foreground process group of `terminal`.
    SetForeground { terminal: i32, pgid: i32 },
    /// Set this process's disposition for `signal`.
    SetSignal { signal: Signal, disposition: Disposition },
    /// Apply `modes` to `terminal` once its pending output is written.
    SetTerminalModes { terminal: i32, modes: TerminalModes },
    /// Block until process `pid` changes state.
    Wait { pid: i32 },
    /// Send `signal` to process `pid`.
    Kill { pid: i32, signal: Signal },
    /// Replace this process's image with the command being launched, found on
    /// the executable search path, with the command's arguments and the
    /// current environment. Returns only if that fails.
    Exec,
    /// End this process with status `code`.
    Exit { code: i32 },
    /// End this process abnormally.
    Abort,
    /// Tell the user of a failure.
    Report { notice: Notice },
}

/// The state that actions change, as far as the interpreter's guarantees
/// speak of it.
pub struct World {
    /// The foreground process group of the terminal.
    pub foreground: int,
    /// The process group of each process that was given one.
    pub groups: Map<int, int>,
    /// The acting process's disposition for each signal that was set.
    pub dispositions: Map<Signal, Disposition>,
    /// The terminal's settings, once they were set.
    pub modes: Option<TerminalModes>,
    /// How many times process creation was attempted.
    pub created: nat,
}

/// The five signals of job control, in the order in which the interpreter
/// goes through them.
pub open spec fn job_control_signals() -> Seq<Signal> {
    seq![
        Signal::Interrupt,
        Signal::Quit,
        Signal::TerminalStop,
        Signal::TerminalInput,
        Signal::TerminalOutput,
    ]
}

/// Whether `signal` is one of the five signals of job control.
pub open spec fn is_job_control(signal: Signal) -> bool {
    signal != Signal::Terminate
}

/// The world after `action`, taken to succeed, was carried out in `w`.
pub open spec fn effect(action: Action, w: World) -> World {
    match action {
        Action::Fork => World { created: w.created + 1, ..w },
        Action::SetProcessGroup { pid, pgid } => World {
            groups: w.groups.insert(pid as int, pgid as int),
            ..w
        },
        Action::SetForeground { terminal, pgid } => World { foreground: pgid as int, ..w },
        Action::SetSignal { signal, disposition } => World {
            dispositions: w.dispositions.insert(signal, disposition),
            ..w
        },
        Action::SetTerminalModes { terminal, modes } => World { modes: Some(modes), ..w },
        _ => w,
    }
}

/// The world after the actions of `plan` were carried out in order in `w`.
pub open spec fn run(plan: Seq<Action>, w: World) -> World
    decreases plan.len(),
{
    if plan.len() == 0 {
        w
    } else {
        effect(plan.last(), run(plan.drop_last(), w))
    }
}

/// How many process creations `plan` asks for.
pub open spec fn forks(plan: Seq<Action>) -> nat
    decreases plan.len(),
{
    if plan.len() == 0 {
        0
    } else {
        forks(plan.drop_last()) + if plan.last() is Fork {
            1nat
        } else {
            0nat
        }
    }
}

/// The plan that sets every job-control signal to `disposition`.
pub open spec fn signal_plan(disposition: Disposition) -> Seq<Action> {
    job_control_signals().map_values(|signal: Signal| Action::SetSignal { signal, disposition })
}

/// Carrying out a plan attempts as many process creations as the plan holds
/// `Fork` actions.
pub proof fn lemma_run_created(plan: Seq<Action>, w: World)
    ensures
        run(plan, w).created == w.created + forks(plan),
    decreases plan.len(),
{
    if plan.len() > 0 {
        lemma_run_created(plan.drop_last(), w);
    }
}

/// Carrying out two plans one after the other is carrying out their
/// concatenation.
pub proof fn lemma_run_concat(first: Seq<Action>, second: Seq<Action>, w: World)
    ensures
        run(first + second, w) == run(second, run(first, w)),
    decreases second.len(),
{
    if second.len() == 0 {
        assert(first + second =~= first);
    } else {
        assert((first + second).drop_last() =~= first + second.drop_last());
        lemma_run_concat(first, second.drop_last(), w);
    }
}

/// After `signal_plan(disposition)` every job-control signal has that
/// disposition, and nothing else has changed.
pub proof fn lemma_signal_plan(disposition: Disposition, w: World)
    ensures
        forall|signal: Signal|
            is_job_control(signal) ==> {
                &&& #[trigger] run(signal_plan(disposition), w).dispositions.contains_key(signal)
                &&& run(signal_plan(disposition), w).dispositions[signal] == disposition
            },
        run(signal_plan(disposition), w).dispositions.contains_key(Signal::Terminate)
            == w.dispositions.contains_key(Signal::Terminate),
        run(signal_plan(disposition), w).foreground == w.foreground,
        run(signal_plan(disposition), w).groups == w.groups,
        run(signal_plan(disposition), w).modes == w.modes,
        run(signal_plan(disposition), w).created == w.created,
{
    let plan = signal_plan(disposition);
    reveal_with_fuel(run, 6);
    assert(plan.len() == 5);
    assert(plan.drop_last().len() == 4);
    assert(plan.drop_last().drop_last().len() == 3);
    assert(plan.drop_last().drop_last().drop_last().len() == 2);
    assert(plan.drop_last().drop_last().drop_last().drop_last().len() == 1);
    assert(plan.drop_last().drop_last().drop_last().drop_last().drop_last().len() == 0);
}

/// A vector that holds `signal_plan(disposition)`.
pub fn signal_actions(disposition: Disposition) -> (plan: Vec<Action>)
    ensures
        plan@ == signal_plan(disposition),
{
    let mut plan: Vec<Action> = Vec::new();
    plan.push(Action::SetSignal { signal: Signal::Interrupt, disposition });
    plan.push(Action::SetSignal { signal: Signal::Quit, disposition });
    plan.push(Action::SetSignal { signal: Signal::TerminalStop, disposition });
    plan.push(Action::SetSignal { signal: Signal::TerminalInput, disposition });
    plan.push(Action::SetSignal { signal: Signal::TerminalOutput, disposition });
    assert(plan@ =~= signal_plan(disposition));
    plan
}

} // verus!

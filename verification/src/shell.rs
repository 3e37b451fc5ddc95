//! The interpreter's session: the values it keeps from startup to shutdown,
//! and the plans that open and close it.

use crate::action::{
    is_job_control, lemma_run_concat, lemma_signal_plan, run, signal_actions, signal_plan, Action,
    Disposition, Signal, TerminalModes, World,
};
use crate::text::same_text;
use vstd::prelude::*;
use vstd::string::*;

verus! {

/// The descriptor of the terminal that the interpreter was started on: its
/// standard input.
pub const TERMINAL: i32 = 0;

/// The interpreter's session.
pub struct Shell {
    /// Whether the controlling terminal is a real terminal.
    pub shell_is_interactive: bool,
    /// The interpreter's process id, which is also the id of its process group.
    pub shell_pgid: i32,
    /// The terminal's settings as they were at startup.
    pub shell_tmodes: TerminalModes,
    /// The descriptor of the controlling terminal.
    pub shell_terminal: i32,
    /// The text shown before each line is read.
    pub prompt: String,
}

/// How the interpreter was asked to start.
#[derive(Clone, Copy, PartialEq, Eq, Debug)]
pub enum Startup {
    /// Print the name and version, then leave with status 0.
    Version,
    /// Print the usage message, then leave with status 0.
    Usage,
    /// Read and run commands.
    Interactive,
}

/// The prompt that a session shows, given the value of the prompt variable
/// of the environment: that value, or `shell>` when the variable is not set.
pub open spec fn prompt_text(value: Option<String>) -> Seq<char> {
    match value {
        Some(text) => text@,
        None => "shell>"@,
    }
}

/// What the command-line arguments `args` ask for. Only the first argument
/// after the program's name counts, and only `-v` and `-h` are known.
pub open spec fn startup_of(args: Seq<Seq<char>>) -> Startup {
    if args.len() > 1 && args[1] == "-v"@ {
        Startup::Version
    } else if args.len() > 1 && args[1] == "-h"@ {
        Startup::Usage
    } else {
        Startup::Interactive
    }
}

impl Shell {
    /// The plan that opens the session. An interactive session puts the
    /// interpreter into a process group of its own, makes that group the
    /// terminal's foreground group and has the interpreter ignore the
    /// job-control signals. A session without a terminal sets up nothing.
    pub open spec fn startup_plan(&self) -> Seq<Action> {
        if self.shell_is_interactive {
            seq![
                Action::SetProcessGroup { pid: self.shell_pgid, pgid: self.shell_pgid },
                Action::SetForeground { terminal: self.shell_terminal, pgid: self.shell_pgid },
            ] + signal_plan(Disposition::Ignore)
        } else {
            Seq::empty()
        }
    }

    /// The plan that closes the session: take the terminal back, restore its
    /// settings, return the job-control signals to their defaults, and end
    /// the interpreter by a termination signal to itself.
    pub open spec fn shutdown_plan(&self) -> Seq<Action> {
        seq![
            Action::SetForeground { terminal: self.shell_terminal, pgid: self.shell_pgid },
            Action::SetTerminalModes { terminal: self.shell_terminal, modes: self.shell_tmodes },
        ] + signal_plan(Disposition::Default) + seq![
            Action::Kill { pid: self.shell_pgid, signal: Signal::Terminate },
        ]
    }

    /// Opens a session. `tty` is what the terminal probe returned for the
    /// standard input (1 for a terminal), `pid` the interpreter's process id,
    /// `modes` the terminal's current settings and `prompt` the value of the
    /// prompt variable. Returns the session and the plan to carry out before
    /// the first line is read.
    pub fn init(tty: i32, pid: i32, modes: TerminalModes, prompt: Option<String>) -> (r: (
        Shell,
        Vec<Action>,
    ))
        ensures
            r.0.shell_is_interactive == (tty == 1),
            r.0.shell_pgid == pid,
            r.0.shell_tmodes == modes,
            r.0.shell_terminal == TERMINAL,
            r.0.prompt@ == prompt_text(prompt),
            r.1@ == r.0.startup_plan(),
    {
        let shell = Shell {
            shell_is_interactive: tty == 1,
            shell_pgid: pid,
            shell_tmodes: modes,
            shell_terminal: TERMINAL,
            prompt: Shell::get_prompt(prompt),
        };
        let mut plan: Vec<Action> = Vec::new();
        if shell.shell_is_interactive {
            plan.push(Action::SetProcessGroup { pid, pgid: pid });
            plan.push(Action::SetForeground { terminal: TERMINAL, pgid: pid });
            let mut signals = signal_actions(Disposition::Ignore);
            plan.append(&mut signals);
        }
        assert(plan@ =~= shell.startup_plan());
        (shell, plan)
    }

    /// The plan that closes the session.
    pub fn destroy(&self) -> (plan: Vec<Action>)
        ensures
            plan@ == self.shutdown_plan(),
    {
        let mut plan: Vec<Action> = Vec::new();
        plan.push(Action::SetForeground { terminal: self.shell_terminal, pgid: self.shell_pgid });
        plan.push(
            Action::SetTerminalModes { terminal: self.shell_terminal, modes: self.shell_tmodes },
        );
        let mut signals = signal_actions(Disposition::Default);
        plan.append(&mut signals);
        plan.push(Action::Kill { pid: self.shell_pgid, signal: Signal::Terminate });
        assert(plan@ =~= self.shutdown_plan());
        plan
    }

    /// The prompt for a session, given the value of the prompt variable of
    /// the environment, if it is set.
    pub fn get_prompt(value: Option<String>) -> (prompt: String)
        ensures
            prompt@ == prompt_text(value),
    {
        match value {
            Some(text) => text,
            None => String::from_str("shell>"),
        }
    }

    /// What the command-line arguments ask for. `args[0]` is the program's
    /// name.
    pub fn parse_args(args: &Vec<String>) -> (r: Startup)
        ensures
            r == startup_of(args.deep_view()),
    {
        if args.len() > 1 {
            let arg = args[1].as_str();
            assert(arg@ == args.deep_view()[1]);
            if same_text(arg, "-v") {
                return Startup::Version;
            } else if same_text(arg, "-h") {
                return Startup::Usage;
            }
        }
        Startup::Interactive
    }
}

/// After the startup plan of an interactive session the interpreter is alone
/// in a process group of its own, that group is the terminal's foreground
/// group, and the interpreter ignores every job-control signal. No process
/// was created.
pub proof fn law_startup_claims_terminal(shell: Shell, w: World)
    requires
        shell.shell_is_interactive,
    ensures
        run(shell.startup_plan(), w).foreground == shell.shell_pgid,
        run(shell.startup_plan(), w).groups.contains_key(shell.shell_pgid as int),
        run(shell.startup_plan(), w).groups[shell.shell_pgid as int] == shell.shell_pgid,
        forall|signal: Signal|
            is_job_control(signal) ==> {
                &&& #[trigger] run(shell.startup_plan(), w).dispositions.contains_key(signal)
                &&& run(shell.startup_plan(), w).dispositions[signal] == Disposition::Ignore
            },
        run(shell.startup_plan(), w).created == w.created,
{
    let head = seq![
        Action::SetProcessGroup { pid: shell.shell_pgid, pgid: shell.shell_pgid },
        Action::SetForeground { terminal: shell.shell_terminal, pgid: shell.shell_pgid },
    ];
    reveal_with_fuel(run, 3);
    assert(head.drop_last().len() == 1);
    assert(head.drop_last().drop_last().len() == 0);
    lemma_run_concat(head, signal_plan(Disposition::Ignore), w);
    lemma_signal_plan(Disposition::Ignore, run(head, w));
}

/// After the shutdown plan the interpreter's group is the terminal's
/// foreground group, the terminal has the settings saved at startup, every
/// job-control signal has its default disposition, and the last action sends
/// the interpreter the termination signal. No process was created.
pub proof fn law_shutdown_restores(shell: Shell, w: World)
    ensures
        run(shell.shutdown_plan(), w).foreground == shell.shell_pgid,
        run(shell.shutdown_plan(), w).modes == Some(shell.shell_tmodes),
        forall|signal: Signal|
            is_job_control(signal) ==> {
                &&& #[trigger] run(shell.shutdown_plan(), w).dispositions.contains_key(signal)
                &&& run(shell.shutdown_plan(), w).dispositions[signal] == Disposition::Default
            },
        run(shell.shutdown_plan(), w).created == w.created,
        shell.shutdown_plan().last() == (Action::Kill {
            pid: shell.shell_pgid,
            signal: Signal::Terminate,
        }),
{
    let head = seq![
        Action::SetForeground { terminal: shell.shell_terminal, pgid: shell.shell_pgid },
        Action::SetTerminalModes { terminal: shell.shell_terminal, modes: shell.shell_tmodes },
    ];
    let tail = seq![Action::Kill { pid: shell.shell_pgid, signal: Signal::Terminate }];
    let signals = signal_plan(Disposition::Default);
    reveal_with_fuel(run, 3);
    assert(head.drop_last().len() == 1);
    assert(head.drop_last().drop_last().len() == 0);
    assert(tail.drop_last().len() == 0);
    lemma_run_concat(head, signals, w);
    lemma_signal_plan(Disposition::Default, run(head, w));
    lemma_run_concat(head + signals, tail, w);
}

} // verus!

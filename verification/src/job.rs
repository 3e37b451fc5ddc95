//! Job control around one external command: a state machine that says, for
//! each thing that happens, which system actions come next.
//!
//! A foreground command goes through the states in order:
//! `Idle`, `Launching`, `ChildForeground`, `Waiting`, and `Idle` again. The
//! driver carries out the plan of each transition and reports what happened
//! as the next event. While a child runs, its process group, not the
//! interpreter's, is the foreground group of the terminal, so a signal typed
//! at the keyboard reaches the child.

use crate::action::{
    forks, is_job_control, lemma_run_concat, lemma_run_created, lemma_signal_plan, run,
    signal_actions, signal_plan, Action, Disposition, Notice, Signal, World,
};
use crate::shell::{law_startup_claims_terminal, Shell};
use vstd::prelude::*;

verus! {

/// Where the interpreter stands with its foreground command.
#[derive(Clone, Copy, PartialEq, Eq, Debug)]
pub enum JobState {
    /// No command runs; the interpreter's group owns the terminal.
    Idle,
    /// A process was asked for; the interpreter's group still owns the
    /// terminal.
    Launching,
    /// The child is in a group of its own, and that group owns the terminal.
    ChildForeground { child: i32 },
    /// The interpreter is blocked until the child changes state.
    Waiting { child: i32 },
    /// This process is the child: it runs its plan and becomes the command.
    InChild { pid: i32 },
    /// No process could be created; the interpreter ends abnormally.
    Aborted,
}

/// What the driver reports to the state machine.
#[derive(Clone, Copy, PartialEq, Eq, Debug)]
pub enum JobEvent {
    /// A command that is no builtin is to be run.
    Launch,
    /// Process creation returned `result` in the process whose id is `pid`:
    /// the child's id in the interpreter, 0 in the child, a negative number
    /// on failure.
    Forked { result: i32, pid: i32 },
    /// The child was given its group and the terminal.
    HandedOff,
    /// The wait for the child returned `result`: -1 on failure.
    Waited { result: i32 },
}

/// One transition of the state machine: the state it leads to and the plan
/// to carry out on the way.
pub struct Transition {
    pub next: JobState,
    pub plan: Vec<Action>,
}

/// A `Transition` with its plan as a sequence.
pub struct TransitionView {
    pub next: JobState,
    pub plan: Seq<Action>,
}

impl View for Transition {
    type V = TransitionView;

    open spec fn view(&self) -> TransitionView {
        TransitionView { next: self.next, plan: self.plan@ }
    }
}

impl JobState {
    /// The event that reports how the plan that led to this state went, when
    /// the plan's last system call returned `result` in the process whose id
    /// is `pid`; `None` in a state in which the machine rests.
    pub open spec fn awaited(self, result: i32, pid: i32) -> Option<JobEvent> {
        match self {
            JobState::Launching => Some(JobEvent::Forked { result, pid }),
            JobState::ChildForeground { .. } => Some(JobEvent::HandedOff),
            JobState::Waiting { .. } => Some(JobEvent::Waited { result }),
            JobState::Idle | JobState::InChild { .. } | JobState::Aborted => None,
        }
    }

    /// The event to hand to the state machine next, once the plan that led to
    /// this state was carried out and its last system call returned `result`
    /// in the process whose id is `pid`; `None` when the machine rests.
    pub fn report(&self, result: i32, pid: i32) -> (event: Option<JobEvent>)
        ensures
            event == self.awaited(result, pid),
    {
        match self {
            JobState::Launching => Some(JobEvent::Forked { result, pid }),
            JobState::ChildForeground { .. } => Some(JobEvent::HandedOff),
            JobState::Waiting { .. } => Some(JobEvent::Waited { result }),
            JobState::Idle => None,
            JobState::InChild { .. } => None,
            JobState::Aborted => None,
        }
    }
}

impl Shell {
    /// The plan that hands the terminal to the child `child`: the child gets
    /// a process group of its own, whose id is the child's id, and that group
    /// becomes the terminal's foreground group.
    pub open spec fn hand_off_plan(&self, child: i32) -> Seq<Action> {
        seq![
            Action::SetProcessGroup { pid: child, pgid: child },
            Action::SetForeground { terminal: self.shell_terminal, pgid: child },
        ]
    }

    /// The plan that takes the terminal back once the wait returned `result`.
    /// A failed wait is reported, and the terminal is taken back all the same.
    pub open spec fn reclaim_plan(&self, result: i32) -> Seq<Action> {
        if result == -1 {
            seq![
                Action::Report { notice: Notice::WaitFailed },
                Action::SetForeground { terminal: self.shell_terminal, pgid: self.shell_pgid },
            ]
        } else {
            seq![Action::SetForeground { terminal: self.shell_terminal, pgid: self.shell_pgid }]
        }
    }

    /// The plan of the child whose process id is `pid`: a group of its own,
    /// the terminal, the default disposition for every job-control signal,
    /// then the command's image. If the image cannot be run, the child leaves
    /// with status 1.
    pub open spec fn child_plan(&self, pid: i32) -> Seq<Action> {
        self.hand_off_plan(pid) + signal_plan(Disposition::Default) + seq![
            Action::Exec,
            Action::Exit { code: 1 },
        ]
    }

    /// The transition that `event` causes in `state`, or `None` when `state`
    /// does not await `event`.
    pub open spec fn job_step(&self, state: JobState, event: JobEvent) -> Option<TransitionView> {
        match (state, event) {
            (JobState::Idle, JobEvent::Launch) => Some(
                TransitionView { next: JobState::Launching, plan: seq![Action::Fork] },
            ),
            (JobState::Launching, JobEvent::Forked { result, pid }) => Some(
                if result == 0 {
                    TransitionView { next: JobState::InChild { pid }, plan: self.child_plan(pid) }
                } else if result < 0 {
                    TransitionView {
                        next: JobState::Aborted,
                        plan: seq![
                            Action::Report { notice: Notice::ProcessCreationFailed },
                            Action::Abort,
                        ],
                    }
                } else {
                    TransitionView {
                        next: JobState::ChildForeground { child: result },
                        plan: self.hand_off_plan(result),
                    }
                },
            ),
            (JobState::ChildForeground { child }, JobEvent::HandedOff) => Some(
                TransitionView {
                    next: JobState::Waiting { child },
                    plan: seq![Action::Wait { pid: child }],
                },
            ),
            (JobState::Waiting { child }, JobEvent::Waited { result }) => Some(
                TransitionView { next: JobState::Idle, plan: self.reclaim_plan(result) },
            ),
            _ => None,
        }
    }

    /// Whether the terminal's foreground group in `w` is the one that `state`
    /// calls for: the child's group, which is the group of the child's own
    /// id, while a child is in the foreground, and the interpreter's group
    /// otherwise.
    pub open spec fn owns_terminal(&self, state: JobState, w: World) -> bool {
        match state {
            JobState::Idle | JobState::Launching | JobState::Aborted => w.foreground
                == self.shell_pgid,
            JobState::ChildForeground { child } | JobState::Waiting { child } => {
                &&& w.foreground == child
                &&& w.groups.contains_key(child as int)
                &&& w.groups[child as int] == child
            },
            JobState::InChild { pid } => {
                &&& w.foreground == pid
                &&& w.groups.contains_key(pid as int)
                &&& w.groups[pid as int] == pid
            },
        }
    }

    /// Takes one step of the state machine: the transition that `event`
    /// causes in `state`, or `None` when `state` does not await `event`.
    pub fn step(&self, state: JobState, event: JobEvent) -> (r: Option<Transition>)
        ensures
            r.is_some() == self.job_step(state, event).is_some(),
            r matches Some(t) ==> self.job_step(state, event) == Some(t@),
    {
        match (state, event) {
            (JobState::Idle, JobEvent::Launch) => {
                let mut plan: Vec<Action> = Vec::new();
                plan.push(Action::Fork);
                assert(plan@ =~= seq![Action::Fork]);
                Some(Transition { next: JobState::Launching, plan })
            },
            (JobState::Launching, JobEvent::Forked { result, pid }) => {
                if result == 0 {
                    let plan = self.child_actions(pid);
                    Some(Transition { next: JobState::InChild { pid }, plan })
                } else if result < 0 {
                    let mut plan: Vec<Action> = Vec::new();
                    plan.push(Action::Report { notice: Notice::ProcessCreationFailed });
                    plan.push(Action::Abort);
                    assert(plan@ =~= seq![
                        Action::Report { notice: Notice::ProcessCreationFailed },
                        Action::Abort,
                    ]);
                    Some(Transition { next: JobState::Aborted, plan })
                } else {
                    let plan = self.hand_off_actions(result);
                    Some(Transition { next: JobState::ChildForeground { child: result }, plan })
                }
            },
            (JobState::ChildForeground { child }, JobEvent::HandedOff) => {
                let mut plan: Vec<Action> = Vec::new();
                plan.push(Action::Wait { pid: child });
                assert(plan@ =~= seq![Action::Wait { pid: child }]);
                Some(Transition { next: JobState::Waiting { child }, plan })
            },
            (JobState::Waiting { child }, JobEvent::Waited { result }) => {
                let mut plan: Vec<Action> = Vec::new();
                if result == -1 {
                    plan.push(Action::Report { notice: Notice::WaitFailed });
                }
                plan.push(
                    Action::SetForeground { terminal: self.shell_terminal, pgid: self.shell_pgid },
                );
                assert(plan@ =~= self.reclaim_plan(result));
                Some(Transition { next: JobState::Idle, plan })
            },
            _ => None,
        }
    }

    /// A vector that holds `hand_off_plan(child)`.
    pub fn hand_off_actions(&self, child: i32) -> (plan: Vec<Action>)
        ensures
            plan@ == self.hand_off_plan(child),
    {
        let mut plan: Vec<Action> = Vec::new();
        plan.push(Action::SetProcessGroup { pid: child, pgid: child });
        plan.push(Action::SetForeground { terminal: self.shell_terminal, pgid: child });
        assert(plan@ =~= self.hand_off_plan(child));
        plan
    }

    /// A vector that holds `child_plan(pid)`.
    pub fn child_actions(&self, pid: i32) -> (plan: Vec<Action>)
        ensures
            plan@ == self.child_plan(pid),
    {
        let mut plan = self.hand_off_actions(pid);
        let mut signals = signal_actions(Disposition::Default);
        plan.append(&mut signals);
        plan.push(Action::Exec);
        plan.push(Action::Exit { code: 1 });
        assert(plan@ =~= self.child_plan(pid));
        plan
    }
}

/// What the hand-off plan achieves: the child is in the group of its own id,
/// and that group is the terminal's foreground group.
pub proof fn lemma_hand_off(shell: Shell, child: i32, w: World)
    ensures
        run(shell.hand_off_plan(child), w) == (World {
            foreground: child as int,
            groups: w.groups.insert(child as int, child as int),
            ..w
        }),
{
    let plan = shell.hand_off_plan(child);
    reveal_with_fuel(run, 3);
    assert(plan.drop_last().len() == 1);
    assert(plan.drop_last().drop_last().len() == 0);
}

/// What the reclaim plan achieves: the interpreter's group is the terminal's
/// foreground group again, whether or not the wait failed.
pub proof fn lemma_reclaim(shell: Shell, result: i32, w: World)
    ensures
        run(shell.reclaim_plan(result), w) == (World { foreground: shell.shell_pgid as int, ..w }),
{
    let plan = shell.reclaim_plan(result);
    reveal_with_fuel(run, 3);
    if result == -1 {
        assert(plan.drop_last().len() == 1);
        assert(plan.drop_last().drop_last().len() == 0);
    } else {
        assert(plan.drop_last().len() == 0);
    }
}

/// Only the launch of a command asks for a process, and it asks for exactly
/// one.
pub proof fn law_one_process_per_launch(shell: Shell, state: JobState, event: JobEvent)
    requires
        shell.job_step(state, event) is Some,
    ensures
        forks(shell.job_step(state, event).unwrap().plan) == if state is Idle {
            1nat
        } else {
            0nat
        },
{
    let plan = shell.job_step(state, event).unwrap().plan;
    reveal_with_fuel(forks, 3);
    match (state, event) {
        (JobState::Idle, JobEvent::Launch) => {
            assert(plan.drop_last().len() == 0);
        },
        (JobState::Launching, JobEvent::Forked { result, pid }) => {
            if result == 0 {
                lemma_child_plan_forks(shell, pid);
            } else {
                assert(plan.drop_last().len() == 1);
                assert(plan.drop_last().drop_last().len() == 0);
            }
        },
        (JobState::ChildForeground { child }, JobEvent::HandedOff) => {
            assert(plan.drop_last().len() == 0);
        },
        (JobState::Waiting { child }, JobEvent::Waited { result }) => {
            if result == -1 {
                assert(plan.drop_last().len() == 1);
                assert(plan.drop_last().drop_last().len() == 0);
            } else {
                assert(plan.drop_last().len() == 0);
            }
        },
        _ => {},
    }
}

/// The child's plan asks for no process.
pub proof fn lemma_child_plan_forks(shell: Shell, pid: i32)
    ensures
        forks(shell.child_plan(pid)) == 0,
{
    let plan = shell.child_plan(pid);
    assert(plan.len() == 9);
    assert forall|i: int| 0 <= i < plan.len() implies !(#[trigger] plan[i] is Fork) by {}
    lemma_no_fork(plan);
}

/// A plan without a `Fork` action asks for no process.
pub proof fn lemma_no_fork(plan: Seq<Action>)
    requires
        forall|i: int| 0 <= i < plan.len() ==> !(#[trigger] plan[i] is Fork),
    ensures
        forks(plan) == 0,
    decreases plan.len(),
{
    if plan.len() > 0 {
        assert(!(plan[plan.len() - 1] is Fork));
        assert forall|i: int| 0 <= i < plan.drop_last().len() implies !(
        #[trigger] plan.drop_last()[i] is Fork) by {
            assert(plan.drop_last()[i] == plan[i]);
        }
        lemma_no_fork(plan.drop_last());
    }
}

/// Every transition keeps the terminal with the group that the state calls
/// for: if the foreground group is right for `state` before the step, then
/// after the plan of the step it is right for the next state.
pub proof fn law_single_foreground_owner(shell: Shell, state: JobState, event: JobEvent, w: World)
    requires
        shell.owns_terminal(state, w),
        shell.job_step(state, event) is Some,
    ensures
        shell.owns_terminal(
            shell.job_step(state, event).unwrap().next,
            run(shell.job_step(state, event).unwrap().plan, w),
        ),
{
    let t = shell.job_step(state, event).unwrap();
    reveal_with_fuel(run, 3);
    match (state, event) {
        (JobState::Idle, JobEvent::Launch) => {
            assert(t.plan.drop_last().len() == 0);
        },
        (JobState::Launching, JobEvent::Forked { result, pid }) => {
            if result == 0 {
                law_child_plan(shell, pid, w);
            } else if result < 0 {
                assert(t.plan.drop_last().len() == 1);
                assert(t.plan.drop_last().drop_last().len() == 0);
            } else {
                lemma_hand_off(shell, result, w);
            }
        },
        (JobState::ChildForeground { child }, JobEvent::HandedOff) => {
            assert(t.plan.drop_last().len() == 0);
        },
        (JobState::Waiting { child }, JobEvent::Waited { result }) => {
            lemma_reclaim(shell, result, w);
        },
        _ => {},
    }
}

/// What the child's plan achieves in the child: it is in the group of its
/// own id, that group is the terminal's foreground group, and every
/// job-control signal has its default disposition, whatever the child
/// inherited. The plan ends with the command's image and, after it, the exit
/// with status 1.
pub proof fn law_child_plan(shell: Shell, pid: i32, w: World)
    ensures
        run(shell.child_plan(pid), w).foreground == pid,
        run(shell.child_plan(pid), w).groups.contains_key(pid as int),
        run(shell.child_plan(pid), w).groups[pid as int] == pid,
        forall|signal: Signal|
            is_job_control(signal) ==> {
                &&& #[trigger] run(shell.child_plan(pid), w).dispositions.contains_key(signal)
                &&& run(shell.child_plan(pid), w).dispositions[signal] == Disposition::Default
            },
        shell.child_plan(pid).len() == 9,
        shell.child_plan(pid)[7] == Action::Exec,
        shell.child_plan(pid)[8] == (Action::Exit { code: 1 }),
{
    let head = shell.hand_off_plan(pid);
    let signals = signal_plan(Disposition::Default);
    let tail = seq![Action::Exec, Action::Exit { code: 1 }];
    lemma_hand_off(shell, pid, w);
    lemma_run_concat(head, signals, w);
    lemma_signal_plan(Disposition::Default, run(head, w));
    lemma_run_concat(head + signals, tail, w);
    let settled = run(signals, run(head, w));
    assert(run(tail, settled) == settled) by {
        reveal_with_fuel(run, 3);
        assert(tail.drop_last().len() == 1);
        assert(tail.drop_last().drop_last().len() == 0);
    }
    assert(run(shell.child_plan(pid), w) == settled);
    assert forall|signal: Signal| is_job_control(signal) implies {
        &&& #[trigger] run(shell.child_plan(pid), w).dispositions.contains_key(signal)
        &&& run(shell.child_plan(pid), w).dispositions[signal] == Disposition::Default
    } by {
        assert(settled.dispositions.contains_key(signal));
    }
}

/// No state is skipped: a transition leads from each state to the one that
/// follows it in the life of a foreground command, and to no other. In
/// particular the machine waits only for a child that has the terminal, and
/// becomes idle only by taking the terminal back after a wait.
pub proof fn law_states_in_order(shell: Shell, state: JobState, event: JobEvent)
    requires
        shell.job_step(state, event) is Some,
    ensures
        ({
            let next = shell.job_step(state, event).unwrap().next;
            match state {
                JobState::Idle => next is Launching,
                JobState::Launching => {
                    ||| next is ChildForeground
                    ||| next is InChild
                    ||| next is Aborted
                },
                JobState::ChildForeground { child } => next == (JobState::Waiting { child }),
                JobState::Waiting { child } => next is Idle && shell.job_step(
                    state,
                    event,
                ).unwrap().plan.last() == (Action::SetForeground {
                    terminal: shell.shell_terminal,
                    pgid: shell.shell_pgid,
                }),
                JobState::InChild { .. } | JobState::Aborted => false,
            }
        }),
{
}

/// The machine is never stuck: the event that a state awaits always causes a
/// transition.
pub proof fn law_awaited_event_is_taken(shell: Shell, state: JobState, result: i32, pid: i32)
    requires
        state.awaited(result, pid) is Some,
    ensures
        shell.job_step(state, state.awaited(result, pid).unwrap()) is Some,
{
}

/// The state in which the machine rests after a launch, when process
/// creation returns `fork_result` in the process `pid` and the wait returns
/// `wait_result`, each event being the one that the state of the moment
/// awaits.
pub open spec fn rest_after_launch(
    shell: Shell,
    fork_result: i32,
    pid: i32,
    wait_result: i32,
) -> JobState {
    let launching = shell.job_step(JobState::Idle, JobEvent::Launch).unwrap().next;
    let forked = shell.job_step(
        launching,
        launching.awaited(fork_result, pid).unwrap(),
    ).unwrap().next;
    match forked.awaited(0, pid) {
        None => forked,
        Some(handed_off) => {
            let waiting = shell.job_step(forked, handed_off).unwrap().next;
            shell.job_step(waiting, waiting.awaited(wait_result, pid).unwrap()).unwrap().next
        },
    }
}

/// Every launch comes to rest: in the interpreter with the machine idle again
/// when a child was created, in the child on its way to becoming the
/// command, or with the interpreter aborted when no process could be
/// created.
pub proof fn law_launch_comes_to_rest(shell: Shell, fork_result: i32, pid: i32, wait_result: i32)
    ensures
        rest_after_launch(shell, fork_result, pid, wait_result).awaited(0, pid) is None,
        fork_result > 0 ==> rest_after_launch(shell, fork_result, pid, wait_result) is Idle,
        fork_result == 0 ==> rest_after_launch(shell, fork_result, pid, wait_result) == (
        JobState::InChild { pid }),
        fork_result < 0 ==> rest_after_launch(shell, fork_result, pid, wait_result) is Aborted,
{
}

/// How many of `events` are launches.
pub open spec fn launches(events: Seq<JobEvent>) -> nat
    decreases events.len(),
{
    if events.len() == 0 {
        0
    } else {
        launches(events.drop_last()) + if events.last() is Launch {
            1nat
        } else {
            0nat
        }
    }
}

/// The state and the world after the state machine, started in `state` and
/// `w`, took a step for each of `events` in order and every plan was carried
/// out; `None` when some event came that the state of the moment did not
/// await.
pub open spec fn job_run(shell: Shell, state: JobState, events: Seq<JobEvent>, w: World) -> Option<
    (JobState, World),
>
    decreases events.len(),
{
    if events.len() == 0 {
        Some((state, w))
    } else {
        match job_run(shell, state, events.drop_last(), w) {
            Some((before, world)) => match shell.job_step(before, events.last()) {
                Some(t) => Some((t.next, run(t.plan, world))),
                None => None,
            },
            None => None,
        }
    }
}

/// At all times exactly one process group owns the terminal: whatever
/// happens, in whatever order, the foreground group is the interpreter's
/// while no child is in the foreground, and the group of the one child while
/// there is one.
pub proof fn law_foreground_invariant(
    shell: Shell,
    state: JobState,
    events: Seq<JobEvent>,
    w: World,
)
    requires
        shell.owns_terminal(state, w),
        job_run(shell, state, events, w) is Some,
    ensures
        shell.owns_terminal(
            job_run(shell, state, events, w).unwrap().0,
            job_run(shell, state, events, w).unwrap().1,
        ),
    decreases events.len(),
{
    if events.len() > 0 {
        law_foreground_invariant(shell, state, events.drop_last(), w);
        let (before, world) = job_run(shell, state, events.drop_last(), w).unwrap();
        law_single_foreground_owner(shell, before, events.last(), world);
    }
}

/// The interpreter attempts exactly one process creation for each command
/// that it launches, and none otherwise.
pub proof fn law_processes_match_launches(
    shell: Shell,
    state: JobState,
    events: Seq<JobEvent>,
    w: World,
)
    requires
        job_run(shell, state, events, w) is Some,
    ensures
        job_run(shell, state, events, w).unwrap().1.created == w.created + launches(events),
    decreases events.len(),
{
    if events.len() > 0 {
        law_processes_match_launches(shell, state, events.drop_last(), w);
        let (before, world) = job_run(shell, state, events.drop_last(), w).unwrap();
        let t = shell.job_step(before, events.last()).unwrap();
        law_one_process_per_launch(shell, before, events.last());
        lemma_run_created(t.plan, world);
    }
}

/// The terminal goes to the child and comes back. For a command whose
/// process was created, with the interpreter's group in the foreground
/// before the launch: creating the process leaves the terminal with the
/// interpreter; from the hand-off until the wait returns the child's group is
/// the foreground group; and once the wait has returned, failed or not, the
/// interpreter's group is the foreground group again and the machine is idle.
pub proof fn law_foreground_round_trip(
    shell: Shell,
    child: i32,
    pid: i32,
    wait_result: i32,
    w: World,
)
    requires
        child > 0,
        w.foreground == shell.shell_pgid,
    ensures
        ({
            let launch = shell.job_step(JobState::Idle, JobEvent::Launch).unwrap();
            let w1 = run(launch.plan, w);
            let forked = shell.job_step(
                launch.next,
                JobEvent::Forked { result: child, pid },
            ).unwrap();
            let w2 = run(forked.plan, w1);
            let handed = shell.job_step(forked.next, JobEvent::HandedOff).unwrap();
            let w3 = run(handed.plan, w2);
            let waited = shell.job_step(
                handed.next,
                JobEvent::Waited { result: wait_result },
            ).unwrap();
            let w4 = run(waited.plan, w3);
            &&& launch.next == JobState::Launching && w1.foreground == shell.shell_pgid
            &&& forked.next == (JobState::ChildForeground { child }) && w2.foreground == child
            &&& handed.next == (JobState::Waiting { child }) && w3.foreground == child
            &&& waited.next == JobState::Idle && w4.foreground == shell.shell_pgid
            &&& w4.created == w.created + 1
        }),
{
    let launch = shell.job_step(JobState::Idle, JobEvent::Launch).unwrap();
    let w1 = run(launch.plan, w);
    let forked = shell.job_step(launch.next, JobEvent::Forked { result: child, pid }).unwrap();
    let w2 = run(forked.plan, w1);
    let handed = shell.job_step(forked.next, JobEvent::HandedOff).unwrap();
    let w3 = run(handed.plan, w2);
    let waited = shell.job_step(handed.next, JobEvent::Waited { result: wait_result }).unwrap();
    reveal_with_fuel(run, 2);
    assert(launch.plan.drop_last().len() == 0);
    assert(handed.plan.drop_last().len() == 0);
    lemma_hand_off(shell, child, w1);
    lemma_reclaim(shell, wait_result, w3);
}

/// From startup on, an interactive session never leaves the terminal without
/// its one owner: after the startup plan, and after any run of the state
/// machine that follows it, the foreground group is the one that the state
/// calls for.
pub proof fn law_session_keeps_terminal(shell: Shell, events: Seq<JobEvent>, w: World)
    requires
        shell.shell_is_interactive,
        job_run(shell, JobState::Idle, events, run(shell.startup_plan(), w)) is Some,
    ensures
        shell.owns_terminal(JobState::Idle, run(shell.startup_plan(), w)),
        shell.owns_terminal(
            job_run(shell, JobState::Idle, events, run(shell.startup_plan(), w)).unwrap().0,
            job_run(shell, JobState::Idle, events, run(shell.startup_plan(), w)).unwrap().1,
        ),
{
    law_startup_claims_terminal(shell, w);
    law_foreground_invariant(shell, JobState::Idle, events, run(shell.startup_plan(), w));
}

} // verus!

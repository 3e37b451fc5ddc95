use simple_shell::action::{signal_actions, Action, Disposition, Notice, Signal, TerminalModes};
use simple_shell::job::{JobEvent, JobState};
use simple_shell::shell::{Shell, TERMINAL};

fn modes() -> TerminalModes {
    let mut control_chars = [0u8; 32];
    control_chars[0] = 3;
    control_chars[1] = 28;
    TerminalModes {
        input_flags: 0x4500,
        output_flags: 5,
        control_flags: 0xbf,
        local_flags: 0x8a3b,
        line_discipline: 0,
        control_chars,
        input_speed: 15,
        output_speed: 15,
    }
}

fn shell() -> Shell {
    Shell::init(1, 100, modes(), None).0
}

fn signals(disposition: Disposition) -> Vec<Action> {
    vec![
        Action::SetSignal { signal: Signal::Interrupt, disposition },
        Action::SetSignal { signal: Signal::Quit, disposition },
        Action::SetSignal { signal: Signal::TerminalStop, disposition },
        Action::SetSignal { signal: Signal::TerminalInput, disposition },
        Action::SetSignal { signal: Signal::TerminalOutput, disposition },
    ]
}

struct Terminal {
    foreground: i32,
    created: u32,
    seen: Vec<i32>,
}

fn carry_out(plan: &[Action], terminal: &mut Terminal) {
    for action in plan.iter() {
        match action {
            Action::Fork => terminal.created += 1,
            Action::SetForeground { pgid, .. } => terminal.foreground = *pgid,
            _ => {}
        }
        terminal.seen.push(terminal.foreground);
    }
}

#[test]
fn init_of_an_interactive_session_claims_the_terminal() {
    let (shell, plan) = Shell::init(1, 100, modes(), Some(String::from("foo>")));

    assert!(shell.shell_is_interactive);
    assert_eq!(100, shell.shell_pgid);
    assert_eq!(modes(), shell.shell_tmodes);
    assert_eq!(TERMINAL, shell.shell_terminal);
    assert_eq!(0, shell.shell_terminal);
    assert_eq!("foo>", shell.prompt);
    let mut expected = vec![
        Action::SetProcessGroup { pid: 100, pgid: 100 },
        Action::SetForeground { terminal: 0, pgid: 100 },
    ];
    expected.extend(signals(Disposition::Ignore));
    assert_eq!(expected, plan);
}

#[test]
fn init_without_a_terminal_sets_up_nothing() {
    let (shell, plan) = Shell::init(0, 100, modes(), None);

    assert!(!shell.shell_is_interactive);
    assert_eq!(100, shell.shell_pgid);
    assert_eq!("shell>", shell.prompt);
    assert_eq!(Vec::<Action>::new(), plan);

    let (other, plan) = Shell::init(-1, 7, modes(), None);
    assert!(!other.shell_is_interactive);
    assert!(plan.is_empty());

    let (other, plan) = Shell::init(2, 7, modes(), None);
    assert!(!other.shell_is_interactive);
    assert!(plan.is_empty());
}

#[test]
fn destroy_restores_and_ends_the_interpreter() {
    let plan = shell().destroy();

    let mut expected = vec![
        Action::SetForeground { terminal: 0, pgid: 100 },
        Action::SetTerminalModes { terminal: 0, modes: modes() },
    ];
    expected.extend(signals(Disposition::Default));
    expected.push(Action::Kill { pid: 100, signal: Signal::Terminate });
    assert_eq!(expected, plan);
}

#[test]
fn signal_actions_go_through_the_five_signals() {
    assert_eq!(signals(Disposition::Ignore), signal_actions(Disposition::Ignore));
    assert_eq!(signals(Disposition::Default), signal_actions(Disposition::Default));
}

#[test]
fn launch_asks_for_one_process() {
    let t = shell().step(JobState::Idle, JobEvent::Launch).unwrap();

    assert_eq!(JobState::Launching, t.next);
    assert_eq!(vec![Action::Fork], t.plan);
}

#[test]
fn the_interpreter_hands_the_terminal_to_its_child() {
    let t = shell().step(JobState::Launching, JobEvent::Forked { result: 321, pid: 100 }).unwrap();

    assert_eq!(JobState::ChildForeground { child: 321 }, t.next);
    assert_eq!(
        vec![
            Action::SetProcessGroup { pid: 321, pgid: 321 },
            Action::SetForeground { terminal: 0, pgid: 321 },
        ],
        t.plan
    );
}

#[test]
fn the_child_takes_the_terminal_and_becomes_the_command() {
    let t = shell().step(JobState::Launching, JobEvent::Forked { result: 0, pid: 321 }).unwrap();

    assert_eq!(JobState::InChild { pid: 321 }, t.next);
    let mut expected = vec![
        Action::SetProcessGroup { pid: 321, pgid: 321 },
        Action::SetForeground { terminal: 0, pgid: 321 },
    ];
    expected.extend(signals(Disposition::Default));
    expected.push(Action::Exec);
    expected.push(Action::Exit { code: 1 });
    assert_eq!(expected, t.plan);
    assert_eq!(expected, shell().child_actions(321));
}

#[test]
fn a_failed_process_creation_is_reported_and_ends_the_interpreter() {
    let t = shell().step(JobState::Launching, JobEvent::Forked { result: -1, pid: 100 }).unwrap();

    assert_eq!(JobState::Aborted, t.next);
    assert_eq!(
        vec![Action::Report { notice: Notice::ProcessCreationFailed }, Action::Abort],
        t.plan
    );
}

#[test]
fn after_the_hand_off_the_interpreter_waits_for_its_child() {
    let t = shell().step(JobState::ChildForeground { child: 321 }, JobEvent::HandedOff).unwrap();

    assert_eq!(JobState::Waiting { child: 321 }, t.next);
    assert_eq!(vec![Action::Wait { pid: 321 }], t.plan);
}

#[test]
fn after_the_wait_the_interpreter_takes_the_terminal_back() {
    let waited = JobEvent::Waited { result: 321 };
    let t = shell().step(JobState::Waiting { child: 321 }, waited).unwrap();

    assert_eq!(JobState::Idle, t.next);
    assert_eq!(vec![Action::SetForeground { terminal: 0, pgid: 100 }], t.plan);
}

#[test]
fn a_failed_wait_is_reported_and_the_terminal_is_taken_back_all_the_same() {
    let waited = JobEvent::Waited { result: -1 };
    let t = shell().step(JobState::Waiting { child: 321 }, waited).unwrap();

    assert_eq!(JobState::Idle, t.next);
    assert_eq!(
        vec![
            Action::Report { notice: Notice::WaitFailed },
            Action::SetForeground { terminal: 0, pgid: 100 },
        ],
        t.plan
    );
}

#[test]
fn an_event_that_the_state_does_not_await_causes_no_transition() {
    let states = [
        JobState::Idle,
        JobState::Launching,
        JobState::ChildForeground { child: 5 },
        JobState::Waiting { child: 5 },
        JobState::InChild { pid: 5 },
        JobState::Aborted,
    ];
    let events = [
        JobEvent::Launch,
        JobEvent::Forked { result: 5, pid: 100 },
        JobEvent::HandedOff,
        JobEvent::Waited { result: 5 },
    ];
    let mut accepted: u32 = 0;
    for (i, state) in states.iter().enumerate() {
        for (j, event) in events.iter().enumerate() {
            let t = shell().step(*state, *event);
            if i < 4 && i == j {
                assert!(t.is_some());
                accepted += 1;
            } else {
                assert!(t.is_none(), "state {:?} event {:?}", state, event);
            }
        }
    }
    assert_eq!(4, accepted);
}

#[test]
fn the_terminal_goes_to_the_child_and_comes_back() {
    let shell = shell();
    let mut terminal = Terminal { foreground: 100, created: 0, seen: Vec::new() };
    let events = [
        JobEvent::Launch,
        JobEvent::Forked { result: 321, pid: 100 },
        JobEvent::HandedOff,
        JobEvent::Waited { result: 321 },
    ];
    let mut state = JobState::Idle;
    let mut owners: Vec<i32> = Vec::new();
    for event in events.iter() {
        let t = shell.step(state, *event).unwrap();
        carry_out(&t.plan, &mut terminal);
        state = t.next;
        owners.push(terminal.foreground);
    }

    assert_eq!(JobState::Idle, state);
    assert_eq!(vec![100, 321, 321, 100], owners);
    assert_eq!(1, terminal.created);
    assert!(terminal.seen.iter().all(|g| *g == 100 || *g == 321));
}

#[test]
fn the_terminal_comes_back_when_the_wait_fails() {
    let shell = shell();
    let mut terminal = Terminal { foreground: 100, created: 0, seen: Vec::new() };
    let events = [
        JobEvent::Launch,
        JobEvent::Forked { result: 9, pid: 100 },
        JobEvent::HandedOff,
        JobEvent::Waited { result: -1 },
    ];
    let mut state = JobState::Idle;
    for event in events.iter() {
        let t = shell.step(state, *event).unwrap();
        carry_out(&t.plan, &mut terminal);
        state = t.next;
    }

    assert_eq!(JobState::Idle, state);
    assert_eq!(100, terminal.foreground);
    assert_eq!(1, terminal.created);
}

#[test]
fn several_commands_in_a_row_each_create_one_process() {
    let shell = shell();
    let mut terminal = Terminal { foreground: 100, created: 0, seen: Vec::new() };
    let mut state = JobState::Idle;
    let mut child: i32 = 200;
    while child < 205 {
        let events = [
            JobEvent::Launch,
            JobEvent::Forked { result: child, pid: 100 },
            JobEvent::HandedOff,
            JobEvent::Waited { result: child },
        ];
        for event in events.iter() {
            let t = shell.step(state, *event).unwrap();
            carry_out(&t.plan, &mut terminal);
            state = t.next;
        }
        assert_eq!(JobState::Idle, state);
        assert_eq!(100, terminal.foreground);
        child += 1;
    }

    assert_eq!(5, terminal.created);
}

#[test]
fn hand_off_actions_name_the_child_twice() {
    assert_eq!(
        vec![
            Action::SetProcessGroup { pid: 77, pgid: 77 },
            Action::SetForeground { terminal: 0, pgid: 77 },
        ],
        shell().hand_off_actions(77)
    );
}

#[test]
fn each_state_reports_the_event_that_it_awaits() {
    assert_eq!(
        Some(JobEvent::Forked { result: 9, pid: 100 }),
        JobState::Launching.report(9, 100)
    );
    assert_eq!(Some(JobEvent::HandedOff), JobState::ChildForeground { child: 9 }.report(0, 100));
    assert_eq!(
        Some(JobEvent::Waited { result: -1 }),
        JobState::Waiting { child: 9 }.report(-1, 100)
    );
    assert_eq!(None, JobState::Idle.report(0, 100));
    assert_eq!(None, JobState::InChild { pid: 9 }.report(0, 9));
    assert_eq!(None, JobState::Aborted.report(-1, 100));
}

#[test]
fn a_launch_driven_by_reports_comes_to_rest() {
    let shell = shell();
    let outcomes = [(321, 100, 321, JobState::Idle), (321, 100, -1, JobState::Idle),
        (0, 321, 0, JobState::InChild { pid: 321 }), (-1, 100, 0, JobState::Aborted)];
    for (fork_result, pid, wait_result, rest) in outcomes.iter() {
        let mut state = JobState::Idle;
        let mut event = JobEvent::Launch;
        let mut steps: u32 = 0;
        while let Some(t) = shell.step(state, event) {
            steps += 1;
            state = t.next;
            let result = match t.plan.last() {
                Some(Action::Fork) => *fork_result,
                Some(Action::Wait { .. }) => *wait_result,
                _ => 0,
            };
            match state.report(result, *pid) {
                Some(next) => event = next,
                None => break,
            }
        }
        assert_eq!(*rest, state);
        assert!(steps <= 4);
    }
}

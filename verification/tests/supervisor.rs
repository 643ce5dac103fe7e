use toomuch::job::{
    suspend_and_prompt, Action, ChildStatus, Event, Job, JobSignal, Phase, Supervisor, TIMED_OUT,
};
use toomuch::prompt::Input;
use toomuch::signal::ResizeFlag;
use toomuch::terminal::{
    ApplyWhen, ModeBits, ModeFlags, TermAttrs, TermWrite, TerminalState,
};
use toomuch::timeout::{parse_duration, run, start, Timeout};

type Raw = [u8; 4];

const BITS: ModeBits = ModeBits { canonical: 0o2, echo: 0o10, cr_to_nl: 0o400, nl_to_crnl: 0o4 };

const JOB: Job = Job { fd: 0, parent: 100, child: 200 };

fn editor() -> TermAttrs<Raw> {
    TermAttrs { flags: ModeFlags { input: 0, output: 0o1, local: 0o100000 }, rest: [1, 2, 3, 4] }
}

fn cooked_editor() -> TermAttrs<Raw> {
    TermAttrs { flags: ModeFlags { input: 0o400, output: 0o1, local: 0o100012 }, rest: [1, 2, 3, 4] }
}

fn sane_editor() -> TermAttrs<Raw> {
    TermAttrs { flags: ModeFlags { input: 0o400, output: 0o5, local: 0o100012 }, rest: [1, 2, 3, 4] }
}

fn begin(deadline: &str) -> Supervisor<Raw> {
    let (sup, actions) = start::<Raw>(JOB, parse_duration(deadline).unwrap(), BITS);
    assert_eq!(
        actions,
        vec![
            Action::SetGroup { pid: 200, group: 200 },
            Action::IgnoreTtou,
            Action::SetForeground { fd: 0, group: 200 },
            Action::Poll,
        ]
    );
    sup
}

fn running(elapsed: u128) -> Event<Raw> {
    Event::Polled { status: ChildStatus::Running, elapsed }
}

fn exited(code: Option<i32>, elapsed: u128) -> Event<Raw> {
    Event::Polled { status: ChildStatus::Exited(code), elapsed }
}

fn line(text: &str) -> Event<Raw> {
    Event::Input(Input::Line(text.to_string()))
}

fn suspension() -> Vec<Action<Raw>> {
    vec![
        Action::SignalGroup { group: 200, signal: JobSignal::Stop },
        Action::IgnoreTtou,
        Action::SetForeground { fd: 0, group: 100 },
        Action::QueryAttrs { fd: 0 },
    ]
}

/// Takes the supervisor from the start to the prompt waiting for a line.
fn at_prompt(attrs: Option<TermAttrs<Raw>>) -> Supervisor<Raw> {
    let mut sup = begin("1");
    assert_eq!(run(&mut sup, running(999)), vec![Action::Poll]);
    assert_eq!(run(&mut sup, running(1000)), suspension());
    run(&mut sup, Event::Attrs(attrs));
    assert_eq!(sup.phase, Phase::Reading(TerminalState { fd: 0, saved: attrs }));
    sup
}

#[test]
fn start_state() {
    let sup = begin("2m");
    assert_eq!(
        sup,
        Supervisor {
            job: JOB,
            deadline: Timeout { millis: 120_000 },
            bits: BITS,
            phase: Phase::Running,
            prompted: false,
            resize: ResizeFlag { pending: false },
        }
    );
}

#[test]
fn child_that_exits_in_time_gives_its_exit_code() {
    let mut sup = begin("5");
    for elapsed in [0, 10, 20, 4_999] {
        assert_eq!(run(&mut sup, running(elapsed)), vec![Action::Poll]);
        assert_eq!(sup.phase, Phase::Running);
        assert!(!sup.prompted);
    }
    assert_eq!(
        run(&mut sup, exited(Some(3), 4_999)),
        vec![
            Action::IgnoreTtou,
            Action::SetForeground { fd: 0, group: 100 },
            Action::Exit { code: 3 },
        ]
    );
    assert_eq!(sup.phase, Phase::Exited(3));
    assert!(!sup.prompted);
}

#[test]
fn exit_without_code_is_zero() {
    let mut sup = begin("5");
    let actions = run(&mut sup, exited(None, 1));
    assert_eq!(actions.last(), Some(&Action::Exit { code: 0 }));
    assert_eq!(sup.phase, Phase::Exited(0));
}

#[test]
fn exit_is_looked_at_before_the_deadline() {
    let mut sup = begin("1");
    let actions = run(&mut sup, exited(Some(7), 60_000));
    assert_eq!(actions.last(), Some(&Action::Exit { code: 7 }));
    assert!(!sup.prompted);
}

#[test]
fn deadline_suspends_in_order() {
    let mut sup = begin("1");
    assert_eq!(
        run(&mut sup, running(1_000)),
        vec![
            Action::SignalGroup { group: 200, signal: JobSignal::Stop },
            Action::IgnoreTtou,
            Action::SetForeground { fd: 0, group: 100 },
            Action::QueryAttrs { fd: 0 },
        ]
    );
    assert_eq!(sup.phase, Phase::Capturing);
    assert!(sup.prompted);

    assert_eq!(
        run(&mut sup, Event::Attrs(Some(editor()))),
        vec![
            Action::ApplyAttrs(TermWrite { fd: 0, when: ApplyWhen::Drain, attrs: cooked_editor() }),
            Action::DrawPrompt,
            Action::ReadLine,
        ]
    );
    assert_eq!(sup.phase, Phase::Reading(TerminalState { fd: 0, saved: Some(editor()) }));
}

#[test]
fn zero_deadline_prompts_on_first_poll() {
    let mut sup = begin("0");
    assert_eq!(run(&mut sup, running(0)), suspension());
}

#[test]
fn resume_scenario_ends_with_child_exit_code() {
    // a command that runs five seconds under a deadline of one
    let mut sup = at_prompt(Some(editor()));
    assert_eq!(
        run(&mut sup, line("r\n")),
        vec![
            Action::DrawGuide,
            Action::ApplyAttrs(TermWrite { fd: 0, when: ApplyWhen::Drain, attrs: editor() }),
            Action::IgnoreTtou,
            Action::SetForeground { fd: 0, group: 200 },
            Action::SignalGroup { group: 200, signal: JobSignal::Continue },
            Action::Poll,
        ]
    );
    assert_eq!(sup.phase, Phase::Running);
    for elapsed in [2_000, 3_000, 4_990] {
        assert_eq!(run(&mut sup, running(elapsed)), vec![Action::Poll]);
    }
    assert_eq!(
        run(&mut sup, exited(Some(0), 5_000)),
        vec![
            Action::IgnoreTtou,
            Action::SetForeground { fd: 0, group: 100 },
            Action::Exit { code: 0 },
        ]
    );
    assert_eq!(sup.phase, Phase::Exited(0));
}

#[test]
fn close_scenario_ends_with_timed_out() {
    let mut sup = at_prompt(Some(editor()));
    assert_eq!(
        run(&mut sup, line("c\n")),
        vec![Action::KillChild, Action::QueryAttrs { fd: 0 }]
    );
    assert_eq!(sup.phase, Phase::Resetting);
    assert_eq!(
        run(&mut sup, Event::Attrs(Some(cooked_editor()))),
        vec![
            Action::IgnoreTtou,
            Action::SetForeground { fd: 0, group: 100 },
            Action::ApplyAttrs(TermWrite { fd: 0, when: ApplyWhen::Drain, attrs: sane_editor() }),
            Action::KillNotice,
            Action::Exit { code: 124 },
        ]
    );
    assert_eq!(sup.phase, Phase::Exited(124));
    assert_eq!(TIMED_OUT, 124);
}

#[test]
fn close_is_trimmed_and_case_insensitive() {
    for text in ["c", "C", " c ", "\tC\r\n", "c\n"] {
        let mut sup = at_prompt(Some(editor()));
        assert_eq!(
            run(&mut sup, line(text)),
            vec![Action::KillChild, Action::QueryAttrs { fd: 0 }]
        );
        let actions = run(&mut sup, Event::Attrs(None));
        assert_eq!(
            actions,
            vec![
                Action::IgnoreTtou,
                Action::SetForeground { fd: 0, group: 100 },
                Action::KillNotice,
                Action::Exit { code: 124 },
            ]
        );
    }
}

#[test]
fn other_input_resumes() {
    for text in ["", "\n", "r", "x\n", "cc", "close", "no"] {
        let mut sup = at_prompt(Some(editor()));
        let actions = run(&mut sup, line(text));
        assert_eq!(actions.first(), Some(&Action::DrawGuide));
        assert_eq!(actions.last(), Some(&Action::Poll));
        assert!(!actions.contains(&Action::KillChild));
        assert_eq!(sup.phase, Phase::Running);
    }
}

#[test]
fn failed_read_resumes() {
    let mut sup = at_prompt(Some(editor()));
    let actions = run(&mut sup, Event::Input(Input::Failed));
    assert_eq!(actions.len(), 6);
    assert_eq!(actions[1], Action::ApplyAttrs(TermWrite { fd: 0, when: ApplyWhen::Drain, attrs: editor() }));
    assert_eq!(sup.phase, Phase::Running);
}

#[test]
fn prompt_appears_once_in_a_run() {
    let mut sup = at_prompt(Some(editor()));
    run(&mut sup, line("r"));
    assert!(sup.prompted);
    for elapsed in [1_001, 2_000, 1_000_000, u128::MAX] {
        assert_eq!(run(&mut sup, running(elapsed)), vec![Action::Poll]);
        assert_eq!(sup.phase, Phase::Running);
    }
}

#[test]
fn snapshot_survives_redraws_and_retries() {
    let mut sup = at_prompt(Some(editor()));
    run(&mut sup, Event::Resized);
    run(&mut sup, Event::Input(Input::Interrupted));
    run(&mut sup, Event::Input(Input::Interrupted));
    let actions = run(&mut sup, line("r"));
    assert_eq!(actions[1], Action::ApplyAttrs(TermWrite { fd: 0, when: ApplyWhen::Drain, attrs: editor() }));
}

#[test]
fn suspend_and_resume_leave_the_terminal_as_it_was() {
    // a terminal that does what it is asked
    let before = editor();
    let mut attrs = before;
    let mut foreground = 200;
    let mut sup = begin("1");
    let mut events = vec![line("r\n"), Event::Attrs(Some(before)), running(1_000)];
    let mut cooked_seen = false;
    while let Some(event) = events.pop() {
        for action in run(&mut sup, event) {
            match action {
                Action::ApplyAttrs(write) => attrs = write.attrs,
                Action::SetForeground { group, .. } => foreground = group,
                Action::ReadLine => {
                    cooked_seen = attrs == cooked_editor() && foreground == 100;
                }
                _ => {}
            }
        }
    }
    assert!(cooked_seen);
    assert_eq!(attrs, before);
    assert_eq!(foreground, 200);
    assert_eq!(sup.phase, Phase::Running);
}

#[test]
fn missing_snapshot_skips_restoration() {
    let mut sup = at_prompt(None);
    assert_eq!(
        run(&mut sup, line("r")),
        vec![
            Action::DrawGuide,
            Action::IgnoreTtou,
            Action::SetForeground { fd: 0, group: 200 },
            Action::SignalGroup { group: 200, signal: JobSignal::Continue },
            Action::Poll,
        ]
    );
}

#[test]
fn unreadable_attributes_skip_cooking() {
    let mut sup = begin("1");
    run(&mut sup, running(1_000));
    assert_eq!(run(&mut sup, Event::Attrs(None)), vec![Action::DrawPrompt, Action::ReadLine]);
    assert_eq!(sup.phase, Phase::Reading(TerminalState { fd: 0, saved: None }));
}

#[test]
fn resize_redraws_once_before_reading_again() {
    let mut sup = at_prompt(Some(editor()));
    assert_eq!(run(&mut sup, Event::Resized), vec![]);
    assert_eq!(run(&mut sup, Event::Resized), vec![]);
    assert!(sup.resize.pending);
    assert_eq!(
        run(&mut sup, Event::Input(Input::Interrupted)),
        vec![Action::DrawPrompt, Action::ReadLine]
    );
    assert!(!sup.resize.pending);
    assert_eq!(run(&mut sup, Event::Input(Input::Interrupted)), vec![Action::ReadLine]);
    assert_eq!(sup.phase, Phase::Reading(TerminalState { fd: 0, saved: Some(editor()) }));
}

#[test]
fn resize_before_the_prompt_draws_it_twice() {
    let mut sup = begin("1");
    run(&mut sup, Event::Resized);
    run(&mut sup, running(1_000));
    assert_eq!(
        run(&mut sup, Event::Attrs(None)),
        vec![Action::DrawPrompt, Action::DrawPrompt, Action::ReadLine]
    );
}

#[test]
fn events_that_are_not_awaited_change_nothing() {
    let mut sup = begin("1");
    let before = sup;
    assert_eq!(run(&mut sup, Event::Attrs(Some(editor()))), vec![]);
    assert_eq!(run(&mut sup, line("c")), vec![]);
    assert_eq!(sup, before);

    let mut waiting = at_prompt(Some(editor()));
    let before = waiting;
    assert_eq!(run(&mut waiting, running(5_000)), vec![]);
    assert_eq!(run(&mut waiting, exited(Some(1), 5_000)), vec![]);
    assert_eq!(run(&mut waiting, Event::Attrs(None)), vec![]);
    assert_eq!(waiting, before);

    let mut done = begin("1");
    run(&mut done, exited(Some(2), 5));
    let before = done;
    assert_eq!(run(&mut done, running(5_000)), vec![]);
    assert_eq!(run(&mut done, line("c")), vec![]);
    assert_eq!(done, before);
}

#[test]
fn suspend_cycle_ignores_polls() {
    let mut sup = begin("1");
    let before = sup;
    assert_eq!(suspend_and_prompt(&mut sup, Some(running(10_000))), vec![]);
    assert_eq!(suspend_and_prompt(&mut sup, Some(Event::Resized)), vec![]);
    assert_eq!(sup, before);
}

#[test]
fn suspend_cycle_begins_with_the_stop() {
    let mut sup = begin("1");
    assert_eq!(suspend_and_prompt(&mut sup, None), suspension());
    assert_eq!(sup.phase, Phase::Capturing);
    // once begun it does not begin again
    let before = sup;
    assert_eq!(suspend_and_prompt(&mut sup, None), vec![]);
    assert_eq!(sup, before);
}

#[test]
fn only_the_two_groups_get_the_terminal() {
    let mut sup = begin("1");
    let events = vec![
        running(10),
        Event::Resized,
        running(1_000),
        Event::Attrs(Some(editor())),
        Event::Input(Input::Interrupted),
        line("resume"),
        running(2_000),
        exited(None, 3_000),
    ];
    let mut all: Vec<Action<Raw>> = Vec::new();
    for event in events {
        all.extend(run(&mut sup, event));
    }
    let mut handed = 0;
    for (i, action) in all.iter().enumerate() {
        if let Action::SetForeground { fd, group } = action {
            assert_eq!(*fd, 0);
            assert!(*group == 100 || *group == 200);
            assert_eq!(all[i - 1], Action::IgnoreTtou);
            handed += 1;
        }
    }
    assert_eq!(handed, 3);
    assert_eq!(all.last(), Some(&Action::Exit { code: 0 }));
}

#[test]
fn every_write_waits_for_pending_output() {
    for answer in ["c\n", "r\n"] {
        let mut sup = begin("1");
        let events = vec![
            running(1_000),
            Event::Attrs(Some(editor())),
            line(answer),
            Event::Attrs(Some(cooked_editor())),
        ];
        let mut writes = 0;
        for event in events {
            for action in run(&mut sup, event) {
                if let Action::ApplyAttrs(write) = action {
                    assert_eq!(write.when, ApplyWhen::Drain);
                    writes += 1;
                }
            }
        }
        assert_eq!(writes, 2);
    }
}

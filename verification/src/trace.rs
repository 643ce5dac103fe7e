//! Runs of the supervisor: what holds of every sequence of events that it
//! may be told.

use crate::job::{
    apply, awaiting_input, handoff, Action, ChildStatus, Event, Job, JobSignal, Phase, Supervisor,
    TIMED_OUT,
};
use crate::prompt::{is_close, prompt_turn, Input};
use crate::terminal::{
    reset_actions, reset_write, sane, ApplyWhen, ModeBits, TermAttrs, TermWrite, TerminalState,
};
use crate::timeout::{exit_code, started, step, Timeout};
use vstd::prelude::*;

verus! {

/// What the supervisor's phase and its latch have to do with each other:
/// the prompt is never under way without the latch being set.
pub open spec fn well_formed<S>(sup: Supervisor<S>) -> bool {
    sup.prompted || sup.phase is Running || sup.phase is Exited
}

/// The supervisor after it was told `events`, one after the other.
pub open spec fn after<S: Copy>(sup: Supervisor<S>, events: Seq<Event<S>>) -> Supervisor<S>
    decreases events.len(),
{
    if events.len() == 0 {
        sup
    } else {
        after(step(sup, events[0]).0, events.drop_first())
    }
}

/// All that the supervisor asked for while it was told `events`.
pub open spec fn emitted<S: Copy>(sup: Supervisor<S>, events: Seq<Event<S>>) -> Seq<Action<S>>
    decreases events.len(),
{
    if events.len() == 0 {
        Seq::empty()
    } else {
        step(sup, events[0]).1 + emitted(step(sup, events[0]).0, events.drop_first())
    }
}

/// Whether `event` takes the supervisor from outside the wait for the user's
/// choice into it.
pub open spec fn enters_prompt<S: Copy>(sup: Supervisor<S>, event: Event<S>) -> bool {
    !awaiting_input(sup.phase) && awaiting_input(step(sup, event).0.phase)
}

/// How often the supervisor enters the wait for the user's choice while it
/// is told `events`.
pub open spec fn prompts<S: Copy>(sup: Supervisor<S>, events: Seq<Event<S>>) -> nat
    decreases events.len(),
{
    if events.len() == 0 {
        0
    } else {
        (if enters_prompt(sup, events[0]) {
            1nat
        } else {
            0nat
        }) + prompts(step(sup, events[0]).0, events.drop_first())
    }
}

/// Whether `event` is none that could bring up the prompt or end the run: a
/// poll among them finds the command running, before the deadline.
pub open spec fn is_early<S>(event: Event<S>, deadline: Timeout) -> bool {
    match event {
        Event::Polled { status, elapsed } => status is Running && elapsed < deadline.millis,
        _ => true,
    }
}

/// Whether `input` makes the prompt choose to resume: a failed read, or a
/// line that does not ask to close.
pub open spec fn resumes(input: Input) -> bool {
    match input {
        Input::Line(text) => !is_close(text@),
        Input::Failed => true,
        Input::Interrupted => false,
    }
}

/// A step never clears the latch, never changes the job, the deadline or the
/// mode bits, keeps the state well formed, and enters the wait for the
/// user's choice only from the running phase with the latch not set, which
/// it then sets.
pub proof fn lemma_step_keeps_latch<S: Copy>(sup: Supervisor<S>, event: Event<S>)
    ensures
        sup.prompted ==> step(sup, event).0.prompted,
        well_formed(sup) ==> well_formed(step(sup, event).0),
        enters_prompt(sup, event) ==> sup.phase is Running && !sup.prompted && step(
            sup,
            event,
        ).0.prompted,
        step(sup, event).0.job == sup.job,
        step(sup, event).0.deadline == sup.deadline,
        step(sup, event).0.bits == sup.bits,
{
}

/// However many events come, and however often the command is polled, the
/// supervisor enters the wait for the user's choice at most once; and not at
/// all once the latch is set.
pub proof fn lemma_prompts_at_most_once<S: Copy>(sup: Supervisor<S>, events: Seq<Event<S>>)
    requires
        well_formed(sup),
    ensures
        prompts(sup, events) <= 1,
        sup.prompted ==> prompts(sup, events) == 0,
    decreases events.len(),
{
    if events.len() > 0 {
        lemma_step_keeps_latch(sup, events[0]);
        lemma_prompts_at_most_once(step(sup, events[0]).0, events.drop_first());
    }
}

/// If a poll finds the command running when the deadline has passed, and the
/// prompt was not due before, the supervisor enters the wait for the user's
/// choice on that poll, and exactly once in the run, whatever follows.
pub proof fn lemma_prompts_once_when_due<S: Copy>(
    sup: Supervisor<S>,
    elapsed: u128,
    rest: Seq<Event<S>>,
)
    requires
        sup.phase is Running,
        !sup.prompted,
        elapsed >= sup.deadline.millis,
    ensures
        ({
            let poll = Event::<S>::Polled { status: ChildStatus::Running, elapsed };
            &&& enters_prompt(sup, poll)
            &&& prompts(sup, seq![poll] + rest) == 1
        }),
{
    let poll = Event::<S>::Polled { status: ChildStatus::Running, elapsed };
    let events = seq![poll] + rest;
    assert(events[0] == poll);
    assert(events.drop_first() =~= rest);
    lemma_step_keeps_latch(sup, poll);
    lemma_prompts_at_most_once(step(sup, poll).0, rest);
}

/// While every poll finds the command running before the deadline, the
/// supervisor stays in the running phase, never enters the wait for the
/// user's choice, and asks for nothing that touches the job or the terminal.
pub proof fn lemma_runs_on_before_deadline<S: Copy>(sup: Supervisor<S>, events: Seq<Event<S>>)
    requires
        sup.phase is Running,
        forall|i: int| 0 <= i < events.len() ==> is_early(#[trigger] events[i], sup.deadline),
    ensures
        prompts(sup, events) == 0,
        after(sup, events).phase is Running,
        after(sup, events).prompted == sup.prompted,
        after(sup, events).job == sup.job,
        after(sup, events).deadline == sup.deadline,
        forall|k: int|
            0 <= k < emitted(sup, events).len() ==> #[trigger] emitted(sup, events)[k]
                == Action::<S>::Poll,
    decreases events.len(),
{
    if events.len() > 0 {
        let next = step(sup, events[0]).0;
        assert(is_early(events[0], sup.deadline));
        let rest = events.drop_first();
        assert forall|i: int| 0 <= i < rest.len() implies is_early(
            #[trigger] rest[i],
            next.deadline,
        ) by {
            assert(rest[i] == events[i + 1]);
        }
        lemma_runs_on_before_deadline(next, rest);
    }
}

/// If the command exits before its time is up, that is, every poll before
/// the one that finds it exited found it running before the deadline, the
/// supervisor never enters the wait for the user's choice, hands the
/// terminal back to its own group, and leaves with the command's exit
/// status, or 0 where it has none.
pub proof fn lemma_exit_before_deadline<S: Copy>(
    sup: Supervisor<S>,
    events: Seq<Event<S>>,
    code: Option<i32>,
    elapsed: u128,
)
    requires
        sup.phase is Running,
        forall|i: int| 0 <= i < events.len() ==> is_early(#[trigger] events[i], sup.deadline),
    ensures
        ({
            let exit = Event::<S>::Polled { status: ChildStatus::Exited(code), elapsed };
            &&& prompts(sup, events.push(exit)) == 0
            &&& after(sup, events.push(exit)).phase == Phase::<S>::Exited(exit_code(code))
            &&& step(after(sup, events), exit).1 == handoff::<S>(sup.job.fd, sup.job.parent)
                + seq![Action::Exit { code: exit_code(code) }]
        }),
    decreases events.len(),
{
    let exit = Event::<S>::Polled { status: ChildStatus::Exited(code), elapsed };
    let all = events.push(exit);
    if events.len() == 0 {
        assert(all[0] == exit);
        assert(all.drop_first() =~= Seq::<Event<S>>::empty());
        assert(after(step(sup, exit).0, all.drop_first()) == step(sup, exit).0);
        assert(prompts(step(sup, exit).0, all.drop_first()) == 0);
    } else {
        let next = step(sup, events[0]).0;
        assert(is_early(events[0], sup.deadline));
        let rest = events.drop_first();
        assert forall|i: int| 0 <= i < rest.len() implies is_early(
            #[trigger] rest[i],
            next.deadline,
        ) by {
            assert(rest[i] == events[i + 1]);
        }
        assert(all[0] == events[0]);
        assert(all.drop_first() =~= rest.push(exit));
        lemma_exit_before_deadline(next, rest, code, elapsed);
    }
}

/// A line that asks to close kills the command; once the terminal's
/// attributes have come the terminal is reset, the notice is written, and
/// the supervisor leaves with `TIMED_OUT`.
pub proof fn lemma_close_kills_and_times_out<S: Copy>(
    sup: Supervisor<S>,
    line: String,
    live: Option<TermAttrs<S>>,
)
    requires
        sup.phase is Reading,
        is_close(line@),
    ensures
        ({
            let killed = step(sup, Event::Input(Input::Line(line)));
            let done = step(killed.0, Event::Attrs(live));
            &&& killed.0.phase is Resetting
            &&& killed.1 == seq![Action::<S>::KillChild, Action::QueryAttrs { fd: sup.job.fd }]
            &&& done.0.phase == Phase::<S>::Exited(TIMED_OUT)
            &&& done.1 == reset_actions(sup.job.fd, sup.job.parent, live, sup.bits) + seq![
                Action::KillNotice,
                Action::Exit { code: TIMED_OUT },
            ]
        }),
{
}

/// Any input but a line that asks to close resumes the command: the
/// guidance is drawn, the snapshot is put back exactly as it was captured,
/// the terminal goes to the command's group, the group is continued, and
/// polling goes on. The command is not killed and the supervisor does not
/// leave.
pub proof fn lemma_other_input_resumes<S: Copy>(
    sup: Supervisor<S>,
    term: TerminalState<S>,
    input: Input,
)
    requires
        sup.phase == Phase::Reading(term),
        resumes(input),
    ensures
        ({
            let resumed = step(sup, Event::Input(input));
            &&& resumed.0.phase is Running
            &&& resumed.0.prompted == sup.prompted
            &&& resumed.1 == seq![Action::<S>::DrawGuide] + apply(term.restoring_write())
                + handoff::<S>(sup.job.fd, sup.job.child) + seq![
                Action::SignalGroup { group: sup.job.child, signal: JobSignal::Continue },
                Action::Poll,
            ]
            &&& forall|k: int|
                0 <= k < resumed.1.len() ==> #[trigger] resumed.1[k] != Action::<S>::KillChild
                    && !(resumed.1[k] is Exit)
        }),
{
}

/// What the actions are about: the attributes of the terminal, and the
/// process group in its foreground.
pub struct Terminal<S> {
    pub attrs: TermAttrs<S>,
    pub foreground: i32,
}

/// The terminal once the first `count` of `actions` were carried out: a
/// write replaces the attributes, a hand-over the foreground group, and
/// nothing else changes either.
pub open spec fn performed<S>(terminal: Terminal<S>, actions: Seq<Action<S>>, count: nat) -> Terminal<
    S,
>
    decreases count,
{
    if count == 0 {
        terminal
    } else {
        let before = performed(terminal, actions, (count - 1) as nat);
        match actions[count - 1] {
            Action::ApplyAttrs(w) => Terminal { attrs: w.attrs, foreground: before.foreground },
            Action::SetForeground { fd, group } => Terminal {
                attrs: before.attrs,
                foreground: group,
            },
            _ => before,
        }
    }
}

/// The terminal once all of `actions` were carried out.
pub open spec fn terminal_after<S>(terminal: Terminal<S>, actions: Seq<Action<S>>) -> Terminal<S> {
    performed(terminal, actions, actions.len())
}

/// Whether every hand-over among `actions` is one of the terminal `job.fd`
/// to one of the job's two groups, with the stop on terminal output
/// switched off right before it.
pub open spec fn hands_over_safely<S>(actions: Seq<Action<S>>, job: Job) -> bool {
    forall|i: int|
        0 <= i < actions.len() ==> (#[trigger] actions[i] matches Action::SetForeground {
            fd,
            group,
        } ==> {
            &&& i > 0
            &&& actions[i - 1] == Action::<S>::IgnoreTtou
            &&& fd == job.fd
            &&& (group == job.parent || group == job.child)
        })
}

proof fn lemma_performed_prefix<S>(
    terminal: Terminal<S>,
    first: Seq<Action<S>>,
    second: Seq<Action<S>>,
    count: nat,
)
    requires
        count <= first.len(),
    ensures
        performed(terminal, first + second, count) == performed(terminal, first, count),
    decreases count,
{
    if count > 0 {
        lemma_performed_prefix(terminal, first, second, (count - 1) as nat);
        assert((first + second)[count - 1] == first[count - 1]);
    }
}

proof fn lemma_performed_suffix<S>(
    terminal: Terminal<S>,
    first: Seq<Action<S>>,
    second: Seq<Action<S>>,
    count: nat,
)
    requires
        count <= second.len(),
    ensures
        performed(terminal, first + second, first.len() + count) == performed(
            terminal_after(terminal, first),
            second,
            count,
        ),
    decreases count,
{
    if count == 0 {
        lemma_performed_prefix(terminal, first, second, first.len());
    } else {
        lemma_performed_suffix(terminal, first, second, (count - 1) as nat);
        assert((first + second)[first.len() + count - 1] == second[count - 1]);
    }
}

/// Carrying out two lists one after the other is carrying out the second on
/// what the first has left.
pub proof fn lemma_terminal_after_both<S>(
    terminal: Terminal<S>,
    first: Seq<Action<S>>,
    second: Seq<Action<S>>,
)
    ensures
        terminal_after(terminal, first + second) == terminal_after(
            terminal_after(terminal, first),
            second,
        ),
{
    lemma_performed_suffix(terminal, first, second, second.len());
}

/// A hand-over leaves the terminal with the group in its foreground, and
/// its attributes as they were.
pub proof fn lemma_terminal_after_handoff<S>(terminal: Terminal<S>, fd: i32, group: i32)
    ensures
        terminal_after(terminal, handoff::<S>(fd, group)) == (Terminal {
            attrs: terminal.attrs,
            foreground: group,
        }),
{
    reveal_with_fuel(performed, 3);
}

/// A write leaves the terminal with the attributes written, and nothing
/// written leaves it as it was.
pub proof fn lemma_terminal_after_apply<S>(terminal: Terminal<S>, write: Option<TermWrite<S>>)
    ensures
        terminal_after(terminal, apply(write)) == (Terminal {
            attrs: match write {
                Some(w) => w.attrs,
                None => terminal.attrs,
            },
            foreground: terminal.foreground,
        }),
{
    reveal_with_fuel(performed, 2);
}

/// Actions that neither write attributes nor hand the terminal over leave
/// it as it was.
pub proof fn lemma_terminal_after_others<S>(terminal: Terminal<S>, actions: Seq<Action<S>>)
    requires
        forall|i: int|
            0 <= i < actions.len() ==> !(#[trigger] actions[i] is ApplyAttrs) && !(actions[i]
                is SetForeground),
    ensures
        terminal_after(terminal, actions) == terminal,
{
    lemma_performed_others(terminal, actions, actions.len());
}

proof fn lemma_performed_others<S>(terminal: Terminal<S>, actions: Seq<Action<S>>, count: nat)
    requires
        count <= actions.len(),
        forall|i: int|
            0 <= i < actions.len() ==> !(#[trigger] actions[i] is ApplyAttrs) && !(actions[i]
                is SetForeground),
    ensures
        performed(terminal, actions, count) == terminal,
    decreases count,
{
    if count > 0 {
        lemma_performed_others(terminal, actions, (count - 1) as nat);
        assert(!(actions[count - 1] is ApplyAttrs) && !(actions[count - 1] is SetForeground));
    }
}

/// From the snapshot to the command going on: whether or not the prompt was
/// redrawn, once the user has chosen to resume the terminal has exactly the
/// attributes that were captured right before it was switched to cooked
/// mode, and the command's group is in the foreground again.
pub proof fn lemma_resume_puts_snapshot_back<S: Copy>(
    sup: Supervisor<S>,
    saved: TermAttrs<S>,
    input: Input,
    terminal: Terminal<S>,
)
    requires
        sup.phase is Capturing,
        resumes(input),
    ensures
        ({
            let events = seq![Event::Attrs(Some(saved)), Event::Input(input)];
            &&& after(sup, events).phase is Running
            &&& terminal_after(terminal, emitted(sup, events)) == (Terminal {
                attrs: saved,
                foreground: sup.job.child,
            })
        }),
{
    let e1 = Event::<S>::Attrs(Some(saved));
    let e2 = Event::<S>::Input(input);
    let events = seq![e1, e2];
    let s2 = step(sup, e1);
    let s3 = step(s2.0, e2);
    let rest2 = seq![e2];
    assert(events.drop_first() =~= rest2);
    assert(rest2.drop_first() =~= Seq::<Event<S>>::empty());
    assert(events[0] == e1 && rest2[0] == e2);
    assert(emitted(s3.0, rest2.drop_first()) =~= Seq::<Action<S>>::empty());
    assert(emitted(s2.0, rest2) =~= s3.1);
    assert(emitted(sup, events) =~= s2.1 + s3.1);
    assert(after(s3.0, rest2.drop_first()) == s3.0);
    assert(after(s2.0, rest2) == s3.0);
    assert(after(sup, events) == s3.0);
    let term = TerminalState { fd: sup.job.fd, saved: Some(saved) };
    assert(s2.0.phase == Phase::Reading(term));
    let t1 = terminal_after(terminal, s2.1);
    lemma_terminal_after_both(terminal, s2.1, s3.1);
    let a = seq![Action::<S>::DrawGuide];
    let b = apply(term.restoring_write());
    let c = handoff::<S>(sup.job.fd, sup.job.child);
    let d = seq![
        Action::<S>::SignalGroup { group: sup.job.child, signal: JobSignal::Continue },
        Action::Poll,
    ];
    assert(s3.1 == a + b + c + d);
    lemma_terminal_after_both(t1, a + b + c, d);
    lemma_terminal_after_both(t1, a + b, c);
    lemma_terminal_after_both(t1, a, b);
    lemma_terminal_after_others(t1, a);
    lemma_terminal_after_apply(terminal_after(t1, a), term.restoring_write());
    lemma_terminal_after_handoff(terminal_after(t1, a + b), sup.job.fd, sup.job.child);
    lemma_terminal_after_others(terminal_after(t1, a + b + c), d);
}

/// From the choice to close to the end: whatever came before, the terminal
/// is left with the supervisor's group in the foreground, and, where its
/// attributes could be read, with the cooked modes and the newline
/// translation on output switched on in them.
pub proof fn lemma_close_leaves_terminal_safe<S: Copy>(
    sup: Supervisor<S>,
    live: Option<TermAttrs<S>>,
    terminal: Terminal<S>,
)
    requires
        sup.phase is Resetting,
    ensures
        ({
            let done = step(sup, Event::Attrs(live));
            &&& done.1.last() == Action::<S>::Exit { code: TIMED_OUT }
            &&& terminal_after(terminal, done.1).foreground == sup.job.parent
            &&& terminal_after(terminal, done.1).attrs == match live {
                Some(attrs) => TermAttrs { flags: sane(attrs.flags, sup.bits), rest: attrs.rest },
                None => terminal.attrs,
            }
        }),
{
    let done = step(sup, Event::<S>::Attrs(live));
    let a = handoff::<S>(sup.job.fd, sup.job.parent);
    let write = reset_write(sup.job.fd, live, sup.bits);
    let b = apply(write);
    let c = seq![Action::<S>::KillNotice, Action::Exit { code: TIMED_OUT }];
    assert(reset_actions(sup.job.fd, sup.job.parent, live, sup.bits) =~= a + b);
    assert(done.1 =~= a + b + c);
    lemma_terminal_after_both(terminal, a + b, c);
    lemma_terminal_after_both(terminal, a, b);
    lemma_terminal_after_handoff(terminal, sup.job.fd, sup.job.parent);
    lemma_terminal_after_apply(terminal_after(terminal, a), write);
    lemma_terminal_after_others(terminal_after(terminal, a + b), c);
}

proof fn lemma_safe_both<S>(first: Seq<Action<S>>, second: Seq<Action<S>>, job: Job)
    requires
        hands_over_safely(first, job),
        hands_over_safely(second, job),
    ensures
        hands_over_safely(first + second, job),
{
    let both = first + second;
    assert forall|i: int| 0 <= i < both.len() implies (#[trigger] both[i]
        matches Action::SetForeground { fd, group } ==> {
        &&& i > 0
        &&& both[i - 1] == Action::<S>::IgnoreTtou
        &&& fd == job.fd
        &&& (group == job.parent || group == job.child)
    }) by {
        if i < first.len() {
            assert(both[i] == first[i]);
            if i > 0 {
                assert(both[i - 1] == first[i - 1]);
            }
        } else {
            assert(both[i] == second[i - first.len()]);
            if i - first.len() > 0 {
                assert(both[i - 1] == second[i - first.len() - 1]);
            }
        }
    }
}

/// At the start and on every step, the terminal is handed to no group but
/// the supervisor's and the command's, and never without the stop on
/// terminal output having been switched off right before.
pub proof fn lemma_hands_over_safely<S: Copy>(sup: Supervisor<S>, event: Event<S>)
    ensures
        hands_over_safely(step(sup, event).1, sup.job),
        hands_over_safely(started::<S>(sup.job, sup.deadline, sup.bits).1, sup.job),
{
    let job = sup.job;
    let to_parent = handoff::<S>(job.fd, job.parent);
    let to_child = handoff::<S>(job.fd, job.child);
    assert(hands_over_safely(to_parent, job));
    assert(hands_over_safely(to_child, job));
    // the start
    let group = seq![Action::<S>::SetGroup { pid: job.child, group: job.child }];
    let poll = seq![Action::<S>::Poll];
    lemma_safe_both(group, to_child, job);
    lemma_safe_both(group + to_child, poll, job);
    // the steps
    match event {
        Event::Polled { status, elapsed } => {
            if let ChildStatus::Exited(code) = status {
                lemma_safe_both(to_parent, seq![Action::<S>::Exit { code: exit_code(code) }], job);
            } else {
                let stop = seq![
                    Action::<S>::SignalGroup { group: job.child, signal: JobSignal::Stop },
                ];
                lemma_safe_both(stop, to_parent, job);
                lemma_safe_both(
                    stop + to_parent,
                    seq![Action::<S>::QueryAttrs { fd: job.fd }],
                    job,
                );
            }
        },
        Event::Attrs(attrs) => {
            match sup.phase {
                Phase::Capturing => {
                    let term = TerminalState { fd: job.fd, saved: attrs };
                    lemma_safe_both(
                        apply(term.cooked_write(attrs, sup.bits)),
                        prompt_turn::<S>(sup.resize, None).1,
                        job,
                    );
                },
                Phase::Resetting => {
                    let write = apply(reset_write(job.fd, attrs, sup.bits));
                    lemma_safe_both(to_parent, write, job);
                    lemma_safe_both(
                        to_parent + write,
                        seq![Action::<S>::KillNotice, Action::Exit { code: TIMED_OUT }],
                        job,
                    );
                    assert(reset_actions(job.fd, job.parent, attrs, sup.bits) =~= to_parent
                        + write);
                },
                _ => {},
            }
        },
        Event::Input(input) => {
            if let Phase::Reading(term) = sup.phase {
                let guide = seq![Action::<S>::DrawGuide];
                let back = apply(term.restoring_write());
                let go = seq![
                    Action::<S>::SignalGroup { group: job.child, signal: JobSignal::Continue },
                    Action::Poll,
                ];
                lemma_safe_both(guide, back, job);
                lemma_safe_both(guide + back, to_child, job);
                lemma_safe_both(guide + back + to_child, go, job);
            }
        },
        Event::Resized => {},
    }
}

/// From the time being up to the prompt: the command's group is stopped
/// before the terminal is taken back, the terminal is taken back before its
/// mode is switched, and its mode is switched before the prompt is drawn.
pub proof fn lemma_suspends_in_order<S: Copy>(
    sup: Supervisor<S>,
    elapsed: u128,
    attrs: Option<TermAttrs<S>>,
)
    requires
        sup.phase is Running,
        !sup.prompted,
        elapsed >= sup.deadline.millis,
    ensures
        ({
            let events = seq![
                Event::Polled { status: ChildStatus::Running, elapsed },
                Event::Attrs(attrs),
            ];
            let term = TerminalState { fd: sup.job.fd, saved: attrs };
            &&& after(sup, events).phase == Phase::Reading(term)
            &&& after(sup, events).prompted
            &&& emitted(sup, events) == seq![
                Action::SignalGroup { group: sup.job.child, signal: JobSignal::Stop },
            ] + handoff::<S>(sup.job.fd, sup.job.parent) + seq![
                Action::QueryAttrs { fd: sup.job.fd },
            ] + apply(term.cooked_write(attrs, sup.bits)) + prompt_turn::<S>(sup.resize, None).1
        }),
{
    let e1 = Event::<S>::Polled { status: ChildStatus::Running, elapsed };
    let e2 = Event::<S>::Attrs(attrs);
    let events = seq![e1, e2];
    let s1 = step(sup, e1);
    let s2 = step(s1.0, e2);
    let rest = seq![e2];
    assert(events.drop_first() =~= rest);
    assert(rest.drop_first() =~= Seq::<Event<S>>::empty());
    assert(events[0] == e1 && rest[0] == e2);
    assert(emitted(s2.0, rest.drop_first()) =~= Seq::<Action<S>>::empty());
    assert(emitted(s1.0, rest) =~= s2.1);
    assert(emitted(sup, events) =~= s1.1 + s2.1);
    assert(after(s2.0, rest.drop_first()) == s2.0);
    assert(after(s1.0, rest) == s2.0);
    assert(after(sup, events) == s2.0);
    let term = TerminalState { fd: sup.job.fd, saved: attrs };
    assert(s1.1 + s2.1 =~= seq![
        Action::SignalGroup { group: sup.job.child, signal: JobSignal::Stop },
    ] + handoff::<S>(sup.job.fd, sup.job.parent) + seq![Action::QueryAttrs { fd: sup.job.fd }]
        + apply(term.cooked_write(attrs, sup.bits)) + prompt_turn::<S>(sup.resize, None).1);
}

/// In a whole run, whatever the supervisor is told, every hand-over of the
/// terminal is a safe one.
pub proof fn lemma_run_hands_over_safely<S: Copy>(sup: Supervisor<S>, events: Seq<Event<S>>)
    ensures
        hands_over_safely(emitted(sup, events), sup.job),
    decreases events.len(),
{
    if events.len() > 0 {
        let next = step(sup, events[0]);
        lemma_hands_over_safely(sup, events[0]);
        lemma_step_keeps_latch(sup, events[0]);
        lemma_run_hands_over_safely(next.0, events.drop_first());
        lemma_safe_both(next.1, emitted(next.0, events.drop_first()), sup.job);
    }
}

/// While every hand-over is a safe one, the foreground group of the
/// terminal is the supervisor's or the command's at every moment, if it was
/// at the start: no other group ever gets the terminal.
pub proof fn lemma_foreground_stays_in_job<S>(
    terminal: Terminal<S>,
    actions: Seq<Action<S>>,
    job: Job,
    count: nat,
)
    requires
        hands_over_safely(actions, job),
        terminal.foreground == job.parent || terminal.foreground == job.child,
        count <= actions.len(),
    ensures
        performed(terminal, actions, count).foreground == job.parent || performed(
            terminal,
            actions,
            count,
        ).foreground == job.child,
    decreases count,
{
    if count > 0 {
        lemma_foreground_stays_in_job(terminal, actions, job, (count - 1) as nat);
        let last = actions[count - 1];
        assert(last matches Action::SetForeground { fd, group } ==> group == job.parent || group
            == job.child);
    }
}

/// Every change of the terminal's attributes that the supervisor asks for,
/// on any step, is to take effect once the pending output has been sent;
/// none is to take effect at once.
pub proof fn lemma_every_write_drains<S: Copy>(sup: Supervisor<S>, event: Event<S>)
    ensures
        forall|k: int|
            0 <= k < step(sup, event).1.len() ==> (#[trigger] step(sup, event).1[k]
                matches Action::ApplyAttrs(w) ==> w.when == ApplyWhen::Drain),
{
}

/// The supervisor leaves in two cases only: on the poll that finds the
/// command exited, with the command's exit status, and at the end of the
/// close path, with `TIMED_OUT`. Leaving is then the last thing it asks for.
pub proof fn lemma_leaves_on_exit_or_close<S: Copy>(sup: Supervisor<S>, event: Event<S>)
    ensures
        forall|k: int|
            0 <= k < step(sup, event).1.len() ==> (#[trigger] step(sup, event).1[k]
                matches Action::Exit { code } ==> {
                &&& k == step(sup, event).1.len() - 1
                &&& step(sup, event).0.phase == Phase::<S>::Exited(code)
                &&& {
                    ||| sup.phase is Running && (event matches Event::Polled {
                        status: ChildStatus::Exited(own),
                        elapsed,
                    } && code == exit_code(own))
                    ||| sup.phase is Resetting && event is Attrs && code == TIMED_OUT
                }
            }),
{
}

/// The resize events that come in while the prompt waits count as one: the
/// next read that is taken up again draws the prompt once before it, and
/// the one after that does not draw it.
pub proof fn lemma_resizes_redraw_once<S: Copy>(sup: Supervisor<S>, count: nat)
    requires
        sup.phase is Reading,
        count >= 1,
    ensures
        ({
            let resized = after(sup, Seq::new(count, |i: int| Event::<S>::Resized));
            let first = step(resized, Event::Input(Input::Interrupted));
            let second = step(first.0, Event::Input(Input::Interrupted));
            &&& emitted(sup, Seq::new(count, |i: int| Event::<S>::Resized)) == Seq::<
                Action<S>,
            >::empty()
            &&& resized == (Supervisor { resize: sup.resize.raised(), ..sup })
            &&& first.1 == seq![Action::<S>::DrawPrompt, Action::ReadLine]
            &&& second.1 == seq![Action::<S>::ReadLine]
            &&& second.0.phase == sup.phase
        }),
    decreases count,
{
    let events = Seq::new(count, |i: int| Event::<S>::Resized);
    let fewer = Seq::new((count - 1) as nat, |i: int| Event::<S>::Resized);
    let next = step(sup, Event::<S>::Resized);
    assert(events[0] == Event::<S>::Resized);
    assert(events.drop_first() =~= fewer);
    if count == 1 {
        assert(after(next.0, fewer) == next.0);
        assert(emitted(next.0, fewer) =~= Seq::<Action<S>>::empty());
    } else {
        lemma_resizes_redraw_once(next.0, (count - 1) as nat);
    }
    assert(emitted(sup, events) =~= Seq::<Action<S>>::empty());
    let resized = after(sup, events);
    assert(resized == (Supervisor { resize: sup.resize.raised(), ..sup }));
    let first = step(resized, Event::<S>::Input(Input::Interrupted));
    assert(first.1 =~= seq![Action::<S>::DrawPrompt, Action::ReadLine]);
    let second = step(first.0, Event::<S>::Input(Input::Interrupted));
    assert(second.1 =~= seq![Action::<S>::ReadLine]);
}

/// Whether `event` leaves the prompt waiting: a resize, or a read that was
/// interrupted.
pub open spec fn keeps_waiting<S>(event: Event<S>) -> bool {
    event is Resized || event == Event::<S>::Input(Input::Interrupted)
}

/// However many resizes and interrupted reads come while the prompt waits,
/// the supervisor goes on waiting with the same snapshot, and asks for
/// nothing but to draw the prompt and to read a line: the terminal and the
/// job are not touched.
pub proof fn lemma_waiting_keeps_snapshot<S: Copy>(
    sup: Supervisor<S>,
    term: TerminalState<S>,
    events: Seq<Event<S>>,
)
    requires
        sup.phase == Phase::Reading(term),
        forall|i: int| 0 <= i < events.len() ==> keeps_waiting(#[trigger] events[i]),
    ensures
        after(sup, events).phase == Phase::Reading(term),
        after(sup, events).job == sup.job,
        after(sup, events).prompted == sup.prompted,
        prompts(sup, events) == 0,
        forall|k: int|
            0 <= k < emitted(sup, events).len() ==> #[trigger] emitted(sup, events)[k]
                == Action::<S>::DrawPrompt || emitted(sup, events)[k] == Action::<S>::ReadLine,
    decreases events.len(),
{
    if events.len() > 0 {
        let next = step(sup, events[0]);
        assert(keeps_waiting(events[0]));
        let rest = events.drop_first();
        assert forall|i: int| 0 <= i < rest.len() implies keeps_waiting(#[trigger] rest[i]) by {
            assert(rest[i] == events[i + 1]);
        }
        lemma_waiting_keeps_snapshot(next.0, term, rest);
        assert forall|k: int| 0 <= k < next.1.len() implies #[trigger] next.1[k] == Action::<
            S,
        >::DrawPrompt || next.1[k] == Action::<S>::ReadLine by {}
    }
}

/// From its start the supervisor is well formed, so that in a whole run,
/// whatever it is told, the wait for the user's choice is entered at most
/// once.
pub proof fn lemma_one_prompt_in_a_run<S: Copy>(
    job: Job,
    deadline: Timeout,
    bits: ModeBits,
    events: Seq<Event<S>>,
)
    ensures
        well_formed(started::<S>(job, deadline, bits).0),
        prompts(started::<S>(job, deadline, bits).0, events) <= 1,
{
    lemma_prompts_at_most_once(started::<S>(job, deadline, bits).0, events);
}

} // verus!

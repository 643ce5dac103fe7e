//! Job control: the supervisor's state, what it is told, what it asks for,
//! and the suspend and resume cycle.
//!
//! The supervisor does nothing to the system itself. It returns a list of
//! [`Action`]s, to be carried out in order. The last of a list is a question,
//! unless it is [`Action::Exit`], and the answer comes back as the next
//! [`Event`].

use crate::prompt::{prompt_turn, prompt_user, Input, PromptAction};
use crate::signal::ResizeFlag;
use crate::terminal::{reset_actions, reset_terminal, ModeBits, TermAttrs, TermWrite, TerminalState};
use crate::timeout::Timeout;
use vstd::prelude::*;

verus! {

/// The exit status that reports a command killed after its time was up.
pub const TIMED_OUT: i32 = 124;

/// A job-control signal for the command's process group.
#[derive(Clone, Copy, Debug, PartialEq, Eq, Structural)]
pub enum JobSignal {
    /// Stop: the processes keep their memory and their files.
    Stop,
    /// Continue after a stop.
    Continue,
}

/// The terminal and the two process groups that share it.
#[derive(Clone, Copy, Debug, PartialEq, Eq, Structural)]
pub struct Job {
    /// Descriptor of the controlling terminal.
    pub fd: i32,
    /// The supervisor's process group.
    pub parent: i32,
    /// The command's process group, which is the command's process id.
    pub child: i32,
}

/// One thing for the caller to do.
#[derive(Clone, Copy, Debug, PartialEq, Eq)]
pub enum Action<S> {
    /// Put the process `pid` into the process group `group`.
    SetGroup { pid: i32, group: i32 },
    /// Have the signal that stops a background process on terminal output
    /// ignored from now on.
    IgnoreTtou,
    /// Make `group` the foreground process group of the terminal.
    SetForeground { fd: i32, group: i32 },
    /// Send `signal` to every process of `group`.
    SignalGroup { group: i32, signal: JobSignal },
    /// Kill the command.
    KillChild,
    /// Write these attributes to the terminal.
    ApplyAttrs(TermWrite<S>),
    /// Write the prompt for the terminal's present size.
    DrawPrompt,
    /// Write the resume guidance for the terminal's present size.
    DrawGuide,
    /// Write the notice that the command was killed.
    KillNotice,
    /// Leave with this exit status.
    Exit { code: i32 },
    /// Question: read the terminal's attributes. Answer: [`Event::Attrs`].
    QueryAttrs { fd: i32 },
    /// Question: read a line of input. Answer: [`Event::Input`].
    ReadLine,
    /// Question: after a short wait, has the command exited, and how long
    /// has it run? Answer: [`Event::Polled`].
    Poll,
}

/// Whether the command has exited.
#[derive(Clone, Copy, Debug, PartialEq, Eq, Structural)]
pub enum ChildStatus {
    Running,
    /// Exited, with its exit status where it has one.
    Exited(Option<i32>),
}

/// What the caller reports.
#[derive(Clone, Debug, PartialEq, Eq)]
pub enum Event<S> {
    /// The command's state, and the milliseconds since it was started.
    Polled { status: ChildStatus, elapsed: u128 },
    /// The terminal's attributes; absent where they could not be read.
    Attrs(Option<TermAttrs<S>>),
    /// How reading a line ended.
    Input(Input),
    /// The terminal's size changed. This answers no question.
    Resized,
}

/// Where the supervisor stands.
#[derive(Clone, Copy, Debug, PartialEq, Eq)]
pub enum Phase<S> {
    /// The command runs and is polled.
    Running,
    /// The time is up, the command is stopped and the terminal taken back;
    /// the attributes to save and to cook were asked for.
    Capturing,
    /// The prompt is up; a line was asked for. The snapshot is kept here.
    Reading(TerminalState<S>),
    /// The command was killed; the attributes to reset were asked for.
    Resetting,
    /// All is over, with this exit status.
    Exited(i32),
}

/// The supervisor of one command.
#[derive(Clone, Copy, Debug, PartialEq, Eq)]
pub struct Supervisor<S> {
    pub job: Job,
    /// The time after which the prompt is due.
    pub deadline: Timeout,
    pub bits: ModeBits,
    pub phase: Phase<S>,
    /// Set once the prompt was due, and never cleared: there is one prompt
    /// in a run.
    pub prompted: bool,
    pub resize: ResizeFlag,
}

/// Whether the supervisor is between the time being up and the user's
/// choice.
pub open spec fn awaiting_input<S>(phase: Phase<S>) -> bool {
    phase is Capturing || phase is Reading
}

/// The terminal handed to `group`: first the stop on terminal output is
/// switched off, then the foreground group is changed.
pub open spec fn handoff<S>(fd: i32, group: i32) -> Seq<Action<S>> {
    seq![Action::IgnoreTtou, Action::SetForeground { fd, group }]
}

/// The write, where there is one.
pub open spec fn apply<S>(write: Option<TermWrite<S>>) -> Seq<Action<S>> {
    match write {
        Some(w) => seq![Action::ApplyAttrs(w)],
        None => Seq::empty(),
    }
}

/// The supervisor with its phase changed.
pub open spec fn in_phase<S>(sup: Supervisor<S>, phase: Phase<S>) -> Supervisor<S> {
    Supervisor { phase, ..sup }
}

/// The suspend and resume cycle, one step at a time. Without an event the
/// cycle begins; an event is the answer to what the step before asked for.
///
/// - The cycle begins, in the running phase: the command's group is stopped,
///   the terminal is taken back, and its attributes are asked for.
/// - The attributes have come: they are kept as the snapshot, the terminal
///   is switched to cooked mode, and the prompt takes its first turn.
/// - A read has ended: the prompt takes a turn. If it chose to close, the
///   command is killed and the attributes to reset are asked for. If it chose
///   to resume, the guidance is drawn, the snapshot is put back, the terminal
///   is handed to the command's group, the group is continued, and polling
///   goes on.
/// - The attributes to reset have come: the terminal is reset, the notice is
///   written, and the supervisor leaves with `TIMED_OUT`.
///
/// An event that the phase does not wait for changes nothing.
pub open spec fn suspended<S: Copy>(sup: Supervisor<S>, event: Option<Event<S>>) -> (
    Supervisor<S>,
    Seq<Action<S>>,
) {
    match (sup.phase, event) {
        (Phase::Running, None) => (
            in_phase(sup, Phase::Capturing),
            seq![Action::SignalGroup { group: sup.job.child, signal: JobSignal::Stop }]
                + handoff::<S>(sup.job.fd, sup.job.parent) + seq![
                Action::QueryAttrs { fd: sup.job.fd },
            ],
        ),
        (Phase::Capturing, Some(Event::Attrs(attrs))) => (
            Supervisor {
                phase: Phase::Reading(TerminalState { fd: sup.job.fd, saved: attrs }),
                resize: prompt_turn::<S>(sup.resize, None).0,
                ..sup
            },
            apply(
                (TerminalState { fd: sup.job.fd, saved: attrs }).cooked_write(attrs, sup.bits),
            ) + prompt_turn::<S>(sup.resize, None).1,
        ),
        (Phase::Reading(term), Some(Event::Input(input))) => match prompt_turn::<S>(
            sup.resize,
            Some(input),
        ).2 {
            None => (
                Supervisor { resize: prompt_turn::<S>(sup.resize, Some(input)).0, ..sup },
                prompt_turn::<S>(sup.resize, Some(input)).1,
            ),
            Some(PromptAction::Close) => (
                in_phase(sup, Phase::Resetting),
                seq![Action::KillChild, Action::QueryAttrs { fd: sup.job.fd }],
            ),
            Some(PromptAction::Resume) => (
                in_phase(sup, Phase::Running),
                seq![Action::DrawGuide] + apply(term.restoring_write()) + handoff::<S>(
                    sup.job.fd,
                    sup.job.child,
                ) + seq![
                    Action::SignalGroup { group: sup.job.child, signal: JobSignal::Continue },
                    Action::Poll,
                ],
            ),
        },
        (Phase::Resetting, Some(Event::Attrs(live))) => (
            in_phase(sup, Phase::Exited(TIMED_OUT)),
            reset_actions(sup.job.fd, sup.job.parent, live, sup.bits) + seq![
                Action::KillNotice,
                Action::Exit { code: TIMED_OUT },
            ],
        ),
        _ => (sup, Seq::empty()),
    }
}

/// Hands the terminal behind `fd` to the process group `pgrp`: adds to
/// `actions` what that takes. The stop on terminal output is switched off
/// first, because changing the foreground group from the background would
/// stop the caller; it stays off.
pub fn give_terminal<S>(fd: i32, pgrp: i32, actions: &mut Vec<Action<S>>)
    ensures
        final(actions)@ == old(actions)@ + handoff::<S>(fd, pgrp),
{
    actions.push(Action::IgnoreTtou);
    actions.push(Action::SetForeground { fd, group: pgrp });
    assert(actions@ =~= old(actions)@ + handoff::<S>(fd, pgrp));
}

fn stop<S>(group: i32, actions: &mut Vec<Action<S>>)
    ensures
        final(actions)@ == old(actions)@.push(
            Action::SignalGroup { group, signal: JobSignal::Stop },
        ),
{
    actions.push(Action::SignalGroup { group, signal: JobSignal::Stop });
}

fn cont<S>(group: i32, actions: &mut Vec<Action<S>>)
    ensures
        final(actions)@ == old(actions)@.push(
            Action::SignalGroup { group, signal: JobSignal::Continue },
        ),
{
    actions.push(Action::SignalGroup { group, signal: JobSignal::Continue });
}

fn push_write<S>(write: Option<TermWrite<S>>, actions: &mut Vec<Action<S>>)
    ensures
        final(actions)@ == old(actions)@ + apply(write),
{
    if let Some(w) = write {
        actions.push(Action::ApplyAttrs(w));
    }
    assert(actions@ =~= old(actions)@ + apply(write));
}

/// Takes the suspend and resume cycle one step further, and returns what is
/// to be done next. Without an event the cycle begins: that is for the
/// caller who has found the time to be up and has set the latch.
pub fn suspend_and_prompt<S: Copy>(sup: &mut Supervisor<S>, event: Option<Event<S>>) -> (actions:
    Vec<Action<S>>)
    ensures
        *final(sup) == suspended(*old(sup), event).0,
        actions@ == suspended(*old(sup), event).1,
{
    let mut actions: Vec<Action<S>> = Vec::new();
    let fd = sup.job.fd;
    match (sup.phase, event) {
        (Phase::Running, None) => {
            stop(sup.job.child, &mut actions);
            give_terminal(fd, sup.job.parent, &mut actions);
            actions.push(Action::QueryAttrs { fd });
            sup.phase = Phase::Capturing;
            assert(actions@ =~= suspended(*old(sup), event).1);
        },
        (Phase::Capturing, Some(Event::Attrs(attrs))) => {
            let term = TerminalState::capture(fd, attrs);
            push_write(term.set_cooked(attrs, sup.bits), &mut actions);
            let mut flag = sup.resize;
            prompt_user(&mut flag, None, &mut actions);
            sup.resize = flag;
            sup.phase = Phase::Reading(term);
            assert(actions@ =~= suspended(*old(sup), event).1);
        },
        (Phase::Reading(term), Some(Event::Input(input))) => {
            let mut flag = sup.resize;
            match prompt_user(&mut flag, Some(input), &mut actions) {
                None => {
                    sup.resize = flag;
                    assert(actions@ =~= suspended(*old(sup), event).1);
                },
                Some(PromptAction::Close) => {
                    actions.push(Action::KillChild);
                    actions.push(Action::QueryAttrs { fd });
                    sup.phase = Phase::Resetting;
                    assert(actions@ =~= suspended(*old(sup), event).1);
                },
                Some(PromptAction::Resume) => {
                    actions.push(Action::DrawGuide);
                    push_write(term.restore(), &mut actions);
                    give_terminal(fd, sup.job.child, &mut actions);
                    cont(sup.job.child, &mut actions);
                    actions.push(Action::Poll);
                    sup.phase = Phase::Running;
                    assert(actions@ =~= suspended(*old(sup), event).1);
                },
            }
        },
        (Phase::Resetting, Some(Event::Attrs(live))) => {
            reset_terminal(fd, sup.job.parent, live, sup.bits, &mut actions);
            actions.push(Action::KillNotice);
            actions.push(Action::Exit { code: TIMED_OUT });
            sup.phase = Phase::Exited(TIMED_OUT);
            assert(actions@ =~= suspended(*old(sup), event).1);
        },
        _ => {},
    }
    actions
}

} // verus!

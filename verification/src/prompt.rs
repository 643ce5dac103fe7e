//! The prompt: drawing it, waiting for a line, and what the line decides.

use crate::job::Action;
use crate::signal::{winch_triggered, ResizeFlag};
use crate::text::{chars_of, trim_bounds, trimmed};
use vstd::prelude::*;

verus! {

/// What the user chose.
#[derive(Clone, Copy, Debug, PartialEq, Eq, Structural)]
pub enum PromptAction {
    /// Kill the command.
    Close,
    /// Let the command go on.
    Resume,
}

/// How one attempt to read a line ended.
#[derive(Clone, Debug, PartialEq, Eq)]
pub enum Input {
    /// A line was read, or the end of the input was reached: then the line
    /// is empty.
    Line(String),
    /// The wait was interrupted before a line came; it can be taken up again.
    Interrupted,
    /// Reading failed.
    Failed,
}

/// Whether a line asks to close: leaving the white space around it aside, it
/// is the letter `c`, small or capital.
pub open spec fn is_close(line: Seq<char>) -> bool {
    trimmed(line) == seq!['c'] || trimmed(line) == seq!['C']
}

/// What a line decides: to close where it asks so, and to resume on
/// anything else, the empty line included.
pub open spec fn decision(line: Seq<char>) -> PromptAction {
    if is_close(line) {
        PromptAction::Close
    } else {
        PromptAction::Resume
    }
}

/// The prompt drawn once more where a resize is pending.
pub open spec fn redraw<S>(flag: ResizeFlag) -> Seq<Action<S>> {
    if flag.consumed().0 {
        seq![Action::DrawPrompt]
    } else {
        Seq::empty()
    }
}

/// One turn of the prompt: the flag it leaves, what it asks for, and the
/// choice once there is one.
///
/// Without an input the prompt is new: it is drawn, drawn again where a
/// resize is pending, and a line is asked for. After an interrupted wait it
/// is drawn again where a resize is pending, and the line is asked for
/// again. A line decides. A failed read resumes.
pub open spec fn prompt_turn<S>(flag: ResizeFlag, input: Option<Input>) -> (
    ResizeFlag,
    Seq<Action<S>>,
    Option<PromptAction>,
) {
    match input {
        None => (
            flag.consumed().1,
            seq![Action::DrawPrompt] + redraw::<S>(flag) + seq![Action::ReadLine],
            None,
        ),
        Some(Input::Interrupted) => (
            flag.consumed().1,
            redraw::<S>(flag) + seq![Action::ReadLine],
            None,
        ),
        Some(Input::Line(text)) => (flag, Seq::empty(), Some(decision(text@))),
        Some(Input::Failed) => (flag, Seq::empty(), Some(PromptAction::Resume)),
    }
}

/// Decides on a line of input.
pub fn decide(line: &str) -> (action: PromptAction)
    ensures
        action == decision(line@),
{
    let chars = chars_of(line);
    let (start, end) = trim_bounds(&chars);
    let ghost body = trimmed(line@);
    assert(body.len() == end - start);
    if end - start == 1 && (chars[start] == 'c' || chars[start] == 'C') {
        assert(body[0] == chars@[start as int]);
        assert(body =~= seq!['c'] || body =~= seq!['C']);
        PromptAction::Close
    } else {
        proof {
            assert(seq!['c'].len() == 1 && seq!['c'][0] == 'c');
            assert(seq!['C'].len() == 1 && seq!['C'][0] == 'C');
            if end - start == 1 {
                assert(body[0] == chars@[start as int]);
            }
        }
        PromptAction::Resume
    }
}

/// Takes one turn of the prompt. `input` is absent when the prompt is first
/// shown, and afterwards holds how the last read ended. What is to be done
/// next is added to `actions`; the result is the choice, once there is one.
pub fn prompt_user<S>(
    flag: &mut ResizeFlag,
    input: Option<Input>,
    actions: &mut Vec<Action<S>>,
) -> (choice: Option<PromptAction>)
    ensures
        *final(flag) == prompt_turn::<S>(*old(flag), input).0,
        final(actions)@ == old(actions)@ + prompt_turn::<S>(*old(flag), input).1,
        choice == prompt_turn::<S>(*old(flag), input).2,
{
    match input {
        None => {
            actions.push(Action::DrawPrompt);
            if winch_triggered(flag) {
                actions.push(Action::DrawPrompt);
            }
            actions.push(Action::ReadLine);
            assert(actions@ =~= old(actions)@ + prompt_turn::<S>(*old(flag), input).1);
            None
        },
        Some(Input::Interrupted) => {
            if winch_triggered(flag) {
                actions.push(Action::DrawPrompt);
            }
            actions.push(Action::ReadLine);
            assert(actions@ =~= old(actions)@ + prompt_turn::<S>(*old(flag), input).1);
            None
        },
        Some(Input::Line(text)) => {
            assert(actions@ =~= old(actions)@ + prompt_turn::<S>(*old(flag), input).1);
            Some(decide(text.as_str()))
        },
        Some(Input::Failed) => {
            assert(actions@ =~= old(actions)@ + prompt_turn::<S>(*old(flag), input).1);
            Some(PromptAction::Resume)
        },
    }
}

} // verus!

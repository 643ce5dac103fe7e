//! The supervisor loop: the command line it starts from, the deadline, and
//! what each poll of the command leads to.

use crate::job::{
    awaiting_input, give_terminal, handoff, in_phase, suspend_and_prompt, suspended, Action,
    ChildStatus, Event, Job, Phase, Supervisor,
};
use crate::signal::ResizeFlag;
use crate::terminal::ModeBits;
use crate::text::{chars_of, trim_bounds, trimmed};
use vstd::prelude::*;
use vstd::string::*;

verus! {

/// A length of time in milliseconds.
#[derive(Clone, Copy, Debug, PartialEq, Eq, Structural)]
pub struct Timeout {
    pub millis: u128,
}

/// Why a text is no duration.
#[derive(Clone, Copy, Debug, PartialEq, Eq, Structural)]
pub enum DurationError {
    /// Nothing but white space was given.
    Empty,
    /// The text does not start with a number, or the number is beyond 64 bits.
    InvalidNumber,
    /// What follows the number is none of `s`, `m`, `h` and `ms`.
    UnknownUnit,
}

/// Whether `c` is one of the digits `0` to `9`.
pub open spec fn is_digit(c: char) -> bool {
    0x30 <= c as u32 <= 0x39
}

/// The number that the digit `c` stands for.
pub open spec fn digit_value(c: char) -> nat
    recommends
        is_digit(c),
{
    (c as u32 - 0x30) as nat
}

/// How many digits `s` starts with.
pub open spec fn digit_prefix_len(s: Seq<char>) -> nat
    decreases s.len(),
{
    if s.len() > 0 && is_digit(s[0]) {
        1 + digit_prefix_len(s.drop_first())
    } else {
        0
    }
}

/// The number that a run of digits writes in decimal; 0 for the empty run.
pub open spec fn decimal_value(digits: Seq<char>) -> nat
    decreases digits.len(),
{
    if digits.len() == 0 {
        0
    } else {
        10 * decimal_value(digits.drop_last()) + digit_value(digits.last())
    }
}

/// Milliseconds in one of the unit `unit`, where it is a unit.
pub open spec fn unit_millis(unit: Seq<char>) -> Option<nat> {
    if unit == seq!['s'] {
        Some(1000nat)
    } else if unit == seq!['m'] {
        Some(60_000nat)
    } else if unit == seq!['h'] {
        Some(3_600_000nat)
    } else if unit == seq!['m', 's'] {
        Some(1nat)
    } else {
        None
    }
}

/// The number part of a duration text that has been trimmed.
pub open spec fn number_part(text: Seq<char>) -> Seq<char> {
    text.subrange(0, digit_prefix_len(text) as int)
}

/// The unit part of a duration text that has been trimmed: what follows the
/// number, and seconds where nothing does.
pub open spec fn unit_part(text: Seq<char>) -> Seq<char> {
    if digit_prefix_len(text) == text.len() {
        seq!['s']
    } else {
        text.subrange(digit_prefix_len(text) as int, text.len() as int)
    }
}

/// What a duration text means, in milliseconds: white space around it is
/// ignored, then come the digits of a number that fits 64 bits, then a unit
/// or nothing.
pub open spec fn parsed_duration(text: Seq<char>) -> Result<nat, DurationError> {
    let body = trimmed(text);
    if body.len() == 0 {
        Err(DurationError::Empty)
    } else if digit_prefix_len(body) == 0 || decimal_value(number_part(body)) > u64::MAX {
        Err(DurationError::InvalidNumber)
    } else {
        match unit_millis(unit_part(body)) {
            Some(factor) => Ok(decimal_value(number_part(body)) * factor),
            None => Err(DurationError::UnknownUnit),
        }
    }
}

/// Digits up to a first character that is none make up the digit prefix.
pub proof fn lemma_digit_prefix_at(s: Seq<char>, count: int)
    requires
        0 <= count <= s.len(),
        forall|i: int| 0 <= i < count ==> is_digit(#[trigger] s[i]),
        count == s.len() || !is_digit(s[count]),
    ensures
        digit_prefix_len(s) == count,
    decreases count,
{
    if count > 0 {
        let rest = s.drop_first();
        assert forall|i: int| 0 <= i < count - 1 implies is_digit(#[trigger] rest[i]) by {
            assert(rest[i] == s[i + 1]);
        }
        lemma_digit_prefix_at(rest, count - 1);
    }
}

/// One more digit multiplies the value by ten and adds the digit.
pub proof fn lemma_decimal_value_step(s: Seq<char>, from: int, to: int)
    requires
        0 <= from <= to < s.len(),
    ensures
        decimal_value(s.subrange(from, to + 1)) == 10 * decimal_value(s.subrange(from, to))
            + digit_value(s[to]),
{
    let longer = s.subrange(from, to + 1);
    assert(longer.drop_last() =~= s.subrange(from, to));
    assert(longer.last() == s[to]);
}

fn is_ascii_digit(c: char) -> (digit: bool)
    ensures
        digit == is_digit(c),
{
    let n: u32 = c as u32;
    0x30 <= n && n <= 0x39
}

/// The milliseconds in one of the unit written in `chars` from `from` up to
/// `to`, where that is a unit.
fn unit_factor(chars: &Vec<char>, from: usize, to: usize) -> (factor: Option<u128>)
    requires
        from < to <= chars.len(),
    ensures
        match factor {
            Some(f) => unit_millis(chars@.subrange(from as int, to as int)) == Some(f as nat),
            None => unit_millis(chars@.subrange(from as int, to as int)) is None,
        },
        factor matches Some(f) ==> f <= 3_600_000,
{
    let ghost unit = chars@.subrange(from as int, to as int);
    proof {
        assert(unit.len() == to - from);
        assert(unit[0] == chars@[from as int]);
        if to - from >= 2 {
            assert(unit[1] == chars@[from + 1]);
        }
        assert(seq!['s'].len() == 1 && seq!['s'][0] == 's');
        assert(seq!['m'].len() == 1 && seq!['m'][0] == 'm');
        assert(seq!['h'].len() == 1 && seq!['h'][0] == 'h');
        assert(seq!['m', 's'].len() == 2 && seq!['m', 's'][0] == 'm' && seq!['m', 's'][1] == 's');
    }
    let len: usize = to - from;
    if len == 1 && chars[from] == 's' {
        assert(unit =~= seq!['s']);
        Some(1000)
    } else if len == 1 && chars[from] == 'm' {
        assert(unit =~= seq!['m']);
        Some(60_000)
    } else if len == 1 && chars[from] == 'h' {
        assert(unit =~= seq!['h']);
        Some(3_600_000)
    } else if len == 2 && chars[from] == 'm' && chars[from + 1] == 's' {
        assert(unit =~= seq!['m', 's']);
        Some(1)
    } else {
        None
    }
}

/// Reads a duration: digits, then `s` for seconds, `m` for minutes, `h` for
/// hours, `ms` for milliseconds, or nothing, which means seconds. White space
/// around the text is ignored.
pub fn parse_duration(s: &str) -> (result: Result<Timeout, DurationError>)
    ensures
        match result {
            Ok(timeout) => parsed_duration(s@) == Ok::<nat, DurationError>(timeout.millis as nat),
            Err(error) => parsed_duration(s@) == Err::<nat, DurationError>(error),
        },
{
    let chars = chars_of(s);
    let (start, end) = trim_bounds(&chars);
    let ghost body = trimmed(s@);
    assert(body.len() == end - start);
    assert(forall|i: int| 0 <= i < body.len() ==> body[i] == chars@[start + i]);
    if start == end {
        return Err(DurationError::Empty);
    }
    let mut pos: usize = start;
    let mut value: u64 = 0;
    let mut fits: bool = true;
    while pos < end && is_ascii_digit(chars[pos])
        invariant
            start <= pos <= end <= chars.len(),
            body == chars@.subrange(start as int, end as int),
            forall|i: int| 0 <= i < pos - start ==> is_digit(#[trigger] body[i]),
            fits ==> value == decimal_value(body.subrange(0, pos - start)),
            !fits ==> decimal_value(body.subrange(0, pos - start)) > u64::MAX,
        decreases end - pos,
    {
        let digit: u64 = (chars[pos] as u32 - 0x30) as u64;
        proof {
            lemma_decimal_value_step(body, 0, pos - start);
            assert(body[pos - start] == chars@[pos as int]);
        }
        if fits {
            match value.checked_mul(10) {
                Some(tens) => match tens.checked_add(digit) {
                    Some(sum) => {
                        value = sum;
                    },
                    None => {
                        fits = false;
                    },
                },
                None => {
                    fits = false;
                },
            }
        }
        pos = pos + 1;
    }
    proof {
        if pos < end {
            assert(body[pos - start] == chars@[pos as int]);
        }
        lemma_digit_prefix_at(body, pos - start);
    }
    if pos == start || !fits {
        return Err(DurationError::InvalidNumber);
    }
    assert(body.subrange(pos - start, body.len() as int) =~= chars@.subrange(
        pos as int,
        end as int,
    ));
    let factor: u128 = if pos == end {
        1000
    } else {
        match unit_factor(&chars, pos, end) {
            Some(factor) => factor,
            None => {
                return Err(DurationError::UnknownUnit);
            },
        }
    };
    assert(unit_millis(unit_part(body)) == Some(factor as nat));
    assert(value as u128 * factor <= u128::MAX) by (nonlinear_arith)
        requires
            value <= u64::MAX,
            factor <= 3_600_000,
    ;
    Ok(Timeout { millis: value as u128 * factor })
}

/// What is said of a text that is no duration.
pub open spec fn error_text(error: DurationError, text: Seq<char>) -> Seq<char> {
    match error {
        DurationError::Empty => "empty duration"@,
        DurationError::InvalidNumber => "invalid number in duration: "@ + trimmed(text),
        DurationError::UnknownUnit => "unknown duration unit: "@ + unit_part(trimmed(text)),
    }
}

/// What is said of a first argument that is no duration.
pub open spec fn invalid_timeout_text(error: DurationError, text: Seq<char>) -> Seq<char> {
    "invalid timeout: "@ + error_text(error, text)
}

/// How the program is to be called.
pub open spec fn usage_text() -> Seq<char> {
    "usage: toomuch <duration> <command> [args...]"@
}

/// Where the digits end that `chars` holds from `from` on, before `to`.
fn digits_end(chars: &Vec<char>, from: usize, to: usize) -> (end: usize)
    requires
        from <= to <= chars.len(),
    ensures
        from <= end <= to,
        end - from == digit_prefix_len(chars@.subrange(from as int, to as int)),
{
    let ghost body = chars@.subrange(from as int, to as int);
    let mut pos: usize = from;
    while pos < to && is_ascii_digit(chars[pos])
        invariant
            from <= pos <= to <= chars.len(),
            body == chars@.subrange(from as int, to as int),
            forall|i: int| 0 <= i < pos - from ==> is_digit(#[trigger] body[i]),
        decreases to - pos,
    {
        assert(body[pos - from] == chars@[pos as int]);
        pos = pos + 1;
    }
    proof {
        if pos < to {
            assert(body[pos - from] == chars@[pos as int]);
        }
        lemma_digit_prefix_at(body, pos - from);
    }
    pos
}

impl DurationError {
    /// Says why `text` is no duration, where this is the error that reading
    /// it gave.
    pub fn message(self, text: &str) -> (said: String)
        ensures
            said@ == error_text(self, text@),
    {
        let mut said = String::new();
        match self {
            DurationError::Empty => {
                said.append("empty duration");
            },
            DurationError::InvalidNumber => {
                let chars = chars_of(text);
                let (start, end) = trim_bounds(&chars);
                said.append("invalid number in duration: ");
                said.append(text.substring_char(start, end));
            },
            DurationError::UnknownUnit => {
                let chars = chars_of(text);
                let (start, end) = trim_bounds(&chars);
                let pos = digits_end(&chars, start, end);
                let ghost body = trimmed(text@);
                said.append("unknown duration unit: ");
                if pos == end {
                    proof {
                        reveal_strlit("s");
                    }
                    assert("s"@ =~= seq!['s']);
                    said.append("s");
                } else {
                    assert(body.subrange(pos - start, body.len() as int) =~= text@.subrange(
                        pos as int,
                        end as int,
                    ));
                    said.append(text.substring_char(pos, end));
                }
            },
        }
        assert(said@ =~= error_text(self, text@));
        said
    }
}

/// Says that `text`, given as the time limit, is no duration, and why.
pub fn invalid_timeout(error: DurationError, text: &str) -> (said: String)
    ensures
        said@ == invalid_timeout_text(error, text@),
{
    let mut said = String::new();
    said.append("invalid timeout: ");
    let why = error.message(text);
    said.append(why.as_str());
    assert(said@ =~= invalid_timeout_text(error, text@));
    said
}

/// Says how the program is to be called.
pub fn usage() -> (said: String)
    ensures
        said@ == usage_text(),
{
    let mut said = String::new();
    said.append("usage: toomuch <duration> <command> [args...]");
    assert(said@ =~= usage_text());
    said
}

/// The exit status that reports a command line that cannot be used.
pub const USAGE_FAILURE: i32 = 1;

/// What to start, and for how long.
#[derive(Clone, Debug, PartialEq, Eq)]
pub struct Launch {
    pub timeout: Timeout,
    pub command: String,
    pub args: Vec<String>,
}

/// Why nothing was started.
#[derive(Clone, Copy, Debug, PartialEq, Eq, Structural)]
pub enum StartError {
    /// A duration and a command are needed, and one of them is missing.
    Usage,
    /// The first argument is no duration.
    InvalidTimeout(DurationError),
}

/// Reads the command line, without the program's name: a duration, a
/// command, and the command's arguments.
pub fn launch(args: Vec<String>) -> (result: Result<Launch, StartError>)
    ensures
        match result {
            Ok(plan) => {
                &&& args.len() >= 2
                &&& parsed_duration(args[0]@) == Ok::<nat, DurationError>(
                    plan.timeout.millis as nat,
                )
                &&& plan.command == args[1]
                &&& plan.args@ == args@.subrange(2, args.len() as int)
            },
            Err(StartError::Usage) => args.len() < 2,
            Err(StartError::InvalidTimeout(error)) => {
                &&& args.len() >= 2
                &&& parsed_duration(args[0]@) == Err::<nat, DurationError>(error)
            },
        },
{
    if args.len() < 2 {
        return Err(StartError::Usage);
    }
    let mut rest = args;
    let first = rest.remove(0);
    match parse_duration(first.as_str()) {
        Ok(timeout) => {
            let command = rest.remove(0);
            assert(rest@ =~= args@.subrange(2, args.len() as int));
            Ok(Launch { timeout, command, args: rest })
        },
        Err(error) => Err(StartError::InvalidTimeout(error)),
    }
}

/// The exit status to leave with once the command has exited: its own,
/// and 0 where it has none.
pub open spec fn exit_code(code: Option<i32>) -> i32 {
    match code {
        Some(c) => c,
        None => 0,
    }
}

/// The supervisor at the start, and what it asks for first: the command gets
/// a process group of its own, then the terminal, and polling begins.
pub open spec fn started<S>(job: Job, deadline: Timeout, bits: ModeBits) -> (
    Supervisor<S>,
    Seq<Action<S>>,
) {
    (
        Supervisor {
            job,
            deadline,
            bits,
            phase: Phase::Running,
            prompted: false,
            resize: ResizeFlag { pending: false },
        },
        seq![Action::SetGroup { pid: job.child, group: job.child }] + handoff::<S>(
            job.fd,
            job.child,
        ) + seq![Action::Poll],
    )
}

/// What a poll leads to while the command runs.
///
/// The exit is looked at first: if the command has exited, the terminal goes
/// back to the supervisor's group and the supervisor leaves with the
/// command's exit status. Else, if the time is up and the prompt was not due
/// before, the latch is set and the suspend and resume cycle begins. Else
/// polling goes on. Outside the running phase a poll changes nothing.
pub open spec fn polled<S: Copy>(sup: Supervisor<S>, status: ChildStatus, elapsed: u128) -> (
    Supervisor<S>,
    Seq<Action<S>>,
) {
    match sup.phase {
        Phase::Running => match status {
            ChildStatus::Exited(code) => (
                in_phase(sup, Phase::Exited(exit_code(code))),
                handoff::<S>(sup.job.fd, sup.job.parent) + seq![
                    Action::Exit { code: exit_code(code) },
                ],
            ),
            ChildStatus::Running => if !sup.prompted && elapsed >= sup.deadline.millis {
                suspended(Supervisor { prompted: true, ..sup }, None)
            } else {
                (sup, seq![Action::Poll])
            },
        },
        _ => (sup, Seq::empty()),
    }
}

/// One step of the supervisor: the state that `event` leads to, and what is
/// to be done next. A resize is noted in the flag, in any phase. A poll is
/// handled by `polled`, and the rest by the suspend and resume cycle.
pub open spec fn step<S: Copy>(sup: Supervisor<S>, event: Event<S>) -> (
    Supervisor<S>,
    Seq<Action<S>>,
) {
    match event {
        Event::Resized => (Supervisor { resize: sup.resize.raised(), ..sup }, Seq::empty()),
        Event::Polled { status, elapsed } => polled(sup, status, elapsed),
        _ => suspended(sup, Some(event)),
    }
}

/// Sets up the supervisor of the command whose process id is `job.child`,
/// and returns it with what is to be done first.
pub fn start<S: Copy>(job: Job, deadline: Timeout, bits: ModeBits) -> (begun: (
    Supervisor<S>,
    Vec<Action<S>>,
))
    ensures
        begun.0 == started::<S>(job, deadline, bits).0,
        begun.1@ == started::<S>(job, deadline, bits).1,
{
    let mut actions: Vec<Action<S>> = Vec::new();
    actions.push(Action::SetGroup { pid: job.child, group: job.child });
    give_terminal(job.fd, job.child, &mut actions);
    actions.push(Action::Poll);
    assert(actions@ =~= started::<S>(job, deadline, bits).1);
    (
        Supervisor {
            job,
            deadline,
            bits,
            phase: Phase::Running,
            prompted: false,
            resize: ResizeFlag::new(),
        },
        actions,
    )
}

/// Runs the supervisor one step: takes in `event` and returns what is to be
/// done next, in order.
pub fn run<S: Copy>(sup: &mut Supervisor<S>, event: Event<S>) -> (actions: Vec<Action<S>>)
    ensures
        *final(sup) == step(*old(sup), event).0,
        actions@ == step(*old(sup), event).1,
{
    match event {
        Event::Resized => {
            let mut flag = sup.resize;
            flag.raise();
            sup.resize = flag;
            Vec::new()
        },
        Event::Polled { status, elapsed } => {
            let mut actions: Vec<Action<S>> = Vec::new();
            match sup.phase {
                Phase::Running => match status {
                    ChildStatus::Exited(code) => {
                        let code: i32 = match code {
                            Some(c) => c,
                            None => 0,
                        };
                        give_terminal(sup.job.fd, sup.job.parent, &mut actions);
                        actions.push(Action::Exit { code });
                        sup.phase = Phase::Exited(code);
                    },
                    ChildStatus::Running => {
                        if !sup.prompted && elapsed >= sup.deadline.millis {
                            sup.prompted = true;
                            actions = suspend_and_prompt(sup, None);
                        } else {
                            actions.push(Action::Poll);
                        }
                    },
                },
                _ => {},
            }
            assert(actions@ =~= step(*old(sup), event).1);
            actions
        },
        _ => suspend_and_prompt(sup, Some(event)),
    }
}

} // verus!

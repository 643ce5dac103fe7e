//! The terminal's mode: what is saved before the prompt, what the prompt
//! needs, and what is put back.
//!
//! Attributes are read and written by the caller. They come in as a
//! [`TermAttrs`], and what is to be written goes out as a [`TermWrite`], which
//! also says when the change is to take effect. Every write asked for here
//! takes effect once the pending output has been sent, so that neither
//! output that is not yet written nor input that is not yet read is lost.

use crate::job::{give_terminal, handoff, Action};
use vstd::prelude::*;

verus! {

/// The bits that the platform assigns to the four modes of interest.
#[derive(Clone, Copy, Debug, PartialEq, Eq, Structural)]
pub struct ModeBits {
    /// Local flag: input is handed over line by line.
    pub canonical: u64,
    /// Local flag: input is echoed.
    pub echo: u64,
    /// Input flag: a carriage return that comes in is read as a newline.
    pub cr_to_nl: u64,
    /// Output flag: a newline goes out as carriage return and newline.
    pub nl_to_crnl: u64,
}

/// The flag words of a terminal's attributes that the supervisor changes.
#[derive(Clone, Copy, Debug, PartialEq, Eq, Structural)]
pub struct ModeFlags {
    pub input: u64,
    pub output: u64,
    pub local: u64,
}

/// A terminal's attributes: the flag words, and in `rest` the complete
/// structure as the system gave it, which is carried along untouched.
#[derive(Clone, Copy, Debug, PartialEq, Eq)]
pub struct TermAttrs<S> {
    pub flags: ModeFlags,
    pub rest: S,
}

/// When a change of attributes takes effect.
#[derive(Clone, Copy, Debug, PartialEq, Eq, Structural)]
pub enum ApplyWhen {
    /// Once all output written so far has been sent.
    Drain,
    /// At once. Nothing here asks for this.
    Now,
}

/// Attributes to be written to the terminal behind `fd`.
#[derive(Clone, Copy, Debug, PartialEq, Eq)]
pub struct TermWrite<S> {
    pub fd: i32,
    pub when: ApplyWhen,
    pub attrs: TermAttrs<S>,
}

/// A snapshot of the attributes of the terminal behind `fd`; `saved` is
/// absent where they could not be read.
#[derive(Clone, Copy, Debug, PartialEq, Eq)]
pub struct TerminalState<S> {
    pub fd: i32,
    pub saved: Option<TermAttrs<S>>,
}

/// `flags` with line buffering, echo and the reading of carriage return as
/// newline switched on, and nothing else changed.
pub open spec fn cooked(flags: ModeFlags, bits: ModeBits) -> ModeFlags {
    ModeFlags {
        input: flags.input | bits.cr_to_nl,
        output: flags.output,
        local: flags.local | (bits.canonical | bits.echo),
    }
}

/// `flags` cooked, and with newline sent as carriage return and newline.
pub open spec fn sane(flags: ModeFlags, bits: ModeBits) -> ModeFlags {
    ModeFlags {
        input: flags.input | bits.cr_to_nl,
        output: flags.output | bits.nl_to_crnl,
        local: flags.local | (bits.canonical | bits.echo),
    }
}

/// Whether every bit of `mask` is set in `word`.
pub open spec fn has_bits(word: u64, mask: u64) -> bool {
    word & mask == mask
}

/// Whether `after` and `before` agree on every bit outside `mask`.
pub open spec fn same_outside(after: u64, before: u64, mask: u64) -> bool {
    after & !mask == before & !mask
}

/// The attributes that a terminal has once `write` was carried out, or was
/// not, where there was nothing to write.
pub open spec fn written<S>(current: TermAttrs<S>, write: Option<TermWrite<S>>) -> TermAttrs<S> {
    match write {
        Some(w) => w.attrs,
        None => current,
    }
}

impl ModeFlags {
    /// These flags with the cooked modes switched on.
    pub fn cook(self, bits: ModeBits) -> (flags: ModeFlags)
        ensures
            flags == cooked(self, bits),
    {
        ModeFlags {
            input: self.input | bits.cr_to_nl,
            output: self.output,
            local: self.local | (bits.canonical | bits.echo),
        }
    }

    /// These flags with the cooked modes and the newline translation on
    /// output switched on.
    pub fn reset(self, bits: ModeBits) -> (flags: ModeFlags)
        ensures
            flags == sane(self, bits),
    {
        ModeFlags {
            input: self.input | bits.cr_to_nl,
            output: self.output | bits.nl_to_crnl,
            local: self.local | (bits.canonical | bits.echo),
        }
    }
}

impl<S: Copy> TerminalState<S> {
    /// The snapshot made of `attrs`, which is what reading the attributes of
    /// the terminal behind `fd` gave: absent where reading failed.
    pub fn capture(fd: i32, attrs: Option<TermAttrs<S>>) -> (state: TerminalState<S>)
        ensures
            state.fd == fd,
            state.saved == attrs,
    {
        TerminalState { fd, saved: attrs }
    }

    /// What `set_cooked` asks to be written.
    pub open spec fn cooked_write(self, live: Option<TermAttrs<S>>, bits: ModeBits) -> Option<
        TermWrite<S>,
    > {
        match live {
            Some(attrs) => Some(
                TermWrite {
                    fd: self.fd,
                    when: ApplyWhen::Drain,
                    attrs: TermAttrs { flags: cooked(attrs.flags, bits), rest: attrs.rest },
                },
            ),
            None => None,
        }
    }

    /// What `restore` asks to be written.
    pub open spec fn restoring_write(self) -> Option<TermWrite<S>> {
        match self.saved {
            Some(attrs) => Some(TermWrite { fd: self.fd, when: ApplyWhen::Drain, attrs }),
            None => None,
        }
    }

    /// Switches the terminal to cooked mode: given in `live` the attributes
    /// it has now, asks for them to be written back with the cooked modes
    /// on, once the pending output is sent. Where they could not be read
    /// nothing is written. The snapshot is not touched.
    pub fn set_cooked(&self, live: Option<TermAttrs<S>>, bits: ModeBits) -> (write: Option<
        TermWrite<S>,
    >)
        ensures
            write == self.cooked_write(live, bits),
    {
        match live {
            Some(attrs) => Some(
                TermWrite {
                    fd: self.fd,
                    when: ApplyWhen::Drain,
                    attrs: TermAttrs { flags: attrs.flags.cook(bits), rest: attrs.rest },
                },
            ),
            None => None,
        }
    }

    /// Puts the snapshot back: asks for exactly the attributes that were
    /// captured to be written, once the pending output is sent, and for
    /// nothing where none were.
    pub fn restore(&self) -> (write: Option<TermWrite<S>>)
        ensures
            write == self.restoring_write(),
    {
        match self.saved {
            Some(attrs) => Some(TermWrite { fd: self.fd, when: ApplyWhen::Drain, attrs }),
            None => None,
        }
    }
}

/// What `reset_terminal` asks to be written.
pub open spec fn reset_write<S>(fd: i32, live: Option<TermAttrs<S>>, bits: ModeBits) -> Option<
    TermWrite<S>,
> {
    match live {
        Some(attrs) => Some(
            TermWrite {
                fd,
                when: ApplyWhen::Drain,
                attrs: TermAttrs { flags: sane(attrs.flags, bits), rest: attrs.rest },
            },
        ),
        None => None,
    }
}

/// What `reset_terminal` asks for.
pub open spec fn reset_actions<S>(
    fd: i32,
    parent_pgrp: i32,
    live: Option<TermAttrs<S>>,
    bits: ModeBits,
) -> Seq<Action<S>> {
    handoff::<S>(fd, parent_pgrp) + match reset_write(fd, live, bits) {
        Some(w) => seq![Action::ApplyAttrs(w)],
        None => Seq::empty(),
    }
}

/// Brings the terminal behind `fd` back to a safe state, and adds to
/// `actions` what that takes: it is handed to the process group
/// `parent_pgrp`, and, given in `live` the attributes it has now, these are
/// written back, once the pending output is sent, with the cooked modes and
/// the newline translation on output switched on. Where they could not be
/// read only the hand-over is asked for.
pub fn reset_terminal<S>(
    fd: i32,
    parent_pgrp: i32,
    live: Option<TermAttrs<S>>,
    bits: ModeBits,
    actions: &mut Vec<Action<S>>,
)
    ensures
        final(actions)@ == old(actions)@ + reset_actions(fd, parent_pgrp, live, bits),
{
    give_terminal(fd, parent_pgrp, actions);
    if let Some(attrs) = live {
        actions.push(
            Action::ApplyAttrs(
                TermWrite {
                    fd,
                    when: ApplyWhen::Drain,
                    attrs: TermAttrs { flags: attrs.flags.reset(bits), rest: attrs.rest },
                },
            ),
        );
    }
    assert(actions@ =~= old(actions)@ + reset_actions(fd, parent_pgrp, live, bits));
}

/// Cooking switches the three modes on and changes no other bit.
pub proof fn lemma_cooked_sets_modes(flags: ModeFlags, bits: ModeBits)
    ensures
        has_bits(cooked(flags, bits).local, bits.canonical),
        has_bits(cooked(flags, bits).local, bits.echo),
        has_bits(cooked(flags, bits).input, bits.cr_to_nl),
        same_outside(cooked(flags, bits).local, flags.local, bits.canonical | bits.echo),
        same_outside(cooked(flags, bits).input, flags.input, bits.cr_to_nl),
        cooked(flags, bits).output == flags.output,
{
    let l = flags.local;
    let i = flags.input;
    let c = bits.canonical;
    let e = bits.echo;
    let r = bits.cr_to_nl;
    assert((l | (c | e)) & c == c) by (bit_vector);
    assert((l | (c | e)) & e == e) by (bit_vector);
    assert((i | r) & r == r) by (bit_vector);
    assert((l | (c | e)) & !(c | e) == l & !(c | e)) by (bit_vector);
    assert((i | r) & !r == i & !r) by (bit_vector);
}

/// Cooking what is cooked already changes nothing.
pub proof fn lemma_cooked_idempotent(flags: ModeFlags, bits: ModeBits)
    ensures
        cooked(cooked(flags, bits), bits) == cooked(flags, bits),
{
    let l = flags.local;
    let i = flags.input;
    let m = bits.canonical | bits.echo;
    let r = bits.cr_to_nl;
    assert((l | m) | m == l | m) by (bit_vector);
    assert((i | r) | r == i | r) by (bit_vector);
}

/// The reset flags are the cooked ones with the newline translation on
/// output switched on as well, and nothing else changed.
pub proof fn lemma_sane_sets_modes(flags: ModeFlags, bits: ModeBits)
    ensures
        sane(flags, bits).input == cooked(flags, bits).input,
        sane(flags, bits).local == cooked(flags, bits).local,
        has_bits(sane(flags, bits).output, bits.nl_to_crnl),
        same_outside(sane(flags, bits).output, flags.output, bits.nl_to_crnl),
        sane(sane(flags, bits), bits) == sane(flags, bits),
{
    let o = flags.output;
    let n = bits.nl_to_crnl;
    assert((o | n) & n == n) by (bit_vector);
    assert((o | n) & !n == o & !n) by (bit_vector);
    assert((o | n) | n == o | n) by (bit_vector);
    lemma_cooked_idempotent(flags, bits);
}

/// The three writes that can be asked for all wait for the pending output:
/// none takes effect at once.
pub proof fn lemma_writes_drain<S: Copy>(
    state: TerminalState<S>,
    live: Option<TermAttrs<S>>,
    bits: ModeBits,
    fd: i32,
)
    ensures
        state.cooked_write(live, bits) matches Some(w) ==> w.when == ApplyWhen::Drain,
        state.restoring_write() matches Some(w) ==> w.when == ApplyWhen::Drain,
        reset_write(fd, live, bits) matches Some(w) ==> w.when == ApplyWhen::Drain,
{
}

/// A snapshot taken of a terminal's attributes, whatever is written to the
/// terminal for cooked mode afterwards, puts back exactly what was captured:
/// after capture, `set_cooked` and `restore` the terminal has the attributes
/// that it had at the start.
pub proof fn lemma_restore_round_trip<S: Copy>(
    fd: i32,
    before: TermAttrs<S>,
    live: Option<TermAttrs<S>>,
    bits: ModeBits,
)
    ensures
        ({
            let state = TerminalState { fd, saved: Some(before) };
            let switched = written(before, state.cooked_write(live, bits));
            &&& state.restoring_write() == Some(
                TermWrite { fd, when: ApplyWhen::Drain, attrs: before },
            )
            &&& written(switched, state.restoring_write()) == before
        }),
{
}

} // verus!

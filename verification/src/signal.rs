//! The resize notifier: a flag that a window-size change raises and that its
//! one consumer tests and clears in a single step.

use vstd::prelude::*;

verus! {

/// Whether the terminal's geometry changed since the flag was last consumed.
#[derive(Clone, Copy, Debug, PartialEq, Eq, Structural)]
pub struct ResizeFlag {
    pub pending: bool,
}

impl ResizeFlag {
    /// A flag with no resize pending.
    pub fn new() -> (flag: ResizeFlag)
        ensures
            !flag.pending,
    {
        ResizeFlag { pending: false }
    }

    /// The flag after one more resize notification.
    pub open spec fn raised(self) -> ResizeFlag {
        ResizeFlag { pending: true }
    }

    /// The flag after `count` further resize notifications.
    pub open spec fn raised_times(self, count: nat) -> ResizeFlag
        decreases count,
    {
        if count == 0 {
            self
        } else {
            self.raised().raised_times((count - 1) as nat)
        }
    }

    /// What consuming the flag reports, and the flag it leaves behind.
    pub open spec fn consumed(self) -> (bool, ResizeFlag) {
        (self.pending, ResizeFlag { pending: false })
    }

    /// Records a resize notification. This is all the notification does.
    pub fn raise(&mut self)
        ensures
            *final(self) == old(self).raised(),
    {
        self.pending = true;
    }
}

/// Reports whether a resize happened since the last call, and clears the flag.
pub fn winch_triggered(flag: &mut ResizeFlag) -> (resized: bool)
    ensures
        (resized, *final(flag)) == old(flag).consumed(),
{
    let resized = flag.pending;
    flag.pending = false;
    resized
}

/// Any number of notifications, at least one, are consumed as a single
/// resize: the first consumer sees `true`, and one that follows it with no
/// notification in between sees `false`.
pub proof fn lemma_notifications_coalesce(flag: ResizeFlag, count: nat)
    requires
        count >= 1,
    ensures
        flag.raised_times(count).consumed().0,
        !flag.raised_times(count).consumed().1.consumed().0,
        flag.raised_times(count) == flag.raised(),
    decreases count,
{
    if count > 1 {
        lemma_notifications_coalesce(flag.raised(), (count - 1) as nat);
    } else {
        assert(flag.raised().raised_times(0) == flag.raised());
    }
}

/// Consuming twice in a row never reports a resize the second time.
pub proof fn lemma_second_consume_is_false(flag: ResizeFlag)
    ensures
        !flag.consumed().1.consumed().0,
{
}

} // verus!

use toomuch::job::{give_terminal, Action};
use toomuch::terminal::{
    reset_terminal, ApplyWhen, ModeBits, ModeFlags, TermAttrs, TermWrite, TerminalState,
};

const BITS: ModeBits = ModeBits { canonical: 0o2, echo: 0o10, cr_to_nl: 0o400, nl_to_crnl: 0o4 };

fn raw() -> TermAttrs<[u8; 4]> {
    TermAttrs {
        flags: ModeFlags { input: 0o2000, output: 0o1, local: 0o100001 },
        rest: [3, 28, 127, 21],
    }
}

#[test]
fn cooking_switches_three_modes_on() {
    let flags = ModeFlags { input: 0, output: 0, local: 0 };
    assert_eq!(flags.cook(BITS), ModeFlags { input: 0o400, output: 0, local: 0o12 });
    let raw = raw().flags;
    assert_eq!(
        raw.cook(BITS),
        ModeFlags { input: 0o2400, output: 0o1, local: 0o100013 }
    );
}

#[test]
fn cooking_is_idempotent() {
    let once = raw().flags.cook(BITS);
    assert_eq!(once.cook(BITS), once);
    let all = ModeFlags { input: u64::MAX, output: u64::MAX, local: u64::MAX };
    assert_eq!(all.cook(BITS), all);
}

#[test]
fn reset_adds_newline_translation() {
    assert_eq!(
        raw().flags.reset(BITS),
        ModeFlags { input: 0o2400, output: 0o5, local: 0o100013 }
    );
    let once = raw().flags.reset(BITS);
    assert_eq!(once.reset(BITS), once);
}

#[test]
fn snapshot_keeps_what_was_read() {
    let state = TerminalState::capture(0, Some(raw()));
    assert_eq!(state.fd, 0);
    assert_eq!(state.saved, Some(raw()));
    let absent: TerminalState<[u8; 4]> = TerminalState::capture(7, None);
    assert_eq!(absent, TerminalState { fd: 7, saved: None });
}

#[test]
fn set_cooked_writes_live_attributes_cooked() {
    let state = TerminalState::capture(3, Some(raw()));
    let live = TermAttrs {
        flags: ModeFlags { input: 1, output: 2, local: 4 },
        rest: [9, 9, 9, 9],
    };
    assert_eq!(
        state.set_cooked(Some(live), BITS),
        Some(TermWrite {
            fd: 3,
            when: ApplyWhen::Drain,
            attrs: TermAttrs {
                flags: ModeFlags { input: 0o401, output: 2, local: 0o16 },
                rest: [9, 9, 9, 9],
            },
        })
    );
    assert_eq!(state.saved, Some(raw()));
}

#[test]
fn set_cooked_without_attributes_writes_nothing() {
    let state = TerminalState::capture(3, Some(raw()));
    assert_eq!(state.set_cooked(None, BITS), None);
}

#[test]
fn restore_round_trip_is_bit_identical() {
    let before = raw();
    let state = TerminalState::capture(0, Some(before));
    let mut terminal = before;
    if let Some(write) = state.set_cooked(Some(terminal), BITS) {
        terminal = write.attrs;
    }
    assert_ne!(terminal, before);
    if let Some(write) = state.restore() {
        assert_eq!(write.fd, 0);
        assert_eq!(write.when, ApplyWhen::Drain);
        terminal = write.attrs;
    }
    assert_eq!(terminal, before);
}

#[test]
fn restore_without_snapshot_writes_nothing() {
    let state: TerminalState<[u8; 4]> = TerminalState::capture(0, None);
    assert_eq!(state.restore(), None);
}

#[test]
fn give_terminal_ignores_stop_first() {
    let mut actions: Vec<Action<()>> = vec![Action::Poll];
    give_terminal(5, 4711, &mut actions);
    assert_eq!(
        actions,
        vec![Action::Poll, Action::IgnoreTtou, Action::SetForeground { fd: 5, group: 4711 }]
    );
}

#[test]
fn reset_terminal_hands_over_then_writes() {
    let mut actions: Vec<Action<[u8; 4]>> = Vec::new();
    reset_terminal(0, 100, Some(raw()), BITS, &mut actions);
    assert_eq!(
        actions,
        vec![
            Action::IgnoreTtou,
            Action::SetForeground { fd: 0, group: 100 },
            Action::ApplyAttrs(TermWrite {
                fd: 0,
                when: ApplyWhen::Drain,
                attrs: TermAttrs {
                    flags: ModeFlags { input: 0o2400, output: 0o5, local: 0o100013 },
                    rest: [3, 28, 127, 21],
                },
            }),
        ]
    );
}

#[test]
fn reset_terminal_without_attributes_only_hands_over() {
    let mut actions: Vec<Action<[u8; 4]>> = Vec::new();
    reset_terminal(0, 100, None, BITS, &mut actions);
    assert_eq!(actions, vec![Action::IgnoreTtou, Action::SetForeground { fd: 0, group: 100 }]);
}

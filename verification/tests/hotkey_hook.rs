use airtalk::ui::hotkey::{
    trigger_vk, Config, HookState, HotkeyEvent, KeyAction, KeyOutcome, Mode, Trigger,
};

const ALL: [Trigger; 9] = [
    Trigger::RightAlt,
    Trigger::LeftAlt,
    Trigger::RightCtrl,
    Trigger::LeftCtrl,
    Trigger::RightShift,
    Trigger::LeftShift,
    Trigger::RightWin,
    Trigger::LeftWin,
    Trigger::CapsLock,
];

/// Presses and releases the trigger at the given times.
fn run(mode: Mode, keys: &[(KeyAction, u64)]) -> Vec<HotkeyEvent> {
    let config = Config { trigger: Trigger::RightAlt, mode };
    let mut hook = HookState::new(config);
    keys.iter()
        .filter_map(|(action, at)| {
            let outcome = hook.on_key(trigger_vk(config.trigger), *action, *at);
            assert!(outcome.swallow);
            outcome.event
        })
        .collect()
}

use HotkeyEvent::{Press, Release};
use KeyAction::{Down, Up};

#[test]
fn combo_holds_or_toggles() {
    assert_eq!(run(Mode::Combo, &[(Down, 0), (Up, 300)]), vec![Press, Release]);
    assert_eq!(run(Mode::Combo, &[(Down, 0), (Up, 299)]), vec![Press]);
    assert_eq!(
        run(Mode::Combo, &[(Down, 0), (Up, 100), (Down, 900), (Up, 950)]),
        vec![Press, Release]
    );
}

#[test]
fn hold_records_while_down() {
    assert_eq!(run(Mode::Hold, &[(Down, 0), (Up, 1)]), vec![Press, Release]);
    assert_eq!(run(Mode::Hold, &[(Down, 0), (Down, 500), (Down, 530)]), vec![Press]);
}

#[test]
fn tap_toggles() {
    assert_eq!(run(Mode::Tap, &[(Down, 0), (Up, 5_000)]), vec![Press]);
    assert_eq!(
        run(Mode::Tap, &[(Down, 0), (Up, 1), (Down, 2), (Up, 3), (Down, 4)]),
        vec![Press, Release, Press]
    );
}

#[test]
fn modes_end_recordings() {
    use_mode(Mode::Hold, 0, true);
    use_mode(Mode::Combo, 300, true);
    use_mode(Mode::Combo, 299, false);
    use_mode(Mode::Tap, 5_000, false);
}

/// Whether a recording of the given length ends with the key going up.
fn use_mode(mode: Mode, held_ms: u64, at_once: bool) {
    let mut hook = HookState::new(Config { trigger: Trigger::RightAlt, mode });
    assert_eq!(hook.handle_key_down(1_000), Some(HotkeyEvent::Press));
    assert_eq!(hook.handle_key_down(1_001), None);
    let ended = hook.handle_key_up(1_000 + held_ms);
    assert_eq!(ended, if at_once { Some(HotkeyEvent::Release) } else { None });
    let next = if at_once { HotkeyEvent::Press } else { HotkeyEvent::Release };
    assert_eq!(hook.handle_key_down(9_000), Some(next));
}

#[test]
fn stray_releases_are_nothing() {
    assert!(run(Mode::Combo, &[(Up, 0), (Up, 1)]).is_empty());
    assert!(run(Mode::Hold, &[(KeyAction::Other, 0)]).is_empty());
}

#[test]
fn other_keys_pass_through() {
    let mut hook = HookState::new(Config::default());
    let before = hook;
    let outcome = hook.on_key(trigger_vk(Trigger::LeftAlt), Down, 0);
    assert_eq!(outcome, KeyOutcome { swallow: false, event: None });
    assert_eq!(hook, before);
}

#[test]
fn reconfiguring_ends_a_recording() {
    let mut hook = HookState::new(Config::default());
    assert_eq!(hook.reconfigure(Config::default()), None);
    hook.on_key(trigger_vk(Trigger::RightAlt), Down, 0);
    let tap = Config { trigger: Trigger::CapsLock, mode: Mode::Tap };
    assert_eq!(hook.reconfigure(tap), Some(Release));
    assert_eq!(hook, HookState::new(tap));
    assert_eq!(hook.on_key(0x14, Down, 1).event, Some(Press));
}

#[test]
fn triggers_have_their_codes() {
    let codes: Vec<u32> = ALL.iter().map(|t| trigger_vk(*t)).collect();
    assert_eq!(codes, vec![0xA5, 0xA4, 0xA3, 0xA2, 0xA1, 0xA0, 0x5C, 0x5B, 0x14]);
}

#[test]
fn presses_and_releases_take_turns() {
    // Every sequence of eight key events, in every mode.
    for mode in [Mode::Combo, Mode::Hold, Mode::Tap] {
        for bits in 0..256u64 {
            let keys: Vec<(KeyAction, u64)> = (0..8)
                .map(|i| (if bits >> i & 1 == 0 { Down } else { Up }, i * 170))
                .collect();
            for (i, event) in run(mode, &keys).iter().enumerate() {
                assert_eq!(*event, if i % 2 == 0 { Press } else { Release });
            }
        }
    }
}

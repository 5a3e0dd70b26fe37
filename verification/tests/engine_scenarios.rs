use std::rc::Rc;
use keyremap::engine::{handle_stdin_ev, process_events, release_stuck_modifiers};
use keyremap::keys::{InputEvent, Key, KeyAction, KeyValue};
use keyremap::modifiers::{update_modifiers, ModifierState};
use keyremap::table::{CallbackHandle, KeyFingerprint, Mappings, RuntimeAction, RuntimeKeyAction};
use keyremap::writer::map_internal;

fn ev(key: Key, value: KeyValue) -> InputEvent {
    InputEvent::KeyEv(KeyAction { key, value })
}

#[test]
fn simple_passthrough() {
    let mut state = ModifierState::new();
    let mappings = Mappings::new();
    let events = vec![ev(Key::A, KeyValue::Down), ev(Key::A, KeyValue::Up)];
    let mut output: Vec<InputEvent> = Vec::new();
    let callbacks = process_events(&mut state, &mappings, &events, &mut output);
    assert_eq!(
        output,
        vec![
            ev(Key::A, KeyValue::Down),
            InputEvent::SynReport,
            ev(Key::A, KeyValue::Up),
            InputEvent::SynReport,
        ]
    );
    assert_eq!(callbacks.len(), 0);
}

#[test]
fn modifier_tracking() {
    let mut state = ModifierState::new();
    let mappings = Mappings::new();
    let mut output: Vec<InputEvent> = Vec::new();
    handle_stdin_ev(&mut state, ev(Key::LeftShift, KeyValue::Down), &mappings, &mut output);
    // The mask observed while fingerprinting the next event has shift set.
    assert!(state.mask().shift);
    handle_stdin_ev(&mut state, ev(Key::A, KeyValue::Down), &mappings, &mut output);
    handle_stdin_ev(&mut state, ev(Key::LeftShift, KeyValue::Up), &mappings, &mut output);
    assert!(!state.mask().shift);
    assert_eq!(
        output,
        vec![
            ev(Key::LeftShift, KeyValue::Down),
            InputEvent::SynReport,
            ev(Key::A, KeyValue::Down),
            InputEvent::SynReport,
            ev(Key::LeftShift, KeyValue::Up),
            InputEvent::SynReport,
        ]
    );
}

#[test]
fn click_to_click_with_reconciliation() {
    let mut state = ModifierState::new();
    let mut mappings = Mappings::new();
    // Ctrl+J (DOWN) -> Down arrow (DOWN).
    let rows = map_internal(b"^j:down", b"down:down").unwrap();
    for (fp, action) in rows {
        mappings.insert(fp, Rc::new(action), None);
    }
    let events = vec![ev(Key::LeftCtrl, KeyValue::Down), ev(Key::J, KeyValue::Down)];
    let mut output: Vec<InputEvent> = Vec::new();
    process_events(&mut state, &mappings, &events, &mut output);
    assert_eq!(
        output,
        vec![
            ev(Key::LeftCtrl, KeyValue::Down),
            InputEvent::SynReport,
            ev(Key::LeftCtrl, KeyValue::Up),
            InputEvent::SynReport,
            ev(Key::DownArrow, KeyValue::Down),
            InputEvent::SynReport,
        ]
    );
    // The physical modifier state is unchanged by the mapping firing.
    assert!(state.left_ctrl);
}

#[test]
fn noop_swallow() {
    let mut state = ModifierState::new();
    let mut mappings = Mappings::new();
    let fp = KeyFingerprint {
        key: Key::A,
        value: KeyValue::Up,
        modifiers: keyremap::modifiers::ModifierMask::none(),
    };
    mappings.insert(fp, Rc::new(RuntimeAction::NoOp), None);
    let events = vec![ev(Key::A, KeyValue::Down), ev(Key::A, KeyValue::Up)];
    let mut output: Vec<InputEvent> = Vec::new();
    process_events(&mut state, &mappings, &events, &mut output);
    assert_eq!(output, vec![ev(Key::A, KeyValue::Down), InputEvent::SynReport]);
}

#[test]
fn host_callback_consumes_event() {
    let mut state = ModifierState::new();
    let mut mappings = Mappings::new();
    let fp = KeyFingerprint {
        key: Key::B,
        value: KeyValue::Down,
        modifiers: keyremap::modifiers::ModifierMask::none(),
    };
    mappings.insert(fp, Rc::new(RuntimeAction::HostCallback(CallbackHandle { id: 7 })), None);
    let events = vec![ev(Key::B, KeyValue::Down)];
    let mut output: Vec<InputEvent> = Vec::new();
    let callbacks = process_events(&mut state, &mappings, &events, &mut output);
    assert_eq!(output.len(), 0);
    assert_eq!(callbacks.len(), 1);
    assert_eq!(callbacks[0], CallbackHandle { id: 7 });
}

#[test]
fn idempotent_modifier_up() {
    // UP for an already-up modifier: state unchanged, event + sync emitted.
    let mut state = ModifierState::new();
    let before = state;
    let mappings = Mappings::new();
    let mut output: Vec<InputEvent> = Vec::new();
    handle_stdin_ev(&mut state, ev(Key::LeftShift, KeyValue::Up), &mappings, &mut output);
    assert_eq!(state, before);
    assert_eq!(output, vec![ev(Key::LeftShift, KeyValue::Up), InputEvent::SynReport]);
}

#[test]
fn repeat_ignored_by_tracker() {
    let mut state = ModifierState::new();
    update_modifiers(&mut state, &KeyAction { key: Key::LeftCtrl, value: KeyValue::Down });
    assert!(state.left_ctrl);
    update_modifiers(&mut state, &KeyAction { key: Key::LeftCtrl, value: KeyValue::Repeat });
    assert!(state.left_ctrl);
    update_modifiers(&mut state, &KeyAction { key: Key::LeftCtrl, value: KeyValue::Up });
    assert!(!state.left_ctrl);
}

#[test]
fn non_key_events_pass_through() {
    let mut state = ModifierState::new();
    let mappings = Mappings::new();
    let mut output: Vec<InputEvent> = Vec::new();
    handle_stdin_ev(&mut state, InputEvent::Other(5), &mappings, &mut output);
    handle_stdin_ev(&mut state, InputEvent::SynReport, &mappings, &mut output);
    assert_eq!(
        output,
        vec![InputEvent::Other(5), InputEvent::SynReport, InputEvent::SynReport]
    );
}

#[test]
fn release_stuck_modifiers_on_shutdown() {
    let mut state = ModifierState::new();
    update_modifiers(&mut state, &KeyAction { key: Key::LeftCtrl, value: KeyValue::Down });
    update_modifiers(&mut state, &KeyAction { key: Key::RightShift, value: KeyValue::Down });
    let mut output: Vec<InputEvent> = Vec::new();
    release_stuck_modifiers(&state, &mut output);
    assert_eq!(
        output,
        vec![
            ev(Key::LeftCtrl, KeyValue::Up),
            InputEvent::SynReport,
            ev(Key::RightShift, KeyValue::Up),
            InputEvent::SynReport,
        ]
    );
}

#[test]
fn sequence_executes_in_order() {
    let mut state = ModifierState::new();
    let mut mappings = Mappings::new();
    let fp = KeyFingerprint {
        key: Key::C,
        value: KeyValue::Down,
        modifiers: keyremap::modifiers::ModifierMask::none(),
    };
    let seq = vec![
        RuntimeKeyAction::KeyAction(KeyAction { key: Key::X, value: KeyValue::Down }),
        RuntimeKeyAction::KeyAction(KeyAction { key: Key::X, value: KeyValue::Up }),
    ];
    mappings.insert(fp, Rc::new(RuntimeAction::ActionSequence(seq)), None);
    let events = vec![ev(Key::C, KeyValue::Down)];
    let mut output: Vec<InputEvent> = Vec::new();
    process_events(&mut state, &mappings, &events, &mut output);
    assert_eq!(
        output,
        vec![
            ev(Key::X, KeyValue::Down),
            InputEvent::SynReport,
            ev(Key::X, KeyValue::Up),
            InputEvent::SynReport,
        ]
    );
}

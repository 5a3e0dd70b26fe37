use std::rc::Rc;
use keyremap::control::{begin_window_change, handle_control_message, ControlMessage, WindowArbiter};
use keyremap::keys::{Key, KeyAction, KeyValue};
use keyremap::modifiers::{ModifierMask, ModifierState};
use keyremap::script::Block;
use keyremap::table::{KeyFingerprint, Mappings, RuntimeAction};

fn fp(key: Key, value: KeyValue) -> KeyFingerprint {
    KeyFingerprint { key, value, modifiers: ModifierMask::none() }
}

fn is_noop(mappings: &Mappings, f: &KeyFingerprint) -> bool {
    match mappings.lookup(f) {
        Some(a) => matches!(**a, RuntimeAction::NoOp),
        None => false,
    }
}

#[test]
fn lookup_is_exact() {
    let mut m = Mappings::new();
    let a = fp(Key::A, KeyValue::Down);
    let b = fp(Key::A, KeyValue::Up);
    m.insert(a, Rc::new(RuntimeAction::NoOp), None);
    assert!(is_noop(&m, &a));
    // A fingerprint differing only in its value retrieves nothing.
    assert!(m.lookup(&b).is_none());
    // A fingerprint differing only in its mask retrieves nothing.
    let masked = KeyFingerprint {
        key: Key::A,
        value: KeyValue::Down,
        modifiers: ModifierMask { ctrl: true, alt: false, shift: false, meta: false },
    };
    assert!(m.lookup(&masked).is_none());
}

#[test]
fn insert_overwrites() {
    let mut m = Mappings::new();
    let a = fp(Key::A, KeyValue::Down);
    m.insert(a, Rc::new(RuntimeAction::NoOp), None);
    m.insert(a, Rc::new(RuntimeAction::ActionSequence(Vec::new())), None);
    match m.lookup(&a) {
        Some(action) => assert!(matches!(**action, RuntimeAction::ActionSequence(_))),
        None => panic!("binding lost"),
    }
}

#[test]
fn remove_drops_binding() {
    let mut m = Mappings::new();
    let a = fp(Key::A, KeyValue::Down);
    let b = fp(Key::B, KeyValue::Down);
    m.insert(a, Rc::new(RuntimeAction::NoOp), None);
    m.insert(b, Rc::new(RuntimeAction::NoOp), None);
    m.remove(&a);
    assert!(m.lookup(&a).is_none());
    assert!(is_noop(&m, &b));
}

#[test]
fn control_add_mapping_untagged() {
    let mut state = ModifierState::new();
    let mut mappings = Mappings::new();
    let mut arbiter = WindowArbiter::new();
    let a = fp(Key::A, KeyValue::Down);
    handle_control_message(
        ControlMessage::AddMapping(None, a, Rc::new(RuntimeAction::NoOp)),
        &mut state,
        &mut mappings,
        &mut arbiter,
    );
    assert!(is_noop(&mappings, &a));
}

#[test]
fn stale_token_mapping_is_dropped() {
    let mut state = ModifierState::new();
    let mut mappings = Mappings::new();
    let mut arbiter = WindowArbiter::new();
    begin_window_change(&mut arbiter, &mut mappings);
    assert_eq!(arbiter.cycle_token, 1);
    let a = fp(Key::A, KeyValue::Down);
    // Authored under the superseded token 0: discarded.
    handle_control_message(
        ControlMessage::AddMapping(Some(0), a, Rc::new(RuntimeAction::NoOp)),
        &mut state,
        &mut mappings,
        &mut arbiter,
    );
    assert!(mappings.lookup(&a).is_none());
    // Authored under the current token 1: applied.
    handle_control_message(
        ControlMessage::AddMapping(Some(1), a, Rc::new(RuntimeAction::NoOp)),
        &mut state,
        &mut mappings,
        &mut arbiter,
    );
    assert!(is_noop(&mappings, &a));
}

#[test]
fn window_change_clears_cycle_mappings_only() {
    let mut state = ModifierState::new();
    let mut mappings = Mappings::new();
    let mut arbiter = WindowArbiter::new();
    let stay = fp(Key::A, KeyValue::Down);
    let go = fp(Key::B, KeyValue::Down);
    handle_control_message(
        ControlMessage::AddMapping(None, stay, Rc::new(RuntimeAction::NoOp)),
        &mut state,
        &mut mappings,
        &mut arbiter,
    );
    handle_control_message(
        ControlMessage::AddMapping(Some(0), go, Rc::new(RuntimeAction::NoOp)),
        &mut state,
        &mut mappings,
        &mut arbiter,
    );
    assert!(is_noop(&mappings, &go));
    begin_window_change(&mut arbiter, &mut mappings);
    assert!(mappings.lookup(&go).is_none());
    assert!(is_noop(&mappings, &stay));
}

#[test]
fn update_modifiers_message_reaches_tracker() {
    let mut state = ModifierState::new();
    let mut mappings = Mappings::new();
    let mut arbiter = WindowArbiter::new();
    handle_control_message(
        ControlMessage::UpdateModifiers(KeyAction { key: Key::LeftMeta, value: KeyValue::Down }),
        &mut state,
        &mut mappings,
        &mut arbiter,
    );
    assert!(state.left_meta);
}

#[test]
fn register_window_change_callback() {
    let mut state = ModifierState::new();
    let mut mappings = Mappings::new();
    let mut arbiter = WindowArbiter::new();
    handle_control_message(
        ControlMessage::RegisterWindowChangeCallback(Rc::new(Block::new()), 0),
        &mut state,
        &mut mappings,
        &mut arbiter,
    );
    assert_eq!(arbiter.callbacks.len(), 1);
}

#[test]
fn eat_event_is_ignored() {
    let mut state = ModifierState::new();
    let mut mappings = Mappings::new();
    let mut arbiter = WindowArbiter::new();
    let a = fp(Key::A, KeyValue::Down);
    handle_control_message(
        ControlMessage::EatEvent(KeyAction { key: Key::A, value: KeyValue::Down }),
        &mut state,
        &mut mappings,
        &mut arbiter,
    );
    assert!(mappings.lookup(&a).is_none());
    assert_eq!(arbiter.cycle_token, 0);
}

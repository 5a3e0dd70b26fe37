use keyremap::keys::{InputEvent, Key, KeyAction, KeyValue};
use keyremap::modifiers::ModifierMask;
use keyremap::parse::{
    parse_key_sequence, ApiError, KeyClickActionWithMods, ParsedKeyAction,
};
use keyremap::table::{CallbackHandle, KeyFingerprint, RuntimeAction, RuntimeKeyAction};
use keyremap::writer::{map_callback, map_internal, send_events, send_modifier_events};

fn no_mods() -> ModifierMask {
    ModifierMask::none()
}

#[test]
fn parses_clicks_and_prefixes() {
    let ts = parse_key_sequence(b"a b ^c").unwrap();
    assert_eq!(ts.len(), 3);
    assert_eq!(
        ts[0],
        ParsedKeyAction::KeyClickAction(KeyClickActionWithMods { key: Key::A, modifiers: no_mods() })
    );
    assert_eq!(
        ts[1],
        ParsedKeyAction::KeyClickAction(KeyClickActionWithMods { key: Key::B, modifiers: no_mods() })
    );
    let ctrl = ModifierMask { ctrl: true, alt: false, shift: false, meta: false };
    assert_eq!(
        ts[2],
        ParsedKeyAction::KeyClickAction(KeyClickActionWithMods { key: Key::C, modifiers: ctrl })
    );
}

#[test]
fn parses_directed_actions_and_names() {
    let ts = parse_key_sequence(b"^j:down").unwrap();
    let ctrl = ModifierMask { ctrl: true, alt: false, shift: false, meta: false };
    assert_eq!(
        ts,
        vec![ParsedKeyAction::KeyAction(KeyFingerprint {
            key: Key::J,
            value: KeyValue::Down,
            modifiers: ctrl,
        })]
    );
    let ts = parse_key_sequence(b"down").unwrap();
    assert_eq!(
        ts,
        vec![ParsedKeyAction::KeyClickAction(KeyClickActionWithMods {
            key: Key::DownArrow,
            modifiers: no_mods(),
        })]
    );
    let ts = parse_key_sequence(b"+!x:repeat").unwrap();
    let sa = ModifierMask { ctrl: false, alt: true, shift: true, meta: false };
    assert_eq!(
        ts,
        vec![ParsedKeyAction::KeyAction(KeyFingerprint {
            key: Key::X,
            value: KeyValue::Repeat,
            modifiers: sa,
        })]
    );
}

#[test]
fn empty_input_parses_to_nothing() {
    let ts = parse_key_sequence(b"").unwrap();
    assert_eq!(ts.len(), 0);
}

#[test]
fn malformed_sequences_are_rejected() {
    assert_eq!(parse_key_sequence(b"a  b"), Err(ApiError::ParseError));
    assert_eq!(parse_key_sequence(b"a "), Err(ApiError::ParseError));
    assert_eq!(parse_key_sequence(b"q7"), Err(ApiError::ParseError));
    assert_eq!(parse_key_sequence(b":down"), Err(ApiError::ParseError));
    assert_eq!(parse_key_sequence(b"a:sideways"), Err(ApiError::ParseError));
    assert_eq!(parse_key_sequence(b"^"), Err(ApiError::ParseError));
}

#[test]
fn send_emits_each_event_with_sync() {
    let out = send_events(b"a").unwrap();
    assert_eq!(
        out,
        vec![
            InputEvent::KeyEv(KeyAction { key: Key::A, value: KeyValue::Down }),
            InputEvent::SynReport,
            InputEvent::KeyEv(KeyAction { key: Key::A, value: KeyValue::Up }),
            InputEvent::SynReport,
        ]
    );
    assert_eq!(send_events(b"!!"), Err(ApiError::ParseError));
}

#[test]
fn send_click_presses_its_modifiers() {
    let out = send_events(b"^a:down").unwrap();
    // A directed token sends exactly its action.
    assert_eq!(
        out,
        vec![
            InputEvent::KeyEv(KeyAction { key: Key::A, value: KeyValue::Down }),
            InputEvent::SynReport,
        ]
    );
    let out = send_events(b"^a").unwrap();
    assert_eq!(
        out,
        vec![
            InputEvent::KeyEv(KeyAction { key: Key::LeftCtrl, value: KeyValue::Down }),
            InputEvent::SynReport,
            InputEvent::KeyEv(KeyAction { key: Key::A, value: KeyValue::Down }),
            InputEvent::SynReport,
            InputEvent::KeyEv(KeyAction { key: Key::A, value: KeyValue::Up }),
            InputEvent::SynReport,
            InputEvent::KeyEv(KeyAction { key: Key::LeftCtrl, value: KeyValue::Up }),
            InputEvent::SynReport,
        ]
    );
}

#[test]
fn send_modifier_accepts_single_modifier_action() {
    let (action, out) = send_modifier_events(b"ctrl:down").unwrap();
    assert_eq!(action, KeyAction { key: Key::LeftCtrl, value: KeyValue::Down });
    assert_eq!(
        out,
        vec![
            InputEvent::KeyEv(KeyAction { key: Key::LeftCtrl, value: KeyValue::Down }),
            InputEvent::SynReport,
        ]
    );
    // A non-modifier key is rejected.
    assert!(send_modifier_events(b"a:down").is_err());
    // More than one resulting action is rejected (a click expands to two).
    assert!(send_modifier_events(b"ctrl").is_err());
    assert!(send_modifier_events(b"ctrl:down shift:down").is_err());
}

#[test]
fn map_click_to_click_registers_three_rows() {
    let rows = map_internal(b"a", b"b").unwrap();
    assert_eq!(rows.len(), 3);
    assert_eq!(
        rows[0].0,
        KeyFingerprint { key: Key::A, value: KeyValue::Down, modifiers: no_mods() }
    );
    match &rows[0].1 {
        RuntimeAction::ActionSequence(steps) => {
            assert_eq!(steps.len(), 2);
            assert!(matches!(
                steps[0],
                RuntimeKeyAction::ReleaseRestoreModifiers(_, _, KeyValue::Up)
            ));
            assert!(matches!(
                steps[1],
                RuntimeKeyAction::KeyAction(KeyAction { key: Key::B, value: KeyValue::Down })
            ));
        }
        _ => panic!("expected a sequence"),
    }
    assert_eq!(
        rows[1].0,
        KeyFingerprint { key: Key::A, value: KeyValue::Up, modifiers: no_mods() }
    );
    match &rows[1].1 {
        RuntimeAction::ActionSequence(steps) => {
            assert!(matches!(
                steps[0],
                RuntimeKeyAction::KeyAction(KeyAction { key: Key::B, value: KeyValue::Up })
            ));
        }
        _ => panic!("expected a sequence"),
    }
    assert_eq!(
        rows[2].0,
        KeyFingerprint { key: Key::A, value: KeyValue::Repeat, modifiers: no_mods() }
    );
}

#[test]
fn map_action_to_action_places_release_before_payload() {
    let rows = map_internal(b"^j:down", b"down:down").unwrap();
    assert_eq!(rows.len(), 1);
    let ctrl = ModifierMask { ctrl: true, alt: false, shift: false, meta: false };
    assert_eq!(
        rows[0].0,
        KeyFingerprint { key: Key::J, value: KeyValue::Down, modifiers: ctrl }
    );
    match &rows[0].1 {
        RuntimeAction::ActionSequence(steps) => {
            assert_eq!(steps.len(), 2);
            match steps[0] {
                RuntimeKeyAction::ReleaseRestoreModifiers(from, to, rt) => {
                    assert!(from.ctrl);
                    assert!(!to.ctrl);
                    assert_eq!(rt, KeyValue::Up);
                }
                _ => panic!("expected a reconciliation directive"),
            }
            assert!(matches!(
                steps[1],
                RuntimeKeyAction::KeyAction(KeyAction {
                    key: Key::DownArrow,
                    value: KeyValue::Down,
                })
            ));
        }
        _ => panic!("expected a sequence"),
    }
}

#[test]
fn map_to_sequence_plays_whole_payload() {
    let rows = map_internal(b"q:down", b"a b").unwrap();
    assert_eq!(rows.len(), 1);
    match &rows[0].1 {
        RuntimeAction::ActionSequence(steps) => {
            // release, a down, a up, b down, b up, restore
            assert_eq!(steps.len(), 6);
        }
        _ => panic!("expected a sequence"),
    }
}

#[test]
fn map_callback_click_swallows_up_and_repeat() {
    let rows = map_callback(b"a", CallbackHandle { id: 3 }).unwrap();
    assert_eq!(rows.len(), 3);
    assert!(matches!(rows[0].1, RuntimeAction::HostCallback(CallbackHandle { id: 3 })));
    assert!(matches!(rows[1].1, RuntimeAction::NoOp));
    assert!(matches!(rows[2].1, RuntimeAction::NoOp));
    let rows = map_callback(b"a:up", CallbackHandle { id: 4 }).unwrap();
    assert_eq!(rows.len(), 1);
    assert!(matches!(rows[0].1, RuntimeAction::HostCallback(CallbackHandle { id: 4 })));
    assert!(matches!(map_callback(b"", CallbackHandle { id: 5 }), Err(ApiError::ParseError)));
}

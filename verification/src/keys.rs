//! Physical key codes, key event values and input events.

use vstd::prelude::*;

verus! {

/// A physical key code, drawn from a fixed enumeration.
/// Equality is by code.
#[derive(Clone, Copy, PartialEq, Eq, Structural, Debug, Hash)]
pub enum Key {
    LeftCtrl,
    RightCtrl,
    LeftAlt,
    RightAlt,
    LeftShift,
    RightShift,
    LeftMeta,
    RightMeta,
    A,
    B,
    C,
    D,
    E,
    F,
    G,
    H,
    I,
    J,
    K,
    L,
    M,
    N,
    O,
    P,
    Q,
    R,
    S,
    T,
    U,
    V,
    W,
    X,
    Y,
    Z,
    DownArrow,
    UpArrow,
    LeftArrow,
    RightArrow,
}

/// The direction of a key event.
#[derive(Clone, Copy, PartialEq, Eq, Structural, Debug, Hash)]
pub enum KeyValue {
    Up,
    Down,
    Repeat,
}

/// A key event: a key together with a direction.
#[derive(Clone, Copy, PartialEq, Eq, Structural, Debug, Hash)]
pub struct KeyAction {
    pub key: Key,
    pub value: KeyValue,
}

/// An event flowing between the physical device, the engine and the
/// synthetic output device. Only `KeyEv` drives the engine; a
/// `SynReport` is the synchronization marker flushed after every
/// logical action; any other event is passed through verbatim.
#[derive(Clone, Copy, PartialEq, Eq, Structural, Debug, Hash)]
pub enum InputEvent {
    KeyEv(KeyAction),
    SynReport,
    Other(u16),
}

/// Whether `k` is one of the eight physical modifier keys.
pub open spec fn is_modifier_key(k: Key) -> bool {
    ||| k == Key::LeftCtrl
    ||| k == Key::RightCtrl
    ||| k == Key::LeftAlt
    ||| k == Key::RightAlt
    ||| k == Key::LeftShift
    ||| k == Key::RightShift
    ||| k == Key::LeftMeta
    ||| k == Key::RightMeta
}

impl Key {
    /// Runtime test matching `is_modifier_key`.
    pub fn is_modifier(&self) -> (r: bool)
        ensures
            r == is_modifier_key(*self),
    {
        match self {
            Key::LeftCtrl => true,
            Key::RightCtrl => true,
            Key::LeftAlt => true,
            Key::RightAlt => true,
            Key::LeftShift => true,
            Key::RightShift => true,
            Key::LeftMeta => true,
            Key::RightMeta => true,
            _ => false,
        }
    }
}

impl KeyAction {
    /// The input event carrying this key action.
    pub fn to_input_ev(&self) -> (r: InputEvent)
        ensures
            r == InputEvent::KeyEv(*self),
    {
        InputEvent::KeyEv(*self)
    }
}

} // verus!

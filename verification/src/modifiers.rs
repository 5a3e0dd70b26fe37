//! The modifier state tracker: the source of truth for which physical
//! modifier keys are currently held down, and the coarse mask derived
//! from it.

use vstd::prelude::*;
use crate::keys::{Key, KeyAction, KeyValue};

verus! {

/// Fine-grained modifier state: one boolean per (side, modifier) pair.
/// It reflects the most recent physical DOWN/UP observed for each of
/// the eight modifier keys.
#[derive(Clone, Copy, PartialEq, Eq, Structural, Debug)]
pub struct ModifierState {
    pub left_ctrl: bool,
    pub right_ctrl: bool,
    pub left_alt: bool,
    pub right_alt: bool,
    pub left_shift: bool,
    pub right_shift: bool,
    pub left_meta: bool,
    pub right_meta: bool,
}

/// Coarse modifier mask: one boolean per modifier family, true when
/// either side is held. Mappings are indexed at this granularity.
#[derive(Clone, Copy, PartialEq, Eq, Structural, Debug, Hash)]
pub struct ModifierMask {
    pub ctrl: bool,
    pub alt: bool,
    pub shift: bool,
    pub meta: bool,
}

impl ModifierMask {
    /// The empty mask: no modifier required.
    pub fn none() -> (r: ModifierMask)
        ensures
            r == (ModifierMask { ctrl: false, alt: false, shift: false, meta: false }),
    {
        ModifierMask { ctrl: false, alt: false, shift: false, meta: false }
    }
}

/// Whether modifier key `k` is recorded as down in `s`.
/// For non-modifier keys the answer is `false`.
pub open spec fn modifier_down(s: ModifierState, k: Key) -> bool {
    match k {
        Key::LeftCtrl => s.left_ctrl,
        Key::RightCtrl => s.right_ctrl,
        Key::LeftAlt => s.left_alt,
        Key::RightAlt => s.right_alt,
        Key::LeftShift => s.left_shift,
        Key::RightShift => s.right_shift,
        Key::LeftMeta => s.left_meta,
        Key::RightMeta => s.right_meta,
        _ => false,
    }
}

/// `s` with the record for modifier key `k` set to `down`.
/// For non-modifier keys, `s` unchanged.
pub open spec fn set_modifier(s: ModifierState, k: Key, down: bool) -> ModifierState {
    match k {
        Key::LeftCtrl => ModifierState { left_ctrl: down, ..s },
        Key::RightCtrl => ModifierState { right_ctrl: down, ..s },
        Key::LeftAlt => ModifierState { left_alt: down, ..s },
        Key::RightAlt => ModifierState { right_alt: down, ..s },
        Key::LeftShift => ModifierState { left_shift: down, ..s },
        Key::RightShift => ModifierState { right_shift: down, ..s },
        Key::LeftMeta => ModifierState { left_meta: down, ..s },
        Key::RightMeta => ModifierState { right_meta: down, ..s },
        _ => s,
    }
}

/// One observation step of the tracker: a DOWN or UP of one of the
/// eight modifier keys updates the corresponding boolean; a REPEAT and
/// any non-modifier event leave the state unchanged.
pub open spec fn spec_observe(s: ModifierState, a: KeyAction) -> ModifierState {
    if is_modifier_action(a) {
        set_modifier(s, a.key, a.value == KeyValue::Down)
    } else {
        s
    }
}

/// Whether `a` is a DOWN or UP of a modifier key (the events the
/// tracker reacts to).
pub open spec fn is_modifier_action(a: KeyAction) -> bool {
    crate::keys::is_modifier_key(a.key) && a.value != KeyValue::Repeat
}

/// The coarse mask derived from `s` by OR across sides.
pub open spec fn spec_mask(s: ModifierState) -> ModifierMask {
    ModifierMask {
        ctrl: s.left_ctrl || s.right_ctrl,
        alt: s.left_alt || s.right_alt,
        shift: s.left_shift || s.right_shift,
        meta: s.left_meta || s.right_meta,
    }
}

impl ModifierState {
    /// The state with no modifier held.
    pub fn new() -> (r: ModifierState)
        ensures
            r == all_up(),
    {
        ModifierState {
            left_ctrl: false,
            right_ctrl: false,
            left_alt: false,
            right_alt: false,
            left_shift: false,
            right_shift: false,
            left_meta: false,
            right_meta: false,
        }
    }

    /// Derived coarse view, OR across sides.
    pub fn mask(&self) -> (r: ModifierMask)
        ensures
            r == spec_mask(*self),
    {
        ModifierMask {
            ctrl: self.left_ctrl || self.right_ctrl,
            alt: self.left_alt || self.right_alt,
            shift: self.left_shift || self.right_shift,
            meta: self.left_meta || self.right_meta,
        }
    }
}

/// The state with all eight modifier keys up.
pub open spec fn all_up() -> ModifierState {
    ModifierState {
        left_ctrl: false,
        right_ctrl: false,
        left_alt: false,
        right_alt: false,
        left_shift: false,
        right_shift: false,
        left_meta: false,
        right_meta: false,
    }
}

/// Records a physical modifier DOWN/UP in the tracker. A REPEAT and
/// any non-modifier key leave the state as it is; an UP for a modifier
/// already up (and a DOWN for one already down) is a no-op by value.
pub fn update_modifiers(state: &mut ModifierState, action: &KeyAction)
    ensures
        *final(state) == spec_observe(*old(state), *action),
{
    if action.key.is_modifier() {
        match action.value {
            KeyValue::Down => {
                set_modifier_exec(state, action.key, true);
            }
            KeyValue::Up => {
                set_modifier_exec(state, action.key, false);
            }
            KeyValue::Repeat => {}
        }
    }
}

/// Runtime counterpart of `set_modifier`.
fn set_modifier_exec(state: &mut ModifierState, key: Key, down: bool)
    ensures
        *final(state) == set_modifier(*old(state), key, down),
{
    match key {
        Key::LeftCtrl => state.left_ctrl = down,
        Key::RightCtrl => state.right_ctrl = down,
        Key::LeftAlt => state.left_alt = down,
        Key::RightAlt => state.right_alt = down,
        Key::LeftShift => state.left_shift = down,
        Key::RightShift => state.right_shift = down,
        Key::LeftMeta => state.left_meta = down,
        Key::RightMeta => state.right_meta = down,
        _ => {}
    }
}

/// The tracker state after observing every action in `evs`, in order.
pub open spec fn observe_all(s: ModifierState, evs: Seq<KeyAction>) -> ModifierState
    decreases evs.len(),
{
    if evs.len() == 0 {
        s
    } else {
        spec_observe(observe_all(s, evs.drop_last()), evs.last())
    }
}

/// The parity view of a modifier key over an event sequence: DOWN sets,
/// UP clears, REPEAT and other keys change nothing; with no directional
/// event for `k` in `evs` the initial value stands.
pub open spec fn parity_down(init: bool, evs: Seq<KeyAction>, k: Key) -> bool
    decreases evs.len(),
{
    if evs.len() == 0 {
        init
    } else if evs.last().key == k && evs.last().value == KeyValue::Down {
        true
    } else if evs.last().key == k && evs.last().value == KeyValue::Up {
        false
    } else {
        parity_down(init, evs.drop_last(), k)
    }
}

/// After observing any event sequence, the tracker's record for each of
/// the eight modifier keys equals the parity of DOWN and UP events seen
/// for that key.
pub proof fn lemma_tracker_parity(s: ModifierState, evs: Seq<KeyAction>, k: Key)
    requires
        crate::keys::is_modifier_key(k),
    ensures
        modifier_down(observe_all(s, evs), k) == parity_down(modifier_down(s, k), evs, k),
    decreases evs.len(),
{
    if evs.len() > 0 {
        lemma_tracker_parity(s, evs.drop_last(), k);
    }
}

/// Idempotent modifier UP: observing an UP for a modifier already
/// recorded as up leaves the state unchanged.
pub proof fn lemma_up_idempotent(s: ModifierState, k: Key)
    requires
        crate::keys::is_modifier_key(k),
        !modifier_down(s, k),
    ensures
        spec_observe(s, KeyAction { key: k, value: KeyValue::Up }) == s,
{
}

} // verus!

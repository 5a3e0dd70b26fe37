//! The control plane: the messages by which scripts, host callbacks
//! and the external API mutate the mapping table and the modifier
//! state, and the window-scope arbiter that owns the cycle token.

use vstd::prelude::*;
use std::rc::Rc;
use crate::keys::KeyAction;
use crate::modifiers::{spec_observe, update_modifiers, ModifierState};
use crate::script::Block;
use crate::table::{KeyFingerprint, Mappings, MappingEntry, RuntimeAction};

verus! {

/// A message posted to the engine. `AddMapping` carries the cycle
/// token it was authored under, or `None` when it comes from outside
/// any window-change flow; `EatEvent` is reserved and currently
/// ignored by the engine.
pub enum ControlMessage {
    AddMapping(Option<u64>, KeyFingerprint, Rc<RuntimeAction>),
    UpdateModifiers(KeyAction),
    RegisterWindowChangeCallback(Rc<Block>, usize),
    EatEvent(KeyAction),
}

/// The window-scope arbiter: the current generation of window-scoped
/// mappings and the registered window-change callbacks, each a lambda
/// body with its captured scope.
pub struct WindowArbiter {
    pub cycle_token: u64,
    pub callbacks: Vec<(Rc<Block>, usize)>,
}

impl WindowArbiter {
    /// A fresh arbiter: generation zero, no callbacks.
    pub fn new() -> (r: WindowArbiter)
        ensures
            r.cycle_token == 0,
            r.callbacks@.len() == 0,
    {
        WindowArbiter { cycle_token: 0, callbacks: Vec::new() }
    }
}

/// Applies one control message to the engine-private state.
///
/// An `AddMapping` authored under a superseded cycle token is
/// discarded: only messages tagged `None` (authored outside any
/// window-change flow) or with the current token reach the table.
/// `UpdateModifiers` forces the tracker to record a modifier event.
/// `RegisterWindowChangeCallback` appends to the arbiter's list.
/// `EatEvent` is accepted and ignored.
pub fn handle_control_message(
    msg: ControlMessage,
    state: &mut ModifierState,
    mappings: &mut Mappings,
    arbiter: &mut WindowArbiter,
)
    requires
        old(mappings).wf(),
    ensures
        final(mappings).wf(),
        match msg {
            ControlMessage::AddMapping(tag, from, to) => {
                &&& *final(state) == *old(state)
                &&& *final(arbiter) == *old(arbiter)
                &&& (match tag {
                    Some(t) => {
                        if t == old(arbiter).cycle_token {
                            final(mappings)@ == old(mappings)@.insert(
                                from,
                                MappingEntry { action: to, cycle: Some(t) },
                            )
                        } else {
                            final(mappings)@ == old(mappings)@
                        }
                    }
                    None => final(mappings)@ == old(mappings)@.insert(
                        from,
                        MappingEntry { action: to, cycle: None },
                    ),
                })
            }
            ControlMessage::UpdateModifiers(a) => {
                &&& *final(state) == spec_observe(*old(state), a)
                &&& final(mappings)@ == old(mappings)@
                &&& *final(arbiter) == *old(arbiter)
            }
            ControlMessage::RegisterWindowChangeCallback(b, s) => {
                &&& *final(state) == *old(state)
                &&& final(mappings)@ == old(mappings)@
                &&& final(arbiter).cycle_token == old(arbiter).cycle_token
                &&& final(arbiter).callbacks@ == old(arbiter).callbacks@.push((b, s))
            }
            ControlMessage::EatEvent(_) => {
                &&& *final(state) == *old(state)
                &&& final(mappings)@ == old(mappings)@
                &&& *final(arbiter) == *old(arbiter)
            }
        },
{
    match msg {
        ControlMessage::AddMapping(tag, from, to) => {
            match tag {
                Some(t) => {
                    if t == arbiter.cycle_token {
                        mappings.insert(from, to, Some(t));
                    }
                }
                None => {
                    mappings.insert(from, to, None);
                }
            }
        }
        ControlMessage::UpdateModifiers(a) => {
            update_modifiers(state, &a);
        }
        ControlMessage::RegisterWindowChangeCallback(b, s) => {
            arbiter.callbacks.push((b, s));
        }
        ControlMessage::EatEvent(_) => {}
    }
}

/// Begins a new window cycle: increments the cycle token and clears
/// the table of mappings that belong to previous cycles, keeping the
/// mappings added outside any window-change flow. The registered
/// callbacks are untouched; the driver re-runs each of them under the
/// new token.
pub fn begin_window_change(arbiter: &mut WindowArbiter, mappings: &mut Mappings)
    requires
        old(arbiter).cycle_token < u64::MAX,
        old(mappings).wf(),
    ensures
        final(mappings).wf(),
        final(arbiter).cycle_token == old(arbiter).cycle_token + 1,
        final(arbiter).callbacks@ == old(arbiter).callbacks@,
        final(mappings)@ == old(mappings)@.restrict(Mappings::untagged_keys(old(mappings)@)),
{
    arbiter.cycle_token = arbiter.cycle_token + 1;
    mappings.clear_cycle_mappings();
}

/// Token filter: once the cycle token has moved past the token an
/// `AddMapping` was authored under, applying that message leaves the
/// mapping table exactly as it was.
pub proof fn lemma_stale_token_dropped(
    m: Map<KeyFingerprint, MappingEntry>,
    authored: u64,
    current: u64,
)
    requires
        authored != current,
    ensures
        forall|fp: KeyFingerprint, to: Rc<RuntimeAction>|
            stale_filter(m, Some(authored), current, fp, to) == m,
{
}

/// What the engine's token filter leaves in the table after an
/// `AddMapping` tagged `tag` arrives while the arbiter holds
/// `current`: the insertion when the tags agree or the mapping was
/// authored outside any window flow, the table unchanged otherwise.
pub open spec fn stale_filter(
    m: Map<KeyFingerprint, MappingEntry>,
    tag: Option<u64>,
    current: u64,
    from: KeyFingerprint,
    to: Rc<RuntimeAction>,
) -> Map<KeyFingerprint, MappingEntry> {
    match tag {
        Some(t) => {
            if t == current {
                m.insert(from, MappingEntry { action: to, cycle: Some(t) })
            } else {
                m
            }
        }
        None => m.insert(from, MappingEntry { action: to, cycle: None }),
    }
}

} // verus!

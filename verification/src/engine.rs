//! The per-event rewrite engine: classifies each incoming event,
//! consults the mapping table, and either forwards the event, executes
//! a compiled action sequence with modifier reconciliation, or hands a
//! host callback handle back to the driver.
//!
//! Emission is modeled as appending to an output log; the driver drains
//! the log into the synthetic output device in FIFO order.

use vstd::prelude::*;
use crate::keys::{InputEvent, Key, KeyAction, KeyValue};
use crate::modifiers::{
    spec_mask, spec_observe, update_modifiers, observe_all, ModifierMask, ModifierState,
};
use crate::table::{
    CallbackHandle, KeyFingerprint, Mappings, MappingEntry, RuntimeAction, RuntimeKeyAction,
};
use std::rc::Rc;

verus! {

/// The fingerprint under which an incoming key action is looked up:
/// its key, its direction, and the mask derived from the current
/// modifier state.
pub open spec fn event_fingerprint(s: ModifierState, a: KeyAction) -> KeyFingerprint {
    KeyFingerprint { key: a.key, value: a.value, modifiers: spec_mask(s) }
}

/// What one side of a modifier family contributes to a reconciliation:
/// when the side is physically down, a synthetic event of the restore
/// type plus its sync marker; otherwise nothing.
pub open spec fn recon_side(down: bool, k: Key, rt: KeyValue) -> Seq<InputEvent> {
    if down {
        seq![
            InputEvent::KeyEv(KeyAction { key: k, value: rt }),
            InputEvent::SynReport,
        ]
    } else {
        Seq::<InputEvent>::empty()
    }
}

/// The events a `ReleaseRestoreModifiers(from, to, rt)` directive
/// emits: for each family present in `from` but absent from `to`, both
/// sides that are physically down, in ctrl, shift, alt, meta order,
/// left before right.
/// What one modifier family contributes: nothing when the family is
/// not being reconciled, else both held sides, left before right.
pub open spec fn recon_family_emits(
    enabled: bool,
    left_down: bool,
    right_down: bool,
    lk: Key,
    rk: Key,
    rt: KeyValue,
) -> Seq<InputEvent> {
    if enabled {
        recon_side(left_down, lk, rt) + recon_side(right_down, rk, rt)
    } else {
        Seq::<InputEvent>::empty()
    }
}

pub open spec fn recon_emits(
    s: ModifierState,
    from: ModifierMask,
    to: ModifierMask,
    rt: KeyValue,
) -> Seq<InputEvent> {
    recon_family_emits(from.ctrl && !to.ctrl, s.left_ctrl, s.right_ctrl, Key::LeftCtrl, Key::RightCtrl, rt)
        + recon_family_emits(from.shift && !to.shift, s.left_shift, s.right_shift, Key::LeftShift, Key::RightShift, rt)
        + recon_family_emits(from.alt && !to.alt, s.left_alt, s.right_alt, Key::LeftAlt, Key::RightAlt, rt)
        + recon_family_emits(from.meta && !to.meta, s.left_meta, s.right_meta, Key::LeftMeta, Key::RightMeta, rt)
}

/// The events one step of an action sequence emits under modifier
/// state `s`.
pub open spec fn action_emits(s: ModifierState, a: RuntimeKeyAction) -> Seq<InputEvent> {
    match a {
        RuntimeKeyAction::KeyAction(ka) => seq![
            InputEvent::KeyEv(ka),
            InputEvent::SynReport,
        ],
        RuntimeKeyAction::ReleaseRestoreModifiers(from, to, rt) => recon_emits(s, from, to, rt),
    }
}

/// The events a whole action sequence emits, in order.
pub open spec fn seq_emits(s: ModifierState, actions: Seq<RuntimeKeyAction>) -> Seq<InputEvent>
    decreases actions.len(),
{
    if actions.len() == 0 {
        Seq::<InputEvent>::empty()
    } else {
        seq_emits(s, actions.drop_last()) + action_emits(s, actions.last())
    }
}

/// Everything the engine emits for one incoming event. A non-key event
/// is forwarded verbatim (followed by its sync marker; an incoming sync
/// marker is itself one). A key event is looked up: an action sequence
/// replaces it, a host callback and a no-op swallow it, a miss forwards
/// it unchanged followed by a sync marker.
pub open spec fn rewrite_emits(
    s: ModifierState,
    ev: InputEvent,
    m: Map<KeyFingerprint, MappingEntry>,
) -> Seq<InputEvent> {
    match ev {
        InputEvent::KeyEv(a) => {
            let fp = event_fingerprint(s, a);
            if m.contains_key(fp) {
                match *m[fp].action {
                    RuntimeAction::ActionSequence(sq) => seq_emits(s, sq@),
                    RuntimeAction::HostCallback(_) => Seq::<InputEvent>::empty(),
                    RuntimeAction::NoOp => Seq::<InputEvent>::empty(),
                }
            } else {
                seq![ev, InputEvent::SynReport]
            }
        }
        InputEvent::SynReport => seq![ev],
        InputEvent::Other(_) => seq![ev, InputEvent::SynReport],
    }
}

/// The modifier state after one event: only a key event that no
/// mapping consumed is observed by the tracker; a mapping firing never
/// changes the physical modifier state.
pub open spec fn rewrite_next_state(
    s: ModifierState,
    ev: InputEvent,
    m: Map<KeyFingerprint, MappingEntry>,
) -> ModifierState {
    match ev {
        InputEvent::KeyEv(a) => {
            if m.contains_key(event_fingerprint(s, a)) {
                s
            } else {
                spec_observe(s, a)
            }
        }
        _ => s,
    }
}

/// The host callback one event asks the driver to invoke, if any.
pub open spec fn rewrite_callback(
    s: ModifierState,
    ev: InputEvent,
    m: Map<KeyFingerprint, MappingEntry>,
) -> Option<CallbackHandle> {
    match ev {
        InputEvent::KeyEv(a) => {
            let fp = event_fingerprint(s, a);
            if m.contains_key(fp) {
                match *m[fp].action {
                    RuntimeAction::HostCallback(h) => Some(h),
                    _ => None,
                }
            } else {
                None
            }
        }
        _ => None,
    }
}

/// Appends an event and its sync marker to the output log.
fn push_ev_syn(output: &mut Vec<InputEvent>, ka: KeyAction)
    ensures
        final(output)@ == old(output)@ + seq![
            InputEvent::KeyEv(ka),
            InputEvent::SynReport,
        ],
{
    output.push(InputEvent::KeyEv(ka));
    output.push(InputEvent::SynReport);
    proof {
        assert(final(output)@ =~= old(output)@ + seq![
            InputEvent::KeyEv(ka),
            InputEvent::SynReport,
        ]);
    }
}

/// Executes one reconciliation directive against the physical modifier
/// state, emitting the synthetic release or restore events. The
/// modifier state itself is not changed: the user still physically
/// holds those keys.
fn emit_recon_family(
    enabled: bool,
    left_down: bool,
    right_down: bool,
    lk: Key,
    rk: Key,
    rt: KeyValue,
    output: &mut Vec<InputEvent>,
)
    ensures
        final(output)@ == old(output)@ + recon_family_emits(enabled, left_down, right_down, lk, rk, rt),
{
    let ghost base = output@;
    if enabled {
        if left_down {
            push_ev_syn(output, KeyAction { key: lk, value: rt });
        }
        if right_down {
            push_ev_syn(output, KeyAction { key: rk, value: rt });
        }
        proof {
            assert(output@ =~= base + (recon_side(left_down, lk, rt) + recon_side(
                right_down,
                rk,
                rt,
            )));
        }
    } else {
        proof {
            assert(output@ =~= base + Seq::<InputEvent>::empty());
        }
    }
}

#[verifier::rlimit(100)]
#[verifier::spinoff_prover]
fn emit_reconciliation(
    s: &ModifierState,
    from: ModifierMask,
    to: ModifierMask,
    rt: KeyValue,
    output: &mut Vec<InputEvent>,
)
    ensures
        final(output)@ == old(output)@ + recon_emits(*s, from, to, rt),
{
    let ghost base = output@;
    emit_recon_family(
        from.ctrl && !to.ctrl,
        s.left_ctrl,
        s.right_ctrl,
        Key::LeftCtrl,
        Key::RightCtrl,
        rt,
        output,
    );
    emit_recon_family(
        from.shift && !to.shift,
        s.left_shift,
        s.right_shift,
        Key::LeftShift,
        Key::RightShift,
        rt,
        output,
    );
    emit_recon_family(
        from.alt && !to.alt,
        s.left_alt,
        s.right_alt,
        Key::LeftAlt,
        Key::RightAlt,
        rt,
        output,
    );
    let ghost c3 = output@;
    emit_recon_family(
        from.meta && !to.meta,
        s.left_meta,
        s.right_meta,
        Key::LeftMeta,
        Key::RightMeta,
        rt,
        output,
    );
    proof {
        let f1 = recon_family_emits(from.ctrl && !to.ctrl, s.left_ctrl, s.right_ctrl, Key::LeftCtrl, Key::RightCtrl, rt);
        let f2 = recon_family_emits(from.shift && !to.shift, s.left_shift, s.right_shift, Key::LeftShift, Key::RightShift, rt);
        let f3 = recon_family_emits(from.alt && !to.alt, s.left_alt, s.right_alt, Key::LeftAlt, Key::RightAlt, rt);
        let f4 = recon_family_emits(from.meta && !to.meta, s.left_meta, s.right_meta, Key::LeftMeta, Key::RightMeta, rt);
        lemma_concat4(base, f1, f2, f3, f4);
    }
}

/// Appending four pieces one at a time equals appending their
/// concatenation.
proof fn lemma_concat4<A>(base: Seq<A>, f1: Seq<A>, f2: Seq<A>, f3: Seq<A>, f4: Seq<A>)
    ensures
        base + f1 + f2 + f3 + f4 == base + (f1 + f2 + f3 + f4),
{
    assert(base + f1 + f2 + f3 + f4 =~= base + (f1 + f2 + f3 + f4));
}

/// Executes a compiled action sequence in order: literal actions are
/// emitted with their sync markers, reconciliation directives consult
/// the physical modifier state.
fn execute_sequence(s: ModifierState, actions: &Vec<RuntimeKeyAction>, output: &mut Vec<InputEvent>)
    ensures
        final(output)@ == old(output)@ + seq_emits(s, actions@),
{
    let ghost base = output@;
    let n = actions.len();
    let mut i: usize = 0;
    while i < n
        invariant
            n == actions@.len(),
            0 <= i <= n,
            output@ == base + seq_emits(s, actions@.take(i as int)),
        decreases n - i,
    {
        let ghost pre = output@;
        match &actions[i] {
            RuntimeKeyAction::KeyAction(ka) => {
                push_ev_syn(output, *ka);
            }
            RuntimeKeyAction::ReleaseRestoreModifiers(from, to, rt) => {
                emit_reconciliation(&s, *from, *to, *rt, output);
            }
        }
        proof {
            assert(actions@.take(i + 1).drop_last() =~= actions@.take(i as int));
            assert(actions@.take(i + 1).last() == actions@[i as int]);
            assert(output@ =~= base + seq_emits(s, actions@.take(i + 1)));
        }
        i = i + 1;
    }
    proof {
        assert(actions@.take(n as int) =~= actions@);
    }
}

/// Handles one incoming event, per the per-event algorithm: non-key
/// events pass through; for a key event the fingerprint is formed from
/// the current modifier state and looked up; a hit consumes the event
/// (an action sequence is executed, a host callback handle is returned
/// for the driver to invoke, a no-op swallows it); on a miss the
/// tracker observes the event and it is forwarded unchanged.
pub fn handle_stdin_ev(
    state: &mut ModifierState,
    ev: InputEvent,
    mappings: &Mappings,
    output: &mut Vec<InputEvent>,
) -> (callback: Option<CallbackHandle>)
    requires
        mappings.wf(),
    ensures
        final(output)@ == old(output)@ + rewrite_emits(*old(state), ev, mappings@),
        *final(state) == rewrite_next_state(*old(state), ev, mappings@),
        callback == rewrite_callback(*old(state), ev, mappings@),
{
    let ghost base = output@;
    match ev {
        InputEvent::SynReport => {
            output.push(ev);
            proof {
                assert(output@ =~= base + rewrite_emits(*old(state), ev, mappings@));
            }
            None
        }
        InputEvent::Other(_) => {
            output.push(ev);
            output.push(InputEvent::SynReport);
            proof {
                assert(output@ =~= base + rewrite_emits(*old(state), ev, mappings@));
            }
            None
        }
        InputEvent::KeyEv(action) => {
            let mask = state.mask();
            let fp = KeyFingerprint { key: action.key, value: action.value, modifiers: mask };
            let hit = mappings.lookup(&fp);
            match hit {
                Some(ra) => {
                    match &**ra {
                        RuntimeAction::ActionSequence(sq) => {
                            execute_sequence(*state, sq, output);
                            None
                        }
                        RuntimeAction::HostCallback(h) => Some(*h),
                        RuntimeAction::NoOp => None,
                    }
                }
                None => {
                    update_modifiers(state, &action);
                    output.push(ev);
                    output.push(InputEvent::SynReport);
                    proof {
                        assert(output@ =~= base + rewrite_emits(*old(state), ev, mappings@));
                    }
                    None
                }
            }
        }
    }
}

/// The modifier state after the engine has processed every event in
/// `evs`, in order.
pub open spec fn run_state(
    s: ModifierState,
    m: Map<KeyFingerprint, MappingEntry>,
    evs: Seq<InputEvent>,
) -> ModifierState
    decreases evs.len(),
{
    if evs.len() == 0 {
        s
    } else {
        rewrite_next_state(run_state(s, m, evs.drop_last()), evs.last(), m)
    }
}

/// The whole stream the engine emits for `evs`, in order.
pub open spec fn run_emits(
    s: ModifierState,
    m: Map<KeyFingerprint, MappingEntry>,
    evs: Seq<InputEvent>,
) -> Seq<InputEvent>
    decreases evs.len(),
{
    if evs.len() == 0 {
        Seq::<InputEvent>::empty()
    } else {
        run_emits(s, m, evs.drop_last()) + rewrite_emits(
            run_state(s, m, evs.drop_last()),
            evs.last(),
            m,
        )
    }
}

/// The host callback handles the engine asks the driver to invoke, in
/// order.
pub open spec fn run_callbacks(
    s: ModifierState,
    m: Map<KeyFingerprint, MappingEntry>,
    evs: Seq<InputEvent>,
) -> Seq<CallbackHandle>
    decreases evs.len(),
{
    if evs.len() == 0 {
        Seq::<CallbackHandle>::empty()
    } else {
        run_callbacks(s, m, evs.drop_last()) + (match rewrite_callback(
            run_state(s, m, evs.drop_last()),
            evs.last(),
            m,
        ) {
            Some(h) => seq![h],
            None => Seq::<CallbackHandle>::empty(),
        })
    }
}

/// Processes a batch of events in arrival order against a fixed
/// mapping table, appending every emission to the output log and
/// collecting the callback handles to invoke, in order.
pub fn process_events(
    state: &mut ModifierState,
    mappings: &Mappings,
    events: &Vec<InputEvent>,
    output: &mut Vec<InputEvent>,
) -> (callbacks: Vec<CallbackHandle>)
    requires
        mappings.wf(),
    ensures
        final(output)@ == old(output)@ + run_emits(*old(state), mappings@, events@),
        *final(state) == run_state(*old(state), mappings@, events@),
        callbacks@ == run_callbacks(*old(state), mappings@, events@),
{
    let ghost s0 = *state;
    let ghost base = output@;
    let mut callbacks: Vec<CallbackHandle> = Vec::new();
    let n = events.len();
    let mut i: usize = 0;
    while i < n
        invariant
            mappings.wf(),
            n == events@.len(),
            0 <= i <= n,
            output@ == base + run_emits(s0, mappings@, events@.take(i as int)),
            after_borrow(*state) == run_state(s0, mappings@, events@.take(i as int)),
            callbacks@ == run_callbacks(s0, mappings@, events@.take(i as int)),
        decreases n - i,
    {
        let cb = handle_stdin_ev(state, events[i], mappings, output);
        match cb {
            Some(h) => {
                callbacks.push(h);
            }
            None => {}
        }
        proof {
            assert(events@.take(i + 1).drop_last() =~= events@.take(i as int));
            assert(events@.take(i + 1).last() == events@[i as int]);
            assert(output@ =~= base + run_emits(s0, mappings@, events@.take(i + 1)));
            assert(callbacks@ =~= run_callbacks(s0, mappings@, events@.take(i + 1)));
        }
        i = i + 1;
    }
    proof {
        assert(events@.take(n as int) =~= events@);
    }
    callbacks
}

/// The key actions an event run hands to the modifier tracker: exactly
/// the key events that no mapping consumed.
pub open spec fn observed_actions(
    s: ModifierState,
    m: Map<KeyFingerprint, MappingEntry>,
    evs: Seq<InputEvent>,
) -> Seq<KeyAction>
    decreases evs.len(),
{
    if evs.len() == 0 {
        Seq::<KeyAction>::empty()
    } else {
        let pre = observed_actions(s, m, evs.drop_last());
        let st = run_state(s, m, evs.drop_last());
        match evs.last() {
            InputEvent::KeyEv(a) => {
                if m.contains_key(event_fingerprint(st, a)) {
                    pre
                } else {
                    pre.push(a)
                }
            }
            _ => pre,
        }
    }
}

/// After processing any event sequence, the tracker state equals the
/// fold of plain observations over exactly the events that no mapping
/// consumed.
pub proof fn lemma_run_state_is_observed(
    s: ModifierState,
    m: Map<KeyFingerprint, MappingEntry>,
    evs: Seq<InputEvent>,
)
    ensures
        run_state(s, m, evs) == observe_all(s, observed_actions(s, m, evs)),
    decreases evs.len(),
{
    if evs.len() > 0 {
        lemma_run_state_is_observed(s, m, evs.drop_last());
        let pre = observed_actions(s, m, evs.drop_last());
        match evs.last() {
            InputEvent::KeyEv(a) => {
                let st = run_state(s, m, evs.drop_last());
                if !m.contains_key(event_fingerprint(st, a)) {
                    assert(pre.push(a).drop_last() =~= pre);
                }
            }
            _ => {}
        }
    }
}

/// After processing any event sequence, the tracker's record of each
/// of the eight modifier keys equals the parity of DOWN and UP events
/// seen for that key, restricted to the events no mapping consumed.
pub proof fn lemma_engine_tracker_parity(
    s: ModifierState,
    m: Map<KeyFingerprint, MappingEntry>,
    evs: Seq<InputEvent>,
    k: Key,
)
    requires
        crate::keys::is_modifier_key(k),
    ensures
        crate::modifiers::modifier_down(run_state(s, m, evs), k)
            == crate::modifiers::parity_down(
            crate::modifiers::modifier_down(s, k),
            observed_actions(s, m, evs),
            k,
        ),
{
    lemma_run_state_is_observed(s, m, evs);
    crate::modifiers::lemma_tracker_parity(s, observed_actions(s, m, evs), k);
}

/// Sync discipline over an output stream: every event other than a
/// sync marker is immediately followed by one, and a non-empty stream
/// ends with one.
pub open spec fn syn_complete(out: Seq<InputEvent>) -> bool {
    &&& forall|i: int|
        0 <= i < out.len() && #[trigger] out[i] != InputEvent::SynReport ==> i + 1 < out.len()
            && out[i + 1] == InputEvent::SynReport
    &&& out.len() > 0 ==> out.last() == InputEvent::SynReport
}

/// Concatenation preserves sync discipline.
pub proof fn lemma_syn_complete_concat(a: Seq<InputEvent>, b: Seq<InputEvent>)
    requires
        syn_complete(a),
        syn_complete(b),
    ensures
        syn_complete(a + b),
{
    let c = a + b;
    assert forall|i: int|
        0 <= i < c.len() && #[trigger] c[i] != InputEvent::SynReport implies i + 1 < c.len()
        && c[i + 1] == InputEvent::SynReport by {
        if i < a.len() {
            assert(c[i] == a[i]);
            assert(i + 1 < a.len());
            assert(c[i + 1] == a[i + 1]);
        } else {
            assert(c[i] == b[i - a.len()]);
            assert(i - a.len() + 1 < b.len());
            assert(c[i + 1] == b[i - a.len() + 1]);
        }
    }
    if c.len() > 0 {
        if b.len() > 0 {
            assert(c.last() == b.last());
        } else {
            assert(c.last() == a.last());
        }
    }
}

proof fn lemma_recon_family_syn_complete(
    enabled: bool,
    left_down: bool,
    right_down: bool,
    lk: Key,
    rk: Key,
    rt: KeyValue,
)
    ensures
        syn_complete(recon_family_emits(enabled, left_down, right_down, lk, rk, rt)),
{
    if enabled {
        lemma_syn_complete_concat(recon_side(left_down, lk, rt), recon_side(right_down, rk, rt));
    }
}

proof fn lemma_recon_syn_complete(s: ModifierState, from: ModifierMask, to: ModifierMask, rt: KeyValue)
    ensures
        syn_complete(recon_emits(s, from, to, rt)),
{
    let f1 = recon_family_emits(from.ctrl && !to.ctrl, s.left_ctrl, s.right_ctrl, Key::LeftCtrl, Key::RightCtrl, rt);
    let f2 = recon_family_emits(from.shift && !to.shift, s.left_shift, s.right_shift, Key::LeftShift, Key::RightShift, rt);
    let f3 = recon_family_emits(from.alt && !to.alt, s.left_alt, s.right_alt, Key::LeftAlt, Key::RightAlt, rt);
    let f4 = recon_family_emits(from.meta && !to.meta, s.left_meta, s.right_meta, Key::LeftMeta, Key::RightMeta, rt);
    lemma_recon_family_syn_complete(from.ctrl && !to.ctrl, s.left_ctrl, s.right_ctrl, Key::LeftCtrl, Key::RightCtrl, rt);
    lemma_recon_family_syn_complete(from.shift && !to.shift, s.left_shift, s.right_shift, Key::LeftShift, Key::RightShift, rt);
    lemma_recon_family_syn_complete(from.alt && !to.alt, s.left_alt, s.right_alt, Key::LeftAlt, Key::RightAlt, rt);
    lemma_recon_family_syn_complete(from.meta && !to.meta, s.left_meta, s.right_meta, Key::LeftMeta, Key::RightMeta, rt);
    lemma_syn_complete_concat(f1, f2);
    lemma_syn_complete_concat(f1 + f2, f3);
    lemma_syn_complete_concat(f1 + f2 + f3, f4);
}

proof fn lemma_seq_emits_syn_complete(s: ModifierState, actions: Seq<RuntimeKeyAction>)
    ensures
        syn_complete(seq_emits(s, actions)),
    decreases actions.len(),
{
    if actions.len() > 0 {
        lemma_seq_emits_syn_complete(s, actions.drop_last());
        match actions.last() {
            RuntimeKeyAction::KeyAction(ka) => {
                assert(syn_complete(action_emits(s, actions.last())));
            }
            RuntimeKeyAction::ReleaseRestoreModifiers(from, to, rt) => {
                lemma_recon_syn_complete(s, from, to, rt);
            }
        }
        lemma_syn_complete_concat(seq_emits(s, actions.drop_last()), action_emits(s, actions.last()));
    }
}

/// Every event the engine emits for one incoming event is followed
/// immediately by a sync marker; appending to a disciplined log keeps
/// the whole log disciplined.
pub proof fn lemma_sync_after_every_event(
    log: Seq<InputEvent>,
    s: ModifierState,
    ev: InputEvent,
    m: Map<KeyFingerprint, MappingEntry>,
)
    requires
        syn_complete(log),
    ensures
        syn_complete(rewrite_emits(s, ev, m)),
        syn_complete(log + rewrite_emits(s, ev, m)),
{
    match ev {
        InputEvent::KeyEv(a) => {
            let fp = event_fingerprint(s, a);
            if m.contains_key(fp) {
                match *m[fp].action {
                    RuntimeAction::ActionSequence(sq) => {
                        lemma_seq_emits_syn_complete(s, sq@);
                    }
                    _ => {}
                }
            }
        }
        _ => {}
    }
    lemma_syn_complete_concat(log, rewrite_emits(s, ev, m));
}

/// For an event with no matching fingerprint, the engine emits exactly
/// the input event, unchanged, followed by its sync marker.
pub proof fn lemma_unmapped_passthrough(
    s: ModifierState,
    a: KeyAction,
    m: Map<KeyFingerprint, MappingEntry>,
)
    requires
        !m.contains_key(event_fingerprint(s, a)),
    ensures
        rewrite_emits(s, InputEvent::KeyEv(a), m) == seq![
            InputEvent::KeyEv(a),
            InputEvent::SynReport,
        ],
        rewrite_emits(s, InputEvent::KeyEv(a), m)[0] == InputEvent::KeyEv(a),
{
}

/// The synthetic releases issued at engine shutdown: an UP plus sync
/// marker for every modifier key recorded as down, so the downstream
/// consumer is not left with stuck modifiers.
pub open spec fn release_emits(s: ModifierState) -> Seq<InputEvent> {
    recon_emits(
        s,
        ModifierMask { ctrl: true, alt: true, shift: true, meta: true },
        ModifierMask { ctrl: false, alt: false, shift: false, meta: false },
        KeyValue::Up,
    )
}

/// Emits a best-effort synthetic UP for every modifier recorded as
/// currently down, used when the engine shuts down.
pub fn release_stuck_modifiers(state: &ModifierState, output: &mut Vec<InputEvent>)
    ensures
        final(output)@ == old(output)@ + release_emits(*state),
{
    emit_reconciliation(
        state,
        ModifierMask { ctrl: true, alt: true, shift: true, meta: true },
        ModifierMask { ctrl: false, alt: false, shift: false, meta: false },
        KeyValue::Up,
        output,
    );
}

} // verus!

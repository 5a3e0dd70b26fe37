//! The host API's compute side: turning textual key sequences into
//! event streams, and user mapping declarations into table rows, with
//! the reconciliation directives placed around the payload.
//!
//! The driver that embeds the engine posts each returned row as an
//! `AddMapping` control message and sends each returned event to the
//! output channel.

use vstd::prelude::*;
use crate::keys::{InputEvent, Key, KeyAction, KeyValue};
use crate::modifiers::ModifierMask;
use crate::parse::{
    parse_key_sequence, parse_key_sequence_s, ApiError, KeyClickActionWithMods, ParsedKeyAction,
};
use crate::table::{CallbackHandle, KeyFingerprint, RuntimeAction, RuntimeKeyAction};

verus! {

/// The empty modifier mask.
pub open spec fn mask_none() -> ModifierMask {
    ModifierMask { ctrl: false, alt: false, shift: false, meta: false }
}

/// One modifier family's contribution to pressing or releasing a
/// mask: its left-side key when the family is in the mask.
pub open spec fn family_act(enabled: bool, k: Key, v: KeyValue) -> Seq<KeyAction> {
    if enabled {
        seq![KeyAction { key: k, value: v }]
    } else {
        Seq::<KeyAction>::empty()
    }
}

/// The key actions that press (or release) every modifier of a mask,
/// in ctrl, alt, shift, meta order.
pub open spec fn mask_actions(m: ModifierMask, v: KeyValue) -> Seq<KeyAction> {
    family_act(m.ctrl, Key::LeftCtrl, v) + family_act(m.alt, Key::LeftAlt, v) + family_act(
        m.shift,
        Key::LeftShift,
        v,
    ) + family_act(m.meta, Key::LeftMeta, v)
}

/// The key actions one parsed token stands for when sent: a directed
/// token is itself; a click presses its modifiers, clicks the key, and
/// releases its modifiers.
pub open spec fn token_key_actions(t: ParsedKeyAction) -> Seq<KeyAction> {
    match t {
        ParsedKeyAction::KeyAction(fp) => seq![KeyAction { key: fp.key, value: fp.value }],
        ParsedKeyAction::KeyClickAction(c) => mask_actions(c.modifiers, KeyValue::Down) + seq![
            KeyAction { key: c.key, value: KeyValue::Down },
            KeyAction { key: c.key, value: KeyValue::Up },
        ] + mask_actions(c.modifiers, KeyValue::Up),
    }
}

/// The key actions of a whole token sequence, in order.
pub open spec fn tokens_key_actions(ts: Seq<ParsedKeyAction>) -> Seq<KeyAction>
    decreases ts.len(),
{
    if ts.len() == 0 {
        Seq::<KeyAction>::empty()
    } else {
        tokens_key_actions(ts.drop_last()) + token_key_actions(ts.last())
    }
}

/// The stream sent for a list of key actions: each event followed by
/// its sync marker.
pub open spec fn events_with_syn(kas: Seq<KeyAction>) -> Seq<InputEvent>
    decreases kas.len(),
{
    if kas.len() == 0 {
        Seq::<InputEvent>::empty()
    } else {
        events_with_syn(kas.drop_last()) + seq![
            InputEvent::KeyEv(kas.last()),
            InputEvent::SynReport,
        ]
    }
}

/// Literal emissions for a list of key actions, as sequence steps.
pub open spec fn rka_list(kas: Seq<KeyAction>) -> Seq<RuntimeKeyAction>
    decreases kas.len(),
{
    if kas.len() == 0 {
        Seq::<RuntimeKeyAction>::empty()
    } else {
        rka_list(kas.drop_last()) + seq![RuntimeKeyAction::KeyAction(kas.last())]
    }
}

/// Whether `a` is an action sequence with exactly the steps `s`.
pub open spec fn action_seq_is(a: RuntimeAction, s: Seq<RuntimeKeyAction>) -> bool {
    a matches RuntimeAction::ActionSequence(v) && v@ == s
}

proof fn lemma_concat3<A>(x: Seq<A>, a: Seq<A>, b: Seq<A>, c: Seq<A>)
    ensures
        x + a + b + c == x + (a + b + c),
{
    assert(x + a + b + c =~= x + (a + b + c));
}

proof fn lemma_concat4<A>(x: Seq<A>, a: Seq<A>, b: Seq<A>, c: Seq<A>, d: Seq<A>)
    ensures
        x + a + b + c + d == x + (a + b + c + d),
{
    assert(x + a + b + c + d =~= x + (a + b + c + d));
}

fn push_family_act(out: &mut Vec<KeyAction>, enabled: bool, k: Key, v: KeyValue)
    ensures
        final(out)@ == old(out)@ + family_act(enabled, k, v),
{
    let ghost base = out@;
    if enabled {
        out.push(KeyAction { key: k, value: v });
    }
    proof {
        assert(out@ =~= base + family_act(enabled, k, v));
    }
}

fn push_mask_actions(out: &mut Vec<KeyAction>, m: ModifierMask, v: KeyValue)
    ensures
        final(out)@ == old(out)@ + mask_actions(m, v),
{
    let ghost base = out@;
    push_family_act(out, m.ctrl, Key::LeftCtrl, v);
    push_family_act(out, m.alt, Key::LeftAlt, v);
    push_family_act(out, m.shift, Key::LeftShift, v);
    push_family_act(out, m.meta, Key::LeftMeta, v);
    proof {
        lemma_concat4(
            base,
            family_act(m.ctrl, Key::LeftCtrl, v),
            family_act(m.alt, Key::LeftAlt, v),
            family_act(m.shift, Key::LeftShift, v),
            family_act(m.meta, Key::LeftMeta, v),
        );
    }
}

fn push_token_actions(out: &mut Vec<KeyAction>, t: &ParsedKeyAction)
    ensures
        final(out)@ == old(out)@ + token_key_actions(*t),
{
    let ghost base = out@;
    match t {
        ParsedKeyAction::KeyAction(fp) => {
            out.push(KeyAction { key: fp.key, value: fp.value });
            proof {
                assert(out@ =~= base + token_key_actions(*t));
            }
        }
        ParsedKeyAction::KeyClickAction(c) => {
            push_mask_actions(out, c.modifiers, KeyValue::Down);
            out.push(KeyAction { key: c.key, value: KeyValue::Down });
            out.push(KeyAction { key: c.key, value: KeyValue::Up });
            proof {
                assert(out@ =~= base + mask_actions(c.modifiers, KeyValue::Down) + seq![
                    KeyAction { key: c.key, value: KeyValue::Down },
                    KeyAction { key: c.key, value: KeyValue::Up },
                ]);
            }
            push_mask_actions(out, c.modifiers, KeyValue::Up);
            proof {
                lemma_concat3(
                    base,
                    mask_actions(c.modifiers, KeyValue::Down),
                    seq![
                        KeyAction { key: c.key, value: KeyValue::Down },
                        KeyAction { key: c.key, value: KeyValue::Up },
                    ],
                    mask_actions(c.modifiers, KeyValue::Up),
                );
            }
        }
    }
}

/// The key actions a parsed token sequence stands for, in order.
pub fn to_key_actions(ts: &Vec<ParsedKeyAction>) -> (r: Vec<KeyAction>)
    ensures
        r@ == tokens_key_actions(ts@),
{
    let mut out: Vec<KeyAction> = Vec::new();
    let n = ts.len();
    let mut i: usize = 0;
    while i < n
        invariant
            n == ts@.len(),
            0 <= i <= n,
            out@ == tokens_key_actions(ts@.take(i as int)),
        decreases n - i,
    {
        push_token_actions(&mut out, &ts[i]);
        proof {
            assert(ts@.take(i + 1).drop_last() =~= ts@.take(i as int));
            assert(ts@.take(i + 1).last() == ts@[i as int]);
        }
        i = i + 1;
    }
    proof {
        assert(ts@.take(n as int) =~= ts@);
    }
    out
}

/// Parses a key-sequence string and produces the exact event stream to
/// send: each resulting key event followed by a sync marker. Fails
/// exactly on malformed input.
pub fn send_events(s: &[u8]) -> (r: Result<Vec<InputEvent>, ApiError>)
    ensures
        match parse_key_sequence_s(s@) {
            Some(ts) => r matches Ok(v) && v@ == events_with_syn(tokens_key_actions(ts)),
            None => r == Err::<Vec<InputEvent>, ApiError>(ApiError::ParseError),
        },
{
    let ts = match parse_key_sequence(s) {
        Ok(ts) => ts,
        Err(e) => {
            return Err(e);
        }
    };
    let kas = to_key_actions(&ts);
    let mut out: Vec<InputEvent> = Vec::new();
    let n = kas.len();
    let mut i: usize = 0;
    while i < n
        invariant
            n == kas@.len(),
            0 <= i <= n,
            out@ == events_with_syn(kas@.take(i as int)),
        decreases n - i,
    {
        out.push(InputEvent::KeyEv(kas[i]));
        out.push(InputEvent::SynReport);
        proof {
            assert(kas@.take(i + 1).drop_last() =~= kas@.take(i as int));
            assert(kas@.take(i + 1).last() == kas@[i as int]);
            assert(out@ =~= events_with_syn(kas@.take(i as int)) + seq![
                InputEvent::KeyEv(kas@[i as int]),
                InputEvent::SynReport,
            ]);
        }
        i = i + 1;
    }
    proof {
        assert(kas@.take(n as int) =~= kas@);
    }
    Ok(out)
}

/// Parses a string that must denote exactly one key action of a
/// modifier key. Returns the action — which the driver must also post
/// as an `UpdateModifiers` message, so the tracker learns of the
/// synthetic press — and the event stream to send. Fails exactly when
/// the input is malformed, denotes more than one action, or denotes a
/// non-modifier key.
pub fn send_modifier_events(s: &[u8]) -> (r: Result<(KeyAction, Vec<InputEvent>), ApiError>)
    ensures
        match parse_key_sequence_s(s@) {
            Some(ts) => {
                let kas = tokens_key_actions(ts);
                if kas.len() == 1 && crate::keys::is_modifier_key(kas[0].key) {
                    r matches Ok(p) && p.0 == kas[0] && p.1@ == seq![
                        InputEvent::KeyEv(kas[0]),
                        InputEvent::SynReport,
                    ]
                } else {
                    r == Err::<(KeyAction, Vec<InputEvent>), ApiError>(ApiError::ParseError)
                }
            }
            None => r == Err::<(KeyAction, Vec<InputEvent>), ApiError>(ApiError::ParseError),
        },
{
    let ts = match parse_key_sequence(s) {
        Ok(ts) => ts,
        Err(e) => {
            return Err(e);
        }
    };
    let kas = to_key_actions(&ts);
    if kas.len() != 1 {
        return Err(ApiError::ParseError);
    }
    let a = kas[0];
    if !a.key.is_modifier() {
        return Err(ApiError::ParseError);
    }
    let mut out: Vec<InputEvent> = Vec::new();
    out.push(InputEvent::KeyEv(a));
    out.push(InputEvent::SynReport);
    proof {
        assert(out@ =~= seq![InputEvent::KeyEv(a), InputEvent::SynReport]);
    }
    Ok((a, out))
}

/// The compiled steps of a directed-action-to-directed-action mapping:
/// release the surplus modifiers, then the payload. The physical
/// modifiers are not restored afterwards; the user's own UP events
/// still reach the tracker.
pub open spec fn compiled_action_to_action(f: KeyFingerprint, t: KeyFingerprint) -> Seq<
    RuntimeKeyAction,
> {
    seq![
        RuntimeKeyAction::ReleaseRestoreModifiers(f.modifiers, t.modifiers, KeyValue::Up),
        RuntimeKeyAction::KeyAction(KeyAction { key: t.key, value: t.value }),
    ]
}

/// Directed action to click: release surplus modifiers, press the
/// target's modifiers, click, release them, restore.
pub open spec fn compiled_action_to_click(f: KeyFingerprint, t: KeyClickActionWithMods) -> Seq<
    RuntimeKeyAction,
> {
    seq![RuntimeKeyAction::ReleaseRestoreModifiers(f.modifiers, t.modifiers, KeyValue::Up)]
        + rka_list(mask_actions(t.modifiers, KeyValue::Down)) + seq![
        RuntimeKeyAction::KeyAction(KeyAction { key: t.key, value: KeyValue::Down }),
        RuntimeKeyAction::KeyAction(KeyAction { key: t.key, value: KeyValue::Up }),
    ] + rka_list(mask_actions(t.modifiers, KeyValue::Up)) + seq![
        RuntimeKeyAction::ReleaseRestoreModifiers(f.modifiers, t.modifiers, KeyValue::Down),
    ]
}

/// Directed action to sequence: release all held mapping modifiers,
/// play the whole payload, restore.
pub open spec fn compiled_action_to_seq(f: KeyFingerprint, ts: Seq<ParsedKeyAction>) -> Seq<
    RuntimeKeyAction,
> {
    seq![RuntimeKeyAction::ReleaseRestoreModifiers(f.modifiers, mask_none(), KeyValue::Up)]
        + rka_list(tokens_key_actions(ts)) + seq![
        RuntimeKeyAction::ReleaseRestoreModifiers(f.modifiers, mask_none(), KeyValue::Down),
    ]
}

/// The DOWN row of a click-to-click mapping.
pub open spec fn compiled_click_down(f: KeyClickActionWithMods, t: KeyClickActionWithMods) -> Seq<
    RuntimeKeyAction,
> {
    seq![RuntimeKeyAction::ReleaseRestoreModifiers(f.modifiers, t.modifiers, KeyValue::Up)]
        + rka_list(mask_actions(t.modifiers, KeyValue::Down)) + seq![
        RuntimeKeyAction::KeyAction(KeyAction { key: t.key, value: KeyValue::Down }),
    ]
}

/// The UP row of a click-to-click mapping.
pub open spec fn compiled_click_up(f: KeyClickActionWithMods, t: KeyClickActionWithMods) -> Seq<
    RuntimeKeyAction,
> {
    seq![RuntimeKeyAction::KeyAction(KeyAction { key: t.key, value: KeyValue::Up })] + rka_list(
        mask_actions(t.modifiers, KeyValue::Up),
    ) + seq![
        RuntimeKeyAction::ReleaseRestoreModifiers(f.modifiers, t.modifiers, KeyValue::Down),
    ]
}

/// The REPEAT row of a click-to-click mapping.
pub open spec fn compiled_click_repeat(t: KeyClickActionWithMods) -> Seq<RuntimeKeyAction> {
    seq![RuntimeKeyAction::KeyAction(KeyAction { key: t.key, value: KeyValue::Repeat })]
}

/// The fingerprint of one direction of a click.
pub open spec fn click_fp(c: KeyClickActionWithMods, v: KeyValue) -> KeyFingerprint {
    KeyFingerprint { key: c.key, value: v, modifiers: c.modifiers }
}

fn push_rka_list(out: &mut Vec<RuntimeKeyAction>, kas: &Vec<KeyAction>)
    ensures
        final(out)@ == old(out)@ + rka_list(kas@),
{
    let ghost base = out@;
    let n = kas.len();
    let mut i: usize = 0;
    while i < n
        invariant
            n == kas@.len(),
            0 <= i <= n,
            out@ == base + rka_list(kas@.take(i as int)),
        decreases n - i,
    {
        out.push(RuntimeKeyAction::KeyAction(kas[i]));
        proof {
            assert(kas@.take(i + 1).drop_last() =~= kas@.take(i as int));
            assert(kas@.take(i + 1).last() == kas@[i as int]);
            assert(out@ =~= base + rka_list(kas@.take(i + 1)));
        }
        i = i + 1;
    }
    proof {
        assert(kas@.take(n as int) =~= kas@);
    }
}

fn mask_action_vec(m: ModifierMask, v: KeyValue) -> (r: Vec<KeyAction>)
    ensures
        r@ == mask_actions(m, v),
{
    let mut out: Vec<KeyAction> = Vec::new();
    push_mask_actions(&mut out, m, v);
    proof {
        assert(out@ =~= mask_actions(m, v));
    }
    out
}

/// Compiles a directed-action-to-directed-action mapping.
pub fn map_action_to_action(from: &KeyFingerprint, to: &KeyFingerprint) -> (r: (
    KeyFingerprint,
    RuntimeAction,
))
    ensures
        r.0 == *from,
        action_seq_is(r.1, compiled_action_to_action(*from, *to)),
{
    let mut steps: Vec<RuntimeKeyAction> = Vec::new();
    steps.push(
        RuntimeKeyAction::ReleaseRestoreModifiers(from.modifiers, to.modifiers, KeyValue::Up),
    );
    steps.push(RuntimeKeyAction::KeyAction(KeyAction { key: to.key, value: to.value }));
    proof {
        assert(steps@ =~= compiled_action_to_action(*from, *to));
    }
    (*from, RuntimeAction::ActionSequence(steps))
}

/// Compiles a directed-action-to-click mapping.
pub fn map_action_to_click(from: &KeyFingerprint, to: &KeyClickActionWithMods) -> (r: (
    KeyFingerprint,
    RuntimeAction,
))
    ensures
        r.0 == *from,
        action_seq_is(r.1, compiled_action_to_click(*from, *to)),
{
    let mut steps: Vec<RuntimeKeyAction> = Vec::new();
    steps.push(
        RuntimeKeyAction::ReleaseRestoreModifiers(from.modifiers, to.modifiers, KeyValue::Up),
    );
    let downs = mask_action_vec(to.modifiers, KeyValue::Down);
    push_rka_list(&mut steps, &downs);
    steps.push(RuntimeKeyAction::KeyAction(KeyAction { key: to.key, value: KeyValue::Down }));
    steps.push(RuntimeKeyAction::KeyAction(KeyAction { key: to.key, value: KeyValue::Up }));
    let ups = mask_action_vec(to.modifiers, KeyValue::Up);
    push_rka_list(&mut steps, &ups);
    steps.push(
        RuntimeKeyAction::ReleaseRestoreModifiers(from.modifiers, to.modifiers, KeyValue::Down),
    );
    proof {
        assert(steps@ =~= compiled_action_to_click(*from, *to));
    }
    (*from, RuntimeAction::ActionSequence(steps))
}

/// Compiles a directed-action-to-sequence mapping.
pub fn map_action_to_seq(from: &KeyFingerprint, ts: &Vec<ParsedKeyAction>) -> (r: (
    KeyFingerprint,
    RuntimeAction,
))
    ensures
        r.0 == *from,
        action_seq_is(r.1, compiled_action_to_seq(*from, ts@)),
{
    let none = ModifierMask::none();
    let mut steps: Vec<RuntimeKeyAction> = Vec::new();
    steps.push(RuntimeKeyAction::ReleaseRestoreModifiers(from.modifiers, none, KeyValue::Up));
    let kas = to_key_actions(ts);
    push_rka_list(&mut steps, &kas);
    steps.push(RuntimeKeyAction::ReleaseRestoreModifiers(from.modifiers, none, KeyValue::Down));
    proof {
        assert(steps@ =~= compiled_action_to_seq(*from, ts@));
    }
    (*from, RuntimeAction::ActionSequence(steps))
}

/// Compiles a click-to-click mapping: three rows, one per direction.
pub fn map_click_to_click(from: &KeyClickActionWithMods, to: &KeyClickActionWithMods) -> (r: Vec<
    (KeyFingerprint, RuntimeAction),
>)
    ensures
        r@.len() == 3,
        r@[0].0 == click_fp(*from, KeyValue::Down),
        action_seq_is(r@[0].1, compiled_click_down(*from, *to)),
        r@[1].0 == click_fp(*from, KeyValue::Up),
        action_seq_is(r@[1].1, compiled_click_up(*from, *to)),
        r@[2].0 == click_fp(*from, KeyValue::Repeat),
        action_seq_is(r@[2].1, compiled_click_repeat(*to)),
{
    let mut down: Vec<RuntimeKeyAction> = Vec::new();
    down.push(
        RuntimeKeyAction::ReleaseRestoreModifiers(from.modifiers, to.modifiers, KeyValue::Up),
    );
    let downs = mask_action_vec(to.modifiers, KeyValue::Down);
    push_rka_list(&mut down, &downs);
    down.push(RuntimeKeyAction::KeyAction(KeyAction { key: to.key, value: KeyValue::Down }));
    proof {
        assert(down@ =~= compiled_click_down(*from, *to));
    }
    let mut up: Vec<RuntimeKeyAction> = Vec::new();
    up.push(RuntimeKeyAction::KeyAction(KeyAction { key: to.key, value: KeyValue::Up }));
    let ups = mask_action_vec(to.modifiers, KeyValue::Up);
    push_rka_list(&mut up, &ups);
    up.push(
        RuntimeKeyAction::ReleaseRestoreModifiers(from.modifiers, to.modifiers, KeyValue::Down),
    );
    proof {
        assert(up@ =~= compiled_click_up(*from, *to));
    }
    let mut rep: Vec<RuntimeKeyAction> = Vec::new();
    rep.push(RuntimeKeyAction::KeyAction(KeyAction { key: to.key, value: KeyValue::Repeat }));
    proof {
        assert(rep@ =~= compiled_click_repeat(*to));
    }
    let mut rows: Vec<(KeyFingerprint, RuntimeAction)> = Vec::new();
    rows.push(
        (
            KeyFingerprint { key: from.key, value: KeyValue::Down, modifiers: from.modifiers },
            RuntimeAction::ActionSequence(down),
        ),
    );
    rows.push(
        (
            KeyFingerprint { key: from.key, value: KeyValue::Up, modifiers: from.modifiers },
            RuntimeAction::ActionSequence(up),
        ),
    );
    rows.push(
        (
            KeyFingerprint { key: from.key, value: KeyValue::Repeat, modifiers: from.modifiers },
            RuntimeAction::ActionSequence(rep),
        ),
    );
    rows
}

/// Compiles a click-to-directed-action mapping: the action fires on
/// DOWN; UP and REPEAT are swallowed.
pub fn map_click_to_action(from: &KeyClickActionWithMods, to: &KeyFingerprint) -> (r: Vec<
    (KeyFingerprint, RuntimeAction),
>)
    ensures
        r@.len() == 3,
        r@[0].0 == click_fp(*from, KeyValue::Down),
        action_seq_is(
            r@[0].1,
            compiled_action_to_action(click_fp(*from, KeyValue::Down), *to),
        ),
        r@[1].0 == click_fp(*from, KeyValue::Up),
        r@[1].1 is NoOp,
        r@[2].0 == click_fp(*from, KeyValue::Repeat),
        r@[2].1 is NoOp,
{
    let down_fp = KeyFingerprint {
        key: from.key,
        value: KeyValue::Down,
        modifiers: from.modifiers,
    };
    let (fp, action) = map_action_to_action(&down_fp, to);
    let mut rows: Vec<(KeyFingerprint, RuntimeAction)> = Vec::new();
    rows.push((fp, action));
    rows.push(
        (
            KeyFingerprint { key: from.key, value: KeyValue::Up, modifiers: from.modifiers },
            RuntimeAction::NoOp,
        ),
    );
    rows.push(
        (
            KeyFingerprint { key: from.key, value: KeyValue::Repeat, modifiers: from.modifiers },
            RuntimeAction::NoOp,
        ),
    );
    rows
}

/// Compiles a click-to-sequence mapping: the sequence plays on DOWN;
/// UP and REPEAT are swallowed.
pub fn map_click_to_seq(from: &KeyClickActionWithMods, ts: &Vec<ParsedKeyAction>) -> (r: Vec<
    (KeyFingerprint, RuntimeAction),
>)
    ensures
        r@.len() == 3,
        r@[0].0 == click_fp(*from, KeyValue::Down),
        action_seq_is(
            r@[0].1,
            compiled_action_to_seq(click_fp(*from, KeyValue::Down), ts@),
        ),
        r@[1].0 == click_fp(*from, KeyValue::Up),
        r@[1].1 is NoOp,
        r@[2].0 == click_fp(*from, KeyValue::Repeat),
        r@[2].1 is NoOp,
{
    let down_fp = KeyFingerprint {
        key: from.key,
        value: KeyValue::Down,
        modifiers: from.modifiers,
    };
    let (fp, action) = map_action_to_seq(&down_fp, ts);
    let mut rows: Vec<(KeyFingerprint, RuntimeAction)> = Vec::new();
    rows.push((fp, action));
    rows.push(
        (
            KeyFingerprint { key: from.key, value: KeyValue::Up, modifiers: from.modifiers },
            RuntimeAction::NoOp,
        ),
    );
    rows.push(
        (
            KeyFingerprint { key: from.key, value: KeyValue::Repeat, modifiers: from.modifiers },
            RuntimeAction::NoOp,
        ),
    );
    rows
}

/// What `map_internal` must produce for a parsed `from` and `to`.
pub open spec fn map_internal_post(
    f: ParsedKeyAction,
    ts: Seq<ParsedKeyAction>,
    v: Seq<(KeyFingerprint, RuntimeAction)>,
) -> bool {
    match f {
        ParsedKeyAction::KeyAction(ffp) => {
            if ts.len() == 1 {
                match ts[0] {
                    ParsedKeyAction::KeyClickAction(tc) => v.len() == 1 && v[0].0 == ffp
                        && action_seq_is(v[0].1, compiled_action_to_click(ffp, tc)),
                    ParsedKeyAction::KeyAction(tfp) => v.len() == 1 && v[0].0 == ffp
                        && action_seq_is(v[0].1, compiled_action_to_action(ffp, tfp)),
                }
            } else {
                v.len() == 1 && v[0].0 == ffp && action_seq_is(
                    v[0].1,
                    compiled_action_to_seq(ffp, ts),
                )
            }
        }
        ParsedKeyAction::KeyClickAction(fc) => {
            if ts.len() == 1 {
                match ts[0] {
                    ParsedKeyAction::KeyClickAction(tc) => {
                        &&& v.len() == 3
                        &&& v[0].0 == click_fp(fc, KeyValue::Down)
                        &&& action_seq_is(v[0].1, compiled_click_down(fc, tc))
                        &&& v[1].0 == click_fp(fc, KeyValue::Up)
                        &&& action_seq_is(v[1].1, compiled_click_up(fc, tc))
                        &&& v[2].0 == click_fp(fc, KeyValue::Repeat)
                        &&& action_seq_is(v[2].1, compiled_click_repeat(tc))
                    }
                    ParsedKeyAction::KeyAction(tfp) => {
                        &&& v.len() == 3
                        &&& v[0].0 == click_fp(fc, KeyValue::Down)
                        &&& action_seq_is(
                            v[0].1,
                            compiled_action_to_action(click_fp(fc, KeyValue::Down), tfp),
                        )
                        &&& v[1].0 == click_fp(fc, KeyValue::Up) && v[1].1 is NoOp
                        &&& v[2].0 == click_fp(fc, KeyValue::Repeat) && v[2].1 is NoOp
                    }
                }
            } else {
                &&& v.len() == 3
                &&& v[0].0 == click_fp(fc, KeyValue::Down)
                &&& action_seq_is(
                    v[0].1,
                    compiled_action_to_seq(click_fp(fc, KeyValue::Down), ts),
                )
                &&& v[1].0 == click_fp(fc, KeyValue::Up) && v[1].1 is NoOp
                &&& v[2].0 == click_fp(fc, KeyValue::Repeat) && v[2].1 is NoOp
            }
        }
    }
}

/// Compiles a `map(from, to)` declaration where `to` is a key-sequence
/// string: the rows to insert into the mapping table. `from` must
/// denote exactly one token; errors are exactly the malformed inputs.
pub fn map_internal(from: &[u8], to: &[u8]) -> (r: Result<
    Vec<(KeyFingerprint, RuntimeAction)>,
    ApiError,
>)
    ensures
        match parse_key_sequence_s(from@) {
            None => r == Err::<Vec<(KeyFingerprint, RuntimeAction)>, ApiError>(
                ApiError::ParseError,
            ),
            Some(fts) => {
                if fts.len() != 1 {
                    r == Err::<Vec<(KeyFingerprint, RuntimeAction)>, ApiError>(
                        ApiError::ParseError,
                    )
                } else {
                    match parse_key_sequence_s(to@) {
                        None => r == Err::<Vec<(KeyFingerprint, RuntimeAction)>, ApiError>(
                            ApiError::ParseError,
                        ),
                        Some(tts) => r matches Ok(v) && map_internal_post(fts[0], tts, v@),
                    }
                }
            }
        },
{
    let f = match crate::parse::parse_key_action_with_mods(from) {
        Ok(f) => f,
        Err(e) => {
            return Err(e);
        }
    };
    let ts = match parse_key_sequence(to) {
        Ok(ts) => ts,
        Err(e) => {
            return Err(e);
        }
    };
    match f {
        ParsedKeyAction::KeyAction(ffp) => {
            let row = if ts.len() == 1 {
                match &ts[0] {
                    ParsedKeyAction::KeyClickAction(tc) => map_action_to_click(&ffp, tc),
                    ParsedKeyAction::KeyAction(tfp) => map_action_to_action(&ffp, tfp),
                }
            } else {
                map_action_to_seq(&ffp, &ts)
            };
            let mut rows: Vec<(KeyFingerprint, RuntimeAction)> = Vec::new();
            rows.push(row);
            Ok(rows)
        }
        ParsedKeyAction::KeyClickAction(fc) => {
            if ts.len() == 1 {
                match &ts[0] {
                    ParsedKeyAction::KeyClickAction(tc) => Ok(map_click_to_click(&fc, tc)),
                    ParsedKeyAction::KeyAction(tfp) => Ok(map_click_to_action(&fc, tfp)),
                }
            } else {
                Ok(map_click_to_seq(&fc, &ts))
            }
        }
    }
}

/// Compiles a `map(from, callback)` declaration: a directed `from`
/// invokes the callback on that action; a click `from` invokes it on
/// DOWN and swallows UP and REPEAT.
pub fn map_callback(from: &[u8], handle: CallbackHandle) -> (r: Result<
    Vec<(KeyFingerprint, RuntimeAction)>,
    ApiError,
>)
    ensures
        match parse_key_sequence_s(from@) {
            None => r == Err::<Vec<(KeyFingerprint, RuntimeAction)>, ApiError>(
                ApiError::ParseError,
            ),
            Some(fts) => {
                if fts.len() != 1 {
                    r == Err::<Vec<(KeyFingerprint, RuntimeAction)>, ApiError>(
                        ApiError::ParseError,
                    )
                } else {
                    match fts[0] {
                        ParsedKeyAction::KeyAction(ffp) => r matches Ok(v) && v@.len() == 1
                            && v@[0].0 == ffp && v@[0].1 == RuntimeAction::HostCallback(handle),
                        ParsedKeyAction::KeyClickAction(fc) => r matches Ok(v) && v@.len() == 3
                            && v@[0].0 == click_fp(fc, KeyValue::Down) && v@[0].1
                            == RuntimeAction::HostCallback(handle) && v@[1].0 == click_fp(
                            fc,
                            KeyValue::Up,
                        ) && v@[1].1 is NoOp && v@[2].0 == click_fp(fc, KeyValue::Repeat)
                            && v@[2].1 is NoOp,
                    }
                }
            }
        },
{
    let f = match crate::parse::parse_key_action_with_mods(from) {
        Ok(f) => f,
        Err(e) => {
            return Err(e);
        }
    };
    let mut rows: Vec<(KeyFingerprint, RuntimeAction)> = Vec::new();
    match f {
        ParsedKeyAction::KeyAction(ffp) => {
            rows.push((ffp, RuntimeAction::HostCallback(handle)));
        }
        ParsedKeyAction::KeyClickAction(fc) => {
            rows.push(
                (
                    KeyFingerprint {
                        key: fc.key,
                        value: KeyValue::Down,
                        modifiers: fc.modifiers,
                    },
                    RuntimeAction::HostCallback(handle),
                ),
            );
            rows.push(
                (
                    KeyFingerprint { key: fc.key, value: KeyValue::Up, modifiers: fc.modifiers },
                    RuntimeAction::NoOp,
                ),
            );
            rows.push(
                (
                    KeyFingerprint {
                        key: fc.key,
                        value: KeyValue::Repeat,
                        modifiers: fc.modifiers,
                    },
                    RuntimeAction::NoOp,
                ),
            );
        }
    }
    Ok(rows)
}

} // verus!

//! The textual key-sequence grammar of the host API.
//!
//! A sequence is tokens separated by single spaces. A token is zero or
//! more modifier prefixes (`^` ctrl, `!` alt, `+` shift, `#` meta)
//! followed by a key name — a letter `a`..`z`, an arrow (`down`, `up`,
//! `left`, `right`), or a modifier key (`ctrl`, `alt`, `shift`,
//! `meta`) — and an optional direction suffix `:down`, `:up` or
//! `:repeat`. A bare key name is a click; a suffixed one is a single
//! directed action.

use vstd::prelude::*;
use crate::keys::{Key, KeyValue};
use crate::modifiers::ModifierMask;
use crate::table::KeyFingerprint;

verus! {

/// An error of the host API: a malformed key sequence, or an argument
/// of the wrong shape.
#[derive(Clone, Copy, PartialEq, Eq, Structural, Debug)]
pub enum ApiError {
    ParseError,
    TypeMismatch,
}

/// A click of a key under a modifier mask (no explicit direction).
#[derive(Clone, Copy, PartialEq, Eq, Structural, Debug)]
pub struct KeyClickActionWithMods {
    pub key: Key,
    pub modifiers: ModifierMask,
}

/// One parsed token: a directed key action, or a click.
#[derive(Clone, Copy, PartialEq, Eq, Structural, Debug)]
pub enum ParsedKeyAction {
    KeyAction(KeyFingerprint),
    KeyClickAction(KeyClickActionWithMods),
}

/// The key a name denotes.
pub open spec fn key_of_name(n: Seq<u8>) -> Option<Key> {
    if n.len() == 1 {
        letter_key(n[0])
    } else if n.len() == 4 && n[0] == 100u8 && n[1] == 111u8 && n[2] == 119u8 && n[3] == 110u8 {
        Some(Key::DownArrow)
    } else if n.len() == 2 && n[0] == 117u8 && n[1] == 112u8 {
        Some(Key::UpArrow)
    } else if n.len() == 4 && n[0] == 108u8 && n[1] == 101u8 && n[2] == 102u8 && n[3] == 116u8 {
        Some(Key::LeftArrow)
    } else if n.len() == 5 && n[0] == 114u8 && n[1] == 105u8 && n[2] == 103u8 && n[3] == 104u8 && n[4]
        == 116u8 {
        Some(Key::RightArrow)
    } else if n.len() == 4 && n[0] == 99u8 && n[1] == 116u8 && n[2] == 114u8 && n[3] == 108u8 {
        Some(Key::LeftCtrl)
    } else if n.len() == 3 && n[0] == 97u8 && n[1] == 108u8 && n[2] == 116u8 {
        Some(Key::LeftAlt)
    } else if n.len() == 5 && n[0] == 115u8 && n[1] == 104u8 && n[2] == 105u8 && n[3] == 102u8 && n[4]
        == 116u8 {
        Some(Key::LeftShift)
    } else if n.len() == 4 && n[0] == 109u8 && n[1] == 101u8 && n[2] == 116u8 && n[3] == 97u8 {
        Some(Key::LeftMeta)
    } else {
        None
    }
}

/// The key a single letter denotes.
pub open spec fn letter_key(b: u8) -> Option<Key> {
    if b == 97u8 { Some(Key::A) }
    else if b == 98u8 { Some(Key::B) }
    else if b == 99u8 { Some(Key::C) }
    else if b == 100u8 { Some(Key::D) }
    else if b == 101u8 { Some(Key::E) }
    else if b == 102u8 { Some(Key::F) }
    else if b == 103u8 { Some(Key::G) }
    else if b == 104u8 { Some(Key::H) }
    else if b == 105u8 { Some(Key::I) }
    else if b == 106u8 { Some(Key::J) }
    else if b == 107u8 { Some(Key::K) }
    else if b == 108u8 { Some(Key::L) }
    else if b == 109u8 { Some(Key::M) }
    else if b == 110u8 { Some(Key::N) }
    else if b == 111u8 { Some(Key::O) }
    else if b == 112u8 { Some(Key::P) }
    else if b == 113u8 { Some(Key::Q) }
    else if b == 114u8 { Some(Key::R) }
    else if b == 115u8 { Some(Key::S) }
    else if b == 116u8 { Some(Key::T) }
    else if b == 117u8 { Some(Key::U) }
    else if b == 118u8 { Some(Key::V) }
    else if b == 119u8 { Some(Key::W) }
    else if b == 120u8 { Some(Key::X) }
    else if b == 121u8 { Some(Key::Y) }
    else if b == 122u8 { Some(Key::Z) }
    else { None }
}

/// The direction a suffix denotes.
pub open spec fn dir_of_name(n: Seq<u8>) -> Option<KeyValue> {
    if n.len() == 4 && n[0] == 100u8 && n[1] == 111u8 && n[2] == 119u8 && n[3] == 110u8 {
        Some(KeyValue::Down)
    } else if n.len() == 2 && n[0] == 117u8 && n[1] == 112u8 {
        Some(KeyValue::Up)
    } else if n.len() == 6 && n[0] == 114u8 && n[1] == 101u8 && n[2] == 112u8 && n[3] == 101u8 && n[4]
        == 97u8 && n[5] == 116u8 {
        Some(KeyValue::Repeat)
    } else {
        None
    }
}

/// The first position of `b` in `s` at or after `i`.
pub open spec fn find_byte(s: Seq<u8>, i: int, b: u8) -> Option<int>
    decreases s.len() - i,
{
    if i < 0 || i >= s.len() {
        None
    } else if s[i] == b {
        Some(i)
    } else {
        find_byte(s, i + 1, b)
    }
}

/// The meaning of the token occupying `s[i..end)` once its prefixes
/// are consumed into `m`: the key name with an optional direction
/// suffix.
pub open spec fn parse_key_part(s: Seq<u8>, i: int, end: int, m: ModifierMask) -> Option<
    ParsedKeyAction,
> {
    match find_byte(s, i, 58u8) {
        Some(c) if c < end => {
            match (key_of_name(s.subrange(i, c)), dir_of_name(s.subrange(c + 1, end))) {
                (Some(k), Some(d)) => Some(
                    ParsedKeyAction::KeyAction(KeyFingerprint { key: k, value: d, modifiers: m }),
                ),
                _ => None,
            }
        }
        _ => match key_of_name(s.subrange(i, end)) {
            Some(k) => Some(
                ParsedKeyAction::KeyClickAction(KeyClickActionWithMods { key: k, modifiers: m }),
            ),
            None => None,
        },
    }
}

/// The meaning of the token occupying `s[i..end)` under accumulated
/// prefixes `m`.
pub open spec fn parse_token_from(s: Seq<u8>, i: int, end: int, m: ModifierMask) -> Option<
    ParsedKeyAction,
>
    decreases end - i,
{
    if i < 0 || i >= end || end > s.len() {
        None
    } else if s[i] == 94u8 {
        parse_token_from(s, i + 1, end, ModifierMask { ctrl: true, ..m })
    } else if s[i] == 33u8 {
        parse_token_from(s, i + 1, end, ModifierMask { alt: true, ..m })
    } else if s[i] == 43u8 {
        parse_token_from(s, i + 1, end, ModifierMask { shift: true, ..m })
    } else if s[i] == 35u8 {
        parse_token_from(s, i + 1, end, ModifierMask { meta: true, ..m })
    } else {
        parse_key_part(s, i, end, m)
    }
}

/// The meaning of the space-separated tokens of `s` from `i` on.
pub open spec fn parse_seq_from(s: Seq<u8>, i: int) -> Option<Seq<ParsedKeyAction>>
    decreases s.len() - i,
{
    let none = ModifierMask { ctrl: false, alt: false, shift: false, meta: false };
    match find_byte(s, i, 32u8) {
        Some(sp) => {
            if i < sp && sp < s.len() {
                match (parse_token_from(s, i, sp, none), parse_seq_from(s, sp + 1)) {
                    (Some(a), Some(rest)) => Some(seq![a] + rest),
                    _ => None,
                }
            } else {
                None
            }
        }
        None => match parse_token_from(s, i, s.len() as int, none) {
            Some(a) => Some(seq![a]),
            None => None,
        },
    }
}

/// The meaning of a whole key-sequence string: its tokens in order,
/// the empty string meaning no actions, and `None` on any malformed
/// token.
pub open spec fn parse_key_sequence_s(s: Seq<u8>) -> Option<Seq<ParsedKeyAction>> {
    if s.len() == 0 {
        Some(Seq::empty())
    } else {
        parse_seq_from(s, 0)
    }
}

fn letter_key_exec(b: u8) -> (r: Option<Key>)
    ensures
        r == letter_key(b),
{
    if b == 97u8 { Some(Key::A) }
    else if b == 98u8 { Some(Key::B) }
    else if b == 99u8 { Some(Key::C) }
    else if b == 100u8 { Some(Key::D) }
    else if b == 101u8 { Some(Key::E) }
    else if b == 102u8 { Some(Key::F) }
    else if b == 103u8 { Some(Key::G) }
    else if b == 104u8 { Some(Key::H) }
    else if b == 105u8 { Some(Key::I) }
    else if b == 106u8 { Some(Key::J) }
    else if b == 107u8 { Some(Key::K) }
    else if b == 108u8 { Some(Key::L) }
    else if b == 109u8 { Some(Key::M) }
    else if b == 110u8 { Some(Key::N) }
    else if b == 111u8 { Some(Key::O) }
    else if b == 112u8 { Some(Key::P) }
    else if b == 113u8 { Some(Key::Q) }
    else if b == 114u8 { Some(Key::R) }
    else if b == 115u8 { Some(Key::S) }
    else if b == 116u8 { Some(Key::T) }
    else if b == 117u8 { Some(Key::U) }
    else if b == 118u8 { Some(Key::V) }
    else if b == 119u8 { Some(Key::W) }
    else if b == 120u8 { Some(Key::X) }
    else if b == 121u8 { Some(Key::Y) }
    else if b == 122u8 { Some(Key::Z) }
    else { None }
}

fn key_name(s: &[u8], i: usize, end: usize) -> (r: Option<Key>)
    requires
        i <= end <= s@.len(),
    ensures
        r == key_of_name(s@.subrange(i as int, end as int)),
{
    let n = end - i;
    if n == 1 {
        letter_key_exec(s[i])
    } else if n == 4 && s[i] == 100u8 && s[i + 1] == 111u8 && s[i + 2] == 119u8 && s[i + 3] == 110u8 {
        Some(Key::DownArrow)
    } else if n == 2 && s[i] == 117u8 && s[i + 1] == 112u8 {
        Some(Key::UpArrow)
    } else if n == 4 && s[i] == 108u8 && s[i + 1] == 101u8 && s[i + 2] == 102u8 && s[i + 3] == 116u8 {
        Some(Key::LeftArrow)
    } else if n == 5 && s[i] == 114u8 && s[i + 1] == 105u8 && s[i + 2] == 103u8 && s[i + 3] == 104u8
        && s[i + 4] == 116u8 {
        Some(Key::RightArrow)
    } else if n == 4 && s[i] == 99u8 && s[i + 1] == 116u8 && s[i + 2] == 114u8 && s[i + 3] == 108u8 {
        Some(Key::LeftCtrl)
    } else if n == 3 && s[i] == 97u8 && s[i + 1] == 108u8 && s[i + 2] == 116u8 {
        Some(Key::LeftAlt)
    } else if n == 5 && s[i] == 115u8 && s[i + 1] == 104u8 && s[i + 2] == 105u8 && s[i + 3] == 102u8
        && s[i + 4] == 116u8 {
        Some(Key::LeftShift)
    } else if n == 4 && s[i] == 109u8 && s[i + 1] == 101u8 && s[i + 2] == 116u8 && s[i + 3] == 97u8 {
        Some(Key::LeftMeta)
    } else {
        None
    }
}

fn dir_name(s: &[u8], i: usize, end: usize) -> (r: Option<KeyValue>)
    requires
        i <= end <= s@.len(),
    ensures
        r == dir_of_name(s@.subrange(i as int, end as int)),
{
    let n = end - i;
    if n == 4 && s[i] == 100u8 && s[i + 1] == 111u8 && s[i + 2] == 119u8 && s[i + 3] == 110u8 {
        Some(KeyValue::Down)
    } else if n == 2 && s[i] == 117u8 && s[i + 1] == 112u8 {
        Some(KeyValue::Up)
    } else if n == 6 && s[i] == 114u8 && s[i + 1] == 101u8 && s[i + 2] == 112u8 && s[i + 3] == 101u8
        && s[i + 4] == 97u8 && s[i + 5] == 116u8 {
        Some(KeyValue::Repeat)
    } else {
        None
    }
}

fn find_byte_exec(s: &[u8], i: usize, b: u8) -> (r: Option<usize>)
    requires
        i <= s@.len(),
    ensures
        match r {
            Some(p) => find_byte(s@, i as int, b) == Some(p as int) && i <= p < s@.len(),
            None => find_byte(s@, i as int, b) is None,
        },
    decreases s@.len() - i,
{
    if i == s.len() {
        None
    } else if s[i] == b {
        Some(i)
    } else {
        find_byte_exec(s, i + 1, b)
    }
}

fn parse_token(s: &[u8], i: usize, end: usize, m: ModifierMask) -> (r: Result<
    ParsedKeyAction,
    ApiError,
>)
    requires
        i <= end <= s@.len(),
    ensures
        match parse_token_from(s@, i as int, end as int, m) {
            Some(a) => r == Ok::<ParsedKeyAction, ApiError>(a),
            None => r == Err::<ParsedKeyAction, ApiError>(ApiError::ParseError),
        },
    decreases end - i,
{
    if i >= end {
        Err(ApiError::ParseError)
    } else if s[i] == 94u8 {
        parse_token(s, i + 1, end, ModifierMask { ctrl: true, ..m })
    } else if s[i] == 33u8 {
        parse_token(s, i + 1, end, ModifierMask { alt: true, ..m })
    } else if s[i] == 43u8 {
        parse_token(s, i + 1, end, ModifierMask { shift: true, ..m })
    } else if s[i] == 35u8 {
        parse_token(s, i + 1, end, ModifierMask { meta: true, ..m })
    } else {
        let colon = find_byte_exec(s, i, 58u8);
        match colon {
            Some(c) if c < end => {
                let k = key_name(s, i, c);
                let d = dir_name(s, c + 1, end);
                match (k, d) {
                    (Some(k), Some(d)) => Ok(
                        ParsedKeyAction::KeyAction(
                            KeyFingerprint { key: k, value: d, modifiers: m },
                        ),
                    ),
                    _ => Err(ApiError::ParseError),
                }
            }
            _ => {
                match key_name(s, i, end) {
                    Some(k) => Ok(
                        ParsedKeyAction::KeyClickAction(
                            KeyClickActionWithMods { key: k, modifiers: m },
                        ),
                    ),
                    None => Err(ApiError::ParseError),
                }
            }
        }
    }
}

fn parse_tokens(s: &[u8], i: usize) -> (r: Result<Vec<ParsedKeyAction>, ApiError>)
    requires
        i <= s@.len(),
    ensures
        match parse_seq_from(s@, i as int) {
            Some(actions) => r matches Ok(v) && v@ == actions,
            None => r == Err::<Vec<ParsedKeyAction>, ApiError>(ApiError::ParseError),
        },
    decreases s@.len() - i,
{
    let none = ModifierMask::none();
    let sp = find_byte_exec(s, i, 32u8);
    let n = s.len();
    match sp {
        Some(p) => {
            if i < p {
                proof {
                    assert(p < n);
                }
                let a = match parse_token(s, i, p, none) {
                    Ok(a) => a,
                    Err(e) => {
                        return Err(e);
                    }
                };
                let mut rest = match parse_tokens(s, p + 1) {
                    Ok(v) => v,
                    Err(e) => {
                        return Err(e);
                    }
                };
                let ghost rest0 = rest@;
                let mut v: Vec<ParsedKeyAction> = Vec::new();
                v.push(a);
                v.append(&mut rest);
                proof {
                    assert(v@ =~= seq![a] + rest0);
                }
                Ok(v)
            } else {
                Err(ApiError::ParseError)
            }
        }
        None => {
            let a = match parse_token(s, i, s.len(), none) {
                Ok(a) => a,
                Err(e) => {
                    return Err(e);
                }
            };
            let mut v: Vec<ParsedKeyAction> = Vec::new();
            v.push(a);
            proof {
                assert(v@ =~= seq![a]);
            }
            Ok(v)
        }
    }
}

/// Parses a textual key sequence into its tokens, in order. The empty
/// string parses to no actions; any malformed token is a parse error.
pub fn parse_key_sequence(s: &[u8]) -> (r: Result<Vec<ParsedKeyAction>, ApiError>)
    ensures
        match parse_key_sequence_s(s@) {
            Some(actions) => r matches Ok(v) && v@ == actions,
            None => r == Err::<Vec<ParsedKeyAction>, ApiError>(ApiError::ParseError),
        },
{
    if s.len() == 0 {
        let v: Vec<ParsedKeyAction> = Vec::new();
        proof {
            assert(v@ =~= Seq::<ParsedKeyAction>::empty());
        }
        Ok(v)
    } else {
        parse_tokens(s, 0)
    }
}

/// Parses a string that must denote exactly one action or click.
pub fn parse_key_action_with_mods(s: &[u8]) -> (r: Result<ParsedKeyAction, ApiError>)
    ensures
        match parse_key_sequence_s(s@) {
            Some(actions) => {
                if actions.len() == 1 {
                    r == Ok::<ParsedKeyAction, ApiError>(actions[0])
                } else {
                    r == Err::<ParsedKeyAction, ApiError>(ApiError::ParseError)
                }
            }
            None => r == Err::<ParsedKeyAction, ApiError>(ApiError::ParseError),
        },
{
    let v = match parse_key_sequence(s) {
        Ok(v) => v,
        Err(e) => {
            return Err(e);
        }
    };
    if v.len() == 1 {
        Ok(v[0])
    } else {
        Err(ApiError::ParseError)
    }
}

} // verus!

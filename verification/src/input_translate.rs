//! From input events to the bytes that a terminal program reads: text goes
//! through as it is, keys become their escape sequences.

use vstd::prelude::*;
use vstd::utf8::*;
use crate::protocol::input_event::Payload;
use crate::protocol::key_event::Key;
use crate::protocol::{InputEvent, KeyEvent, KeyModifiers};

verus! {

/// The modifiers held with a key.
#[derive(Debug, Clone, Copy, PartialEq, Eq, Structural)]
pub struct Modifiers {
    pub shift: bool,
    pub alt: bool,
    pub ctrl: bool,
    pub super_key: bool,
}

/// A key without its modifiers.
#[derive(Debug, Clone, Copy, PartialEq, Eq, Structural)]
pub enum BareKey {
    Char(char),
    Enter,
    Esc,
    Backspace,
    Tab,
    Left,
    Right,
    Up,
    Down,
    Home,
    End,
    PageUp,
    PageDown,
    Insert,
    Delete,
    F(u8),
}

#[derive(Debug, Clone, Copy, PartialEq, Eq, Structural)]
pub struct KeyWithModifier {
    pub bare_key: BareKey,
    pub key_modifiers: Modifiers,
}

/// Bytes to write to the controller's pane, with the key they came from
/// where they came from a key.
#[derive(Debug, Clone, PartialEq, Eq)]
pub struct WriteAction {
    pub key_with_modifier: Option<KeyWithModifier>,
    pub bytes: Vec<u8>,
    pub is_kitty_keyboard_protocol: bool,
}

/// The modifiers that the bits of a key event name: 0x1 Shift, 0x2 Alt, 0x4
/// Ctrl, 0x8 Super. An event without modifier bits holds none.
pub open spec fn spec_modifiers(mods: Option<KeyModifiers>) -> Modifiers {
    match mods {
        Some(m) => Modifiers {
            shift: m.bits & 1 != 0,
            alt: m.bits & 2 != 0,
            ctrl: m.bits & 4 != 0,
            super_key: m.bits & 8 != 0,
        },
        None => Modifiers { shift: false, alt: false, ctrl: false, super_key: false },
    }
}

/// The key that the code of a special key names, if it names one.
pub open spec fn spec_special_key(code: i32) -> Option<BareKey> {
    if code == 1 {
        Some(BareKey::Enter)
    } else if code == 2 {
        Some(BareKey::Esc)
    } else if code == 3 {
        Some(BareKey::Backspace)
    } else if code == 4 {
        Some(BareKey::Tab)
    } else if code == 5 {
        Some(BareKey::Left)
    } else if code == 6 {
        Some(BareKey::Right)
    } else if code == 7 {
        Some(BareKey::Up)
    } else if code == 8 {
        Some(BareKey::Down)
    } else if code == 9 {
        Some(BareKey::Home)
    } else if code == 10 {
        Some(BareKey::End)
    } else if code == 11 {
        Some(BareKey::PageUp)
    } else if code == 12 {
        Some(BareKey::PageDown)
    } else if code == 13 {
        Some(BareKey::Insert)
    } else if code == 14 {
        Some(BareKey::Delete)
    } else if 15 <= code <= 26 {
        Some(BareKey::F((code - 14) as u8))
    } else {
        None
    }
}

/// Whether a code point is an ASCII letter.
pub open spec fn is_ascii_letter(cp: u32) -> bool {
    (0x41 <= cp <= 0x5A) || (0x61 <= cp <= 0x7A)
}

/// The control code of an ASCII letter: 1 for A or a, up to 26 for Z or z.
pub open spec fn control_code(cp: u32) -> u8 {
    if cp >= 0x61 {
        (cp - 0x60) as u8
    } else {
        (cp - 0x40) as u8
    }
}

/// The escape sequence of a function key; none beyond F12.
pub open spec fn function_key_bytes(n: u8) -> Seq<u8> {
    if n == 1 {
        seq![0x1bu8, 0x4f, 0x50]
    } else if n == 2 {
        seq![0x1bu8, 0x4f, 0x51]
    } else if n == 3 {
        seq![0x1bu8, 0x4f, 0x52]
    } else if n == 4 {
        seq![0x1bu8, 0x4f, 0x53]
    } else if n == 5 {
        seq![0x1bu8, 0x5b, 0x31, 0x35, 0x7e]
    } else if n == 6 {
        seq![0x1bu8, 0x5b, 0x31, 0x37, 0x7e]
    } else if n == 7 {
        seq![0x1bu8, 0x5b, 0x31, 0x38, 0x7e]
    } else if n == 8 {
        seq![0x1bu8, 0x5b, 0x31, 0x39, 0x7e]
    } else if n == 9 {
        seq![0x1bu8, 0x5b, 0x32, 0x30, 0x7e]
    } else if n == 10 {
        seq![0x1bu8, 0x5b, 0x32, 0x31, 0x7e]
    } else if n == 11 {
        seq![0x1bu8, 0x5b, 0x32, 0x33, 0x7e]
    } else if n == 12 {
        seq![0x1bu8, 0x5b, 0x32, 0x34, 0x7e]
    } else {
        Seq::empty()
    }
}

/// The bytes that a key stands for.
///
/// A letter with Ctrl is its control code. Any other character is its UTF-8
/// encoding. Enter is CR, Tab is HT, Backspace is DEL, Esc is ESC. The
/// arrows are CSI A, B, C, D for up, down, right, left; Home is CSI H and End
/// CSI F; PageUp, PageDown, Insert and Delete are CSI 5~, 6~, 2~ and 3~; F1
/// to F4 are SS3 P, Q, R, S, and F5 to F12 are CSI 15~, 17~, 18~, 19~, 20~,
/// 21~, 23~, 24~.
pub open spec fn spec_key_bytes(key: KeyWithModifier) -> Seq<u8> {
    match key.bare_key {
        BareKey::Char(c) => if key.key_modifiers.ctrl && is_ascii_letter(c as u32) {
            seq![control_code(c as u32)]
        } else {
            encode_scalar(c as u32)
        },
        BareKey::Enter => seq![0x0du8],
        BareKey::Tab => seq![0x09u8],
        BareKey::Backspace => seq![0x7fu8],
        BareKey::Esc => seq![0x1bu8],
        BareKey::Left => seq![0x1bu8, 0x5b, 0x44],
        BareKey::Right => seq![0x1bu8, 0x5b, 0x43],
        BareKey::Up => seq![0x1bu8, 0x5b, 0x41],
        BareKey::Down => seq![0x1bu8, 0x5b, 0x42],
        BareKey::Home => seq![0x1bu8, 0x5b, 0x48],
        BareKey::End => seq![0x1bu8, 0x5b, 0x46],
        BareKey::PageUp => seq![0x1bu8, 0x5b, 0x35, 0x7e],
        BareKey::PageDown => seq![0x1bu8, 0x5b, 0x36, 0x7e],
        BareKey::Insert => seq![0x1bu8, 0x5b, 0x32, 0x7e],
        BareKey::Delete => seq![0x1bu8, 0x5b, 0x33, 0x7e],
        BareKey::F(n) => function_key_bytes(n),
    }
}

/// The key that a key event names with its modifiers, if it names one: a
/// Unicode scalar value, or a special key other than the unspecified one.
pub open spec fn spec_key_of(event: KeyEvent) -> Option<KeyWithModifier> {
    match event.key {
        Some(Key::UnicodeScalar(cp)) => if is_scalar(cp) {
            Some(KeyWithModifier { bare_key: BareKey::Char(cp as char), key_modifiers: spec_modifiers(event.modifiers) })
        } else {
            None
        },
        Some(Key::Special(code)) => match spec_special_key(code) {
            Some(bare_key) => Some(KeyWithModifier { bare_key, key_modifiers: spec_modifiers(event.modifiers) }),
            None => None,
        },
        None => None,
    }
}

/// `char::from_u32` of std: the character with the given code point, if the
/// code point is a Unicode scalar value.
#[verifier::external_body]
fn char_from_u32(cp: u32) -> (r: Option<char>)
    ensures
        r.is_some() == is_scalar(cp),
        r matches Some(c) ==> c as u32 == cp,
{
    char::from_u32(cp)
}

/// The UTF-8 encoding of a character.
pub fn utf8_bytes(c: char) -> (bytes: Vec<u8>)
    ensures
        bytes@ == encode_scalar(c as u32),
{
    let cp = c as u32;
    let mut bytes: Vec<u8> = Vec::new();
    if cp <= 0x7F {
        bytes.push((cp & 0x7F) as u8);
    } else if cp <= 0x7FF {
        bytes.push(0xC0 | ((cp >> 6) & 0x1F) as u8);
        bytes.push(0x80 | (cp & 0x3F) as u8);
    } else if cp <= 0xFFFF {
        bytes.push(0xE0 | ((cp >> 12) & 0x0F) as u8);
        bytes.push(0x80 | ((cp >> 6) & 0x3F) as u8);
        bytes.push(0x80 | (cp & 0x3F) as u8);
    } else {
        bytes.push(0xF0 | ((cp >> 18) & 0x7) as u8);
        bytes.push(0x80 | ((cp >> 12) & 0x3F) as u8);
        bytes.push(0x80 | ((cp >> 6) & 0x3F) as u8);
        bytes.push(0x80 | (cp & 0x3F) as u8);
    }
    proof {
        char_is_scalar(c);
        assert(bytes@ =~= encode_scalar(cp));
    }
    bytes
}

pub fn translate_modifiers(mods: Option<&KeyModifiers>) -> (r: Modifiers)
    ensures
        r == spec_modifiers(match mods {
            Some(m) => Some(*m),
            None => None,
        }),
{
    match mods {
        Some(m) => {
            let bits = m.bits;
            Modifiers { shift: bits & 1 != 0, alt: bits & 2 != 0, ctrl: bits & 4 != 0, super_key: bits & 8 != 0 }
        },
        None => Modifiers { shift: false, alt: false, ctrl: false, super_key: false },
    }
}

pub fn translate_special_key(special: i32) -> (r: Option<BareKey>)
    ensures
        r == spec_special_key(special),
{
    if special == 1 {
        Some(BareKey::Enter)
    } else if special == 2 {
        Some(BareKey::Esc)
    } else if special == 3 {
        Some(BareKey::Backspace)
    } else if special == 4 {
        Some(BareKey::Tab)
    } else if special == 5 {
        Some(BareKey::Left)
    } else if special == 6 {
        Some(BareKey::Right)
    } else if special == 7 {
        Some(BareKey::Up)
    } else if special == 8 {
        Some(BareKey::Down)
    } else if special == 9 {
        Some(BareKey::Home)
    } else if special == 10 {
        Some(BareKey::End)
    } else if special == 11 {
        Some(BareKey::PageUp)
    } else if special == 12 {
        Some(BareKey::PageDown)
    } else if special == 13 {
        Some(BareKey::Insert)
    } else if special == 14 {
        Some(BareKey::Delete)
    } else if 15 <= special && special <= 26 {
        Some(BareKey::F((special - 14) as u8))
    } else {
        None
    }
}

fn bytes_of(a: &[u8]) -> (v: Vec<u8>)
    ensures
        v@ == a@,
{
    vstd::slice::slice_to_vec(a)
}

/// The bytes that a key stands for.
pub fn key_to_bytes(key: &KeyWithModifier) -> (bytes: Vec<u8>)
    ensures
        bytes@ == spec_key_bytes(*key),
{
    let has_ctrl = key.key_modifiers.ctrl;
    match key.bare_key {
        BareKey::Char(c) => {
            let cp = c as u32;
            if has_ctrl && ((0x41 <= cp && cp <= 0x5A) || (0x61 <= cp && cp <= 0x7A)) {
                let code: u8 = if cp >= 0x61 {
                    (cp - 0x60) as u8
                } else {
                    (cp - 0x40) as u8
                };
                let mut v: Vec<u8> = Vec::new();
                v.push(code);
                assert(v@ =~= seq![control_code(cp)]);
                v
            } else {
                utf8_bytes(c)
            }
        },
        BareKey::Enter => bytes_of(&[0x0d]),
        BareKey::Tab => bytes_of(&[0x09]),
        BareKey::Backspace => bytes_of(&[0x7f]),
        BareKey::Esc => bytes_of(&[0x1b]),
        BareKey::Left => bytes_of(&[0x1b, 0x5b, 0x44]),
        BareKey::Right => bytes_of(&[0x1b, 0x5b, 0x43]),
        BareKey::Up => bytes_of(&[0x1b, 0x5b, 0x41]),
        BareKey::Down => bytes_of(&[0x1b, 0x5b, 0x42]),
        BareKey::Home => bytes_of(&[0x1b, 0x5b, 0x48]),
        BareKey::End => bytes_of(&[0x1b, 0x5b, 0x46]),
        BareKey::PageUp => bytes_of(&[0x1b, 0x5b, 0x35, 0x7e]),
        BareKey::PageDown => bytes_of(&[0x1b, 0x5b, 0x36, 0x7e]),
        BareKey::Insert => bytes_of(&[0x1b, 0x5b, 0x32, 0x7e]),
        BareKey::Delete => bytes_of(&[0x1b, 0x5b, 0x33, 0x7e]),
        BareKey::F(n) => {
            if n == 1 {
                bytes_of(&[0x1b, 0x4f, 0x50])
            } else if n == 2 {
                bytes_of(&[0x1b, 0x4f, 0x51])
            } else if n == 3 {
                bytes_of(&[0x1b, 0x4f, 0x52])
            } else if n == 4 {
                bytes_of(&[0x1b, 0x4f, 0x53])
            } else if n == 5 {
                bytes_of(&[0x1b, 0x5b, 0x31, 0x35, 0x7e])
            } else if n == 6 {
                bytes_of(&[0x1b, 0x5b, 0x31, 0x37, 0x7e])
            } else if n == 7 {
                bytes_of(&[0x1b, 0x5b, 0x31, 0x38, 0x7e])
            } else if n == 8 {
                bytes_of(&[0x1b, 0x5b, 0x31, 0x39, 0x7e])
            } else if n == 9 {
                bytes_of(&[0x1b, 0x5b, 0x32, 0x30, 0x7e])
            } else if n == 10 {
                bytes_of(&[0x1b, 0x5b, 0x32, 0x31, 0x7e])
            } else if n == 11 {
                bytes_of(&[0x1b, 0x5b, 0x32, 0x33, 0x7e])
            } else if n == 12 {
                bytes_of(&[0x1b, 0x5b, 0x32, 0x34, 0x7e])
            } else {
                Vec::new()
            }
        },
    }
}

/// What an input event asks to write, if anything: text and raw bytes as
/// they are, a key as the bytes it stands for. Mouse events and events
/// without a payload write nothing.
pub open spec fn spec_translate(event: InputEvent) -> Option<(Option<KeyWithModifier>, Seq<u8>)> {
    match event.payload {
        Some(Payload::TextUtf8(bytes)) => Some((None, bytes@)),
        Some(Payload::RawBytes(bytes)) => Some((None, bytes@)),
        Some(Payload::Key(key_event)) => match spec_key_of(key_event) {
            Some(key) => Some((Some(key), spec_key_bytes(key))),
            None => None,
        },
        Some(Payload::Mouse(_)) => None,
        None => None,
    }
}

/// Whether `action` writes what `expected` says.
pub open spec fn action_matches(
    action: Option<WriteAction>,
    expected: Option<(Option<KeyWithModifier>, Seq<u8>)>,
) -> bool {
    match (action, expected) {
        (Some(a), Some((key, bytes))) => a.key_with_modifier == key && a.bytes@ == bytes
            && !a.is_kitty_keyboard_protocol,
        (None, None) => true,
        _ => false,
    }
}

pub fn translate_key_event(key: &KeyEvent) -> (r: Option<WriteAction>)
    ensures
        action_matches(
            r,
            match spec_key_of(*key) {
                Some(k) => Some((Some(k), spec_key_bytes(k))),
                None => None,
            },
        ),
{
    let modifiers = match key.modifiers {
        Some(m) => translate_modifiers(Some(&m)),
        None => translate_modifiers(None),
    };
    let key_with_modifier = match key.key {
        Some(Key::UnicodeScalar(codepoint)) => {
            match char_from_u32(codepoint) {
                Some(ch) => {
                    proof {
                        char_u32_cast(ch, codepoint);
                    }
                    KeyWithModifier { bare_key: BareKey::Char(ch), key_modifiers: modifiers }
                },
                None => {
                    return None;
                },
            }
        },
        Some(Key::Special(special)) => {
            match translate_special_key(special) {
                Some(bare_key) => KeyWithModifier { bare_key, key_modifiers: modifiers },
                None => {
                    return None;
                },
            }
        },
        None => {
            return None;
        },
    };
    let bytes = key_to_bytes(&key_with_modifier);
    Some(WriteAction { key_with_modifier: Some(key_with_modifier), bytes, is_kitty_keyboard_protocol: false })
}

fn copy_bytes(src: &Vec<u8>) -> (v: Vec<u8>)
    ensures
        v@ == src@,
{
    vstd::slice::slice_to_vec(src.as_slice())
}

/// What an input event asks to write to the controller's pane.
pub fn translate_input(event: &InputEvent) -> (r: Option<WriteAction>)
    ensures
        action_matches(r, spec_translate(*event)),
{
    match &event.payload {
        Some(Payload::TextUtf8(bytes)) => Some(
            WriteAction { key_with_modifier: None, bytes: copy_bytes(bytes), is_kitty_keyboard_protocol: false },
        ),
        Some(Payload::Key(key_event)) => translate_key_event(key_event),
        Some(Payload::RawBytes(bytes)) => Some(
            WriteAction { key_with_modifier: None, bytes: copy_bytes(bytes), is_kitty_keyboard_protocol: false },
        ),
        Some(Payload::Mouse(_)) => None,
        None => None,
    }
}

} // verus!

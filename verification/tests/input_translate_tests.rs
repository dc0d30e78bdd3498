use zellij_remote::input_translate::{
    key_to_bytes, translate_input, translate_modifiers, translate_special_key, utf8_bytes, BareKey,
    KeyWithModifier, Modifiers,
};
use zellij_remote::protocol::input_event::Payload;
use zellij_remote::protocol::key_event::Key;
use zellij_remote::protocol::{InputEvent, KeyEvent, KeyModifiers, MouseEvent, SpecialKey};

fn key_event(modifiers: Option<KeyModifiers>, key: Option<Key>) -> InputEvent {
    InputEvent {
        input_seq: 1,
        client_time_ms: 0,
        payload: Some(Payload::Key(KeyEvent { modifiers, key })),
    }
}

fn plain(bare_key: BareKey) -> KeyWithModifier {
    KeyWithModifier {
        bare_key,
        key_modifiers: Modifiers { shift: false, alt: false, ctrl: false, super_key: false },
    }
}

#[test]
fn test_translate_text_utf8() {
    let event = InputEvent {
        input_seq: 1,
        client_time_ms: 0,
        payload: Some(Payload::TextUtf8(b"hello".to_vec())),
    };

    let action = translate_input(&event).unwrap();
    assert_eq!(action.bytes, b"hello".to_vec());
    assert!(action.key_with_modifier.is_none());
    assert!(!action.is_kitty_keyboard_protocol);
}

#[test]
fn test_translate_unicode_key() {
    let event = key_event(None, Some(Key::UnicodeScalar('a' as u32)));

    let action = translate_input(&event).unwrap();
    assert!(action.key_with_modifier.is_some());
    assert_eq!(action.bytes, vec![b'a']);
}

#[test]
fn test_translate_special_key_enter() {
    let event = key_event(None, Some(Key::Special(SpecialKey::Enter as i32)));

    let action = translate_input(&event).unwrap();
    assert_eq!(action.bytes, vec![b'\r']);
}

#[test]
fn test_translate_ctrl_c() {
    let event = key_event(Some(KeyModifiers { bits: 4 }), Some(Key::UnicodeScalar('c' as u32)));

    let action = translate_input(&event).unwrap();
    assert_eq!(action.bytes, vec![0x03]);
}

#[test]
fn test_translate_raw_bytes_and_empty_payloads() {
    let raw = InputEvent {
        input_seq: 1,
        client_time_ms: 0,
        payload: Some(Payload::RawBytes(vec![0, 255, 27])),
    };
    assert_eq!(translate_input(&raw).unwrap().bytes, vec![0, 255, 27]);

    let none = InputEvent { input_seq: 1, client_time_ms: 0, payload: None };
    assert!(translate_input(&none).is_none());

    let mouse = InputEvent {
        input_seq: 1,
        client_time_ms: 0,
        payload: Some(Payload::Mouse(MouseEvent {
            kind: 1,
            col: 1,
            row: 1,
            button: 1,
            scroll_delta: 0,
            modifiers: None,
        })),
    };
    assert!(translate_input(&mouse).is_none());
    assert!(translate_input(&key_event(None, None)).is_none());
}

#[test]
fn test_code_points_that_are_no_characters_write_nothing() {
    assert!(translate_input(&key_event(None, Some(Key::UnicodeScalar(0xD800)))).is_none());
    assert!(translate_input(&key_event(None, Some(Key::UnicodeScalar(0x110000)))).is_none());
    assert!(translate_input(&key_event(None, Some(Key::UnicodeScalar(0x10FFFF)))).is_some());
}

#[test]
fn test_unspecified_and_unknown_special_keys_write_nothing() {
    assert!(translate_input(&key_event(None, Some(Key::Special(0)))).is_none());
    assert!(translate_input(&key_event(None, Some(Key::Special(27)))).is_none());
    assert!(translate_input(&key_event(None, Some(Key::Special(-1)))).is_none());
    assert_eq!(translate_special_key(SpecialKey::F12 as i32), Some(BareKey::F(12)));
    assert_eq!(translate_special_key(SpecialKey::F1 as i32), Some(BareKey::F(1)));
    assert_eq!(translate_special_key(SpecialKey::Escape as i32), Some(BareKey::Esc));
    assert_eq!(translate_special_key(SpecialKey::Delete as i32), Some(BareKey::Delete));
}

#[test]
fn test_special_key_codes_follow_declaration_order() {
    assert_eq!(SpecialKey::Enter.code(), SpecialKey::Enter as i32);
    assert_eq!(SpecialKey::F12.code(), SpecialKey::F12 as i32);
    assert_eq!(SpecialKey::from_code(26), Some(SpecialKey::F12));
    assert_eq!(SpecialKey::from_code(27), None);
}

#[test]
fn test_modifier_bits() {
    let m = translate_modifiers(Some(&KeyModifiers { bits: 0xF }));
    assert!(m.shift && m.alt && m.ctrl && m.super_key);
    let m = translate_modifiers(Some(&KeyModifiers { bits: 0x2 }));
    assert!(!m.shift && m.alt && !m.ctrl && !m.super_key);
    let m = translate_modifiers(None);
    assert!(!m.shift && !m.alt && !m.ctrl && !m.super_key);
}

#[test]
fn test_every_fixed_sequence() {
    assert_eq!(key_to_bytes(&plain(BareKey::Enter)), b"\r".to_vec());
    assert_eq!(key_to_bytes(&plain(BareKey::Tab)), b"\t".to_vec());
    assert_eq!(key_to_bytes(&plain(BareKey::Backspace)), vec![0x7f]);
    assert_eq!(key_to_bytes(&plain(BareKey::Esc)), vec![0x1b]);
    assert_eq!(key_to_bytes(&plain(BareKey::Left)), b"\x1b[D".to_vec());
    assert_eq!(key_to_bytes(&plain(BareKey::Right)), b"\x1b[C".to_vec());
    assert_eq!(key_to_bytes(&plain(BareKey::Up)), b"\x1b[A".to_vec());
    assert_eq!(key_to_bytes(&plain(BareKey::Down)), b"\x1b[B".to_vec());
    assert_eq!(key_to_bytes(&plain(BareKey::Home)), b"\x1b[H".to_vec());
    assert_eq!(key_to_bytes(&plain(BareKey::End)), b"\x1b[F".to_vec());
    assert_eq!(key_to_bytes(&plain(BareKey::PageUp)), b"\x1b[5~".to_vec());
    assert_eq!(key_to_bytes(&plain(BareKey::PageDown)), b"\x1b[6~".to_vec());
    assert_eq!(key_to_bytes(&plain(BareKey::Insert)), b"\x1b[2~".to_vec());
    assert_eq!(key_to_bytes(&plain(BareKey::Delete)), b"\x1b[3~".to_vec());
    assert_eq!(key_to_bytes(&plain(BareKey::F(1))), b"\x1bOP".to_vec());
    assert_eq!(key_to_bytes(&plain(BareKey::F(2))), b"\x1bOQ".to_vec());
    assert_eq!(key_to_bytes(&plain(BareKey::F(3))), b"\x1bOR".to_vec());
    assert_eq!(key_to_bytes(&plain(BareKey::F(4))), b"\x1bOS".to_vec());
    assert_eq!(key_to_bytes(&plain(BareKey::F(5))), b"\x1b[15~".to_vec());
    assert_eq!(key_to_bytes(&plain(BareKey::F(6))), b"\x1b[17~".to_vec());
    assert_eq!(key_to_bytes(&plain(BareKey::F(7))), b"\x1b[18~".to_vec());
    assert_eq!(key_to_bytes(&plain(BareKey::F(8))), b"\x1b[19~".to_vec());
    assert_eq!(key_to_bytes(&plain(BareKey::F(9))), b"\x1b[20~".to_vec());
    assert_eq!(key_to_bytes(&plain(BareKey::F(10))), b"\x1b[21~".to_vec());
    assert_eq!(key_to_bytes(&plain(BareKey::F(11))), b"\x1b[23~".to_vec());
    assert_eq!(key_to_bytes(&plain(BareKey::F(12))), b"\x1b[24~".to_vec());
    assert_eq!(key_to_bytes(&plain(BareKey::F(13))), Vec::<u8>::new());
    assert_eq!(key_to_bytes(&plain(BareKey::F(0))), Vec::<u8>::new());
}

#[test]
fn test_ctrl_letters_and_others() {
    let ctrl = Modifiers { shift: false, alt: false, ctrl: true, super_key: false };
    let key = |c: char| KeyWithModifier { bare_key: BareKey::Char(c), key_modifiers: ctrl };
    assert_eq!(key_to_bytes(&key('a')), vec![1]);
    assert_eq!(key_to_bytes(&key('A')), vec![1]);
    assert_eq!(key_to_bytes(&key('z')), vec![26]);
    assert_eq!(key_to_bytes(&key('Z')), vec![26]);
    // Ctrl with anything but a letter is the character itself
    assert_eq!(key_to_bytes(&key('1')), vec![b'1']);
    assert_eq!(key_to_bytes(&key('[')), vec![b'[']);
    assert_eq!(key_to_bytes(&key('é')), "é".as_bytes().to_vec());
}

#[test]
fn test_utf8_of_every_width() {
    for c in ['a', '\u{7f}', '\u{80}', 'é', '\u{7ff}', '\u{800}', '中', '\u{ffff}', '\u{10000}', '😀', '\u{10ffff}'] {
        let mut s = String::new();
        s.push(c);
        assert_eq!(utf8_bytes(c), s.into_bytes(), "for {:?}", c);
    }
}

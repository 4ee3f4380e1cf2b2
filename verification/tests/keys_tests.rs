use dif::keys::{ctrl_code, encode_key_event, KeyCode, KeyModifiers};

fn mods(ctrl: bool, alt: bool, shift: bool) -> KeyModifiers {
    KeyModifiers { ctrl, alt, shift }
}

#[test]
fn encodes_ctrl_character() {
    let encoded = encode_key_event(KeyCode::Char('c'), mods(true, false, false));
    assert_eq!(encoded, Some(vec![3]));
}

#[test]
fn encodes_alt_character_with_escape_prefix() {
    let encoded = encode_key_event(KeyCode::Char('x'), mods(false, true, false));
    assert_eq!(encoded, Some(vec![0x1b, b'x']));
}

#[test]
fn encodes_shift_tab_sequence() {
    let encoded = encode_key_event(KeyCode::Tab, mods(false, false, true));
    assert_eq!(encoded, Some(b"\x1b[Z".to_vec()));
}

#[test]
fn maps_ctrl_code_variants() {
    assert_eq!(ctrl_code('a'), Some(1));
    assert_eq!(ctrl_code('A'), Some(1));
    assert_eq!(ctrl_code(']'), Some(29));
    assert_eq!(ctrl_code('~'), None);
}

#[test]
fn encodes_named_keys() {
    let none = mods(false, false, false);
    assert_eq!(encode_key_event(KeyCode::Enter, none), Some(vec![b'\r']));
    assert_eq!(encode_key_event(KeyCode::Tab, none), Some(vec![b'\t']));
    assert_eq!(encode_key_event(KeyCode::Backspace, none), Some(vec![0x7f]));
    assert_eq!(encode_key_event(KeyCode::Esc, none), Some(vec![0x1b]));
    assert_eq!(
        encode_key_event(KeyCode::Up, none),
        Some(b"\x1b[A".to_vec())
    );
    assert_eq!(
        encode_key_event(KeyCode::Left, none),
        Some(b"\x1b[D".to_vec())
    );
    assert_eq!(
        encode_key_event(KeyCode::PageUp, none),
        Some(b"\x1b[5~".to_vec())
    );
    assert_eq!(
        encode_key_event(KeyCode::F(1), none),
        Some(b"\x1bOP".to_vec())
    );
    assert_eq!(
        encode_key_event(KeyCode::F(5), none),
        Some(b"\x1b[15~".to_vec())
    );
    assert_eq!(
        encode_key_event(KeyCode::F(12), none),
        Some(b"\x1b[24~".to_vec())
    );
    assert_eq!(encode_key_event(KeyCode::F(13), none), None);
}

#[test]
fn plain_characters_use_their_utf8_bytes() {
    let none = mods(false, false, false);
    assert_eq!(encode_key_event(KeyCode::Char('a'), none), Some(vec![b'a']));
    assert_eq!(
        encode_key_event(KeyCode::Char('\u{e9}'), none),
        Some(vec![0xc3, 0xa9])
    );
}

#[test]
fn swallowed_ctrl_characters_produce_nothing_even_with_alt() {
    assert_eq!(encode_key_event(KeyCode::Char('~'), mods(true, false, false)), None);
    assert_eq!(encode_key_event(KeyCode::Char('~'), mods(true, true, false)), None);
    assert_eq!(encode_key_event(KeyCode::Unsupported, mods(false, true, false)), None);
}

//! Pure mapping from logical key events to the raw bytes written to the
//! shell session, following the usual xterm conventions.

use vstd::prelude::*;
use vstd::utf8::encode_scalar;
use vstd::utf8::encode_utf8;

verus! {

/// Modifier keys held together with a key press.
#[derive(Clone, Copy, PartialEq, Eq, Structural, Debug)]
pub struct KeyModifiers {
    pub ctrl: bool,
    pub alt: bool,
    pub shift: bool,
}

impl KeyModifiers {
    pub fn none() -> (r: KeyModifiers)
        ensures
            !r.ctrl && !r.alt && !r.shift,
    {
        KeyModifiers { ctrl: false, alt: false, shift: false }
    }
}

/// Logical key codes handed to the encoder.  Keys the encoder never maps
/// to bytes arrive as `Unsupported`.
#[derive(Clone, Copy, PartialEq, Eq, Structural, Debug)]
pub enum KeyCode {
    Char(char),
    Enter,
    Tab,
    BackTab,
    Backspace,
    Esc,
    Left,
    Right,
    Up,
    Down,
    Home,
    End,
    PageUp,
    PageDown,
    Insert,
    Delete,
    F(u8),
    Unsupported,
}

/// The C0 control byte produced by CTRL plus a character, if any.
/// Characters outside this table are swallowed: CTRL combinations with
/// them produce no output at all.
pub open spec fn ctrl_code_spec(c: char) -> Option<u8> {
    if c == ' ' || c == '2' || c == '@' {
        Some(0u8)
    } else if 'a' <= c && c <= 'z' {
        Some((c as u8 - 96) as u8)
    } else if 'A' <= c && c <= 'Z' {
        Some((c as u8 - 64) as u8)
    } else if c == '3' || c == '[' {
        Some(27u8)
    } else if c == '4' || c == '\\' {
        Some(28u8)
    } else if c == '5' || c == ']' {
        Some(29u8)
    } else if c == '6' || c == '^' {
        Some(30u8)
    } else if c == '7' || c == '/' || c == '_' {
        Some(31u8)
    } else if c == '8' || c == '?' {
        Some(127u8)
    } else {
        None
    }
}

/// Maps a character to its C0 control byte for CTRL chords.
pub fn ctrl_code(c: char) -> (r: Option<u8>)
    ensures
        r == ctrl_code_spec(c),
{
    if c == ' ' || c == '2' || c == '@' {
        Some(0u8)
    } else if 'a' <= c && c <= 'z' {
        Some(c as u8 - 96)
    } else if 'A' <= c && c <= 'Z' {
        Some(c as u8 - 64)
    } else if c == '3' || c == '[' {
        Some(27u8)
    } else if c == '4' || c == '\\' {
        Some(28u8)
    } else if c == '5' || c == ']' {
        Some(29u8)
    } else if c == '6' || c == '^' {
        Some(30u8)
    } else if c == '7' || c == '/' || c == '_' {
        Some(31u8)
    } else if c == '8' || c == '?' {
        Some(127u8)
    } else {
        None
    }
}

/// The escape-bracket sequence `ESC [` followed by the given final bytes.
pub open spec fn csi(rest: Seq<u8>) -> Seq<u8> {
    seq![27u8, 91u8] + rest
}

/// The byte sequence a named function key produces, by xterm numbering
/// (F1..F4 use `ESC O`, F5..F12 use numbered CSI codes that skip 16 and
/// 22); other numbers produce nothing.
pub open spec fn fkey_bytes_spec(n: u8) -> Option<Seq<u8>> {
    if n == 1 {
        Some(seq![27u8, 79u8, 80u8])
    } else if n == 2 {
        Some(seq![27u8, 79u8, 81u8])
    } else if n == 3 {
        Some(seq![27u8, 79u8, 82u8])
    } else if n == 4 {
        Some(seq![27u8, 79u8, 83u8])
    } else if n == 5 {
        Some(csi(seq![49u8, 53u8, 126u8]))
    } else if n == 6 {
        Some(csi(seq![49u8, 55u8, 126u8]))
    } else if n == 7 {
        Some(csi(seq![49u8, 56u8, 126u8]))
    } else if n == 8 {
        Some(csi(seq![49u8, 57u8, 126u8]))
    } else if n == 9 {
        Some(csi(seq![50u8, 48u8, 126u8]))
    } else if n == 10 {
        Some(csi(seq![50u8, 49u8, 126u8]))
    } else if n == 11 {
        Some(csi(seq![50u8, 51u8, 126u8]))
    } else if n == 12 {
        Some(csi(seq![50u8, 52u8, 126u8]))
    } else {
        None
    }
}

/// The bytes a key press produces before the ALT prefix is considered:
/// named keys map to their control or escape sequences, a plain
/// character maps to its UTF-8 encoding, a CTRL character maps through
/// the C0 table, and everything else is dropped.
pub open spec fn base_bytes_spec(code: KeyCode, m: KeyModifiers) -> Option<Seq<u8>> {
    match code {
        KeyCode::Enter => Some(seq![13u8]),
        KeyCode::Tab => if m.shift {
            Some(csi(seq![90u8]))
        } else {
            Some(seq![9u8])
        },
        KeyCode::BackTab => Some(csi(seq![90u8])),
        KeyCode::Backspace => Some(seq![127u8]),
        KeyCode::Esc => Some(seq![27u8]),
        KeyCode::Left => Some(csi(seq![68u8])),
        KeyCode::Right => Some(csi(seq![67u8])),
        KeyCode::Up => Some(csi(seq![65u8])),
        KeyCode::Down => Some(csi(seq![66u8])),
        KeyCode::Home => Some(csi(seq![72u8])),
        KeyCode::End => Some(csi(seq![70u8])),
        KeyCode::PageUp => Some(csi(seq![53u8, 126u8])),
        KeyCode::PageDown => Some(csi(seq![54u8, 126u8])),
        KeyCode::Insert => Some(csi(seq![50u8, 126u8])),
        KeyCode::Delete => Some(csi(seq![51u8, 126u8])),
        KeyCode::F(n) => fkey_bytes_spec(n),
        KeyCode::Char(c) => if m.ctrl {
            match ctrl_code_spec(c) {
                Some(b) => Some(seq![b]),
                None => None,
            }
        } else {
            Some(encode_scalar(c as u32))
        },
        KeyCode::Unsupported => None,
    }
}

/// What a key press sends to the shell: the base bytes of the key, with
/// a single ESC prefixed when ALT is held and the key produced anything.
pub open spec fn encode_key_event_spec(code: KeyCode, m: KeyModifiers) -> Option<Seq<u8>> {
    match base_bytes_spec(code, m) {
        None => None,
        Some(bs) => if m.alt && bs.len() > 0 {
            Some(seq![27u8] + bs)
        } else {
            Some(bs)
        },
    }
}

/// The UTF-8 encoding of a single character.
fn char_utf8_bytes(c: char) -> (r: Vec<u8>)
    ensures
        r@ == encode_scalar(c as u32),
{
    let mut s = String::new();
    crate::util::push_char(&mut s, c);
    let bytes = s.as_str().as_bytes_vec();
    proof {
        assert(s@ =~= seq![c]);
        assert(s@.drop_first() =~= Seq::<char>::empty());
        assert(encode_utf8(s@) =~= encode_scalar(c as u32) + encode_utf8(s@.drop_first()));
        assert(encode_utf8(Seq::<char>::empty()) =~= Seq::<u8>::empty());
        assert(bytes@ =~= encode_scalar(c as u32));
    }
    bytes
}

/// Encodes a logical key press into the raw bytes written to the pty,
/// or nothing when the combination is deliberately swallowed.
pub fn encode_key_event(code: KeyCode, m: KeyModifiers) -> (r: Option<Vec<u8>>)
    ensures
        match r {
            Some(v) => encode_key_event_spec(code, m) == Some(v@),
            None => encode_key_event_spec(code, m) is None,
        },
{
    let mut bytes: Vec<u8> = Vec::new();

    match code {
        KeyCode::Enter => bytes.push(13),
        KeyCode::Tab => {
            if m.shift {
                bytes = vec![27u8, 91u8, 90u8];
            } else {
                bytes.push(9);
            }
        },
        KeyCode::BackTab => {
            bytes = vec![27u8, 91u8, 90u8];
        },
        KeyCode::Backspace => bytes.push(127),
        KeyCode::Esc => bytes.push(27),
        KeyCode::Left => {
            bytes = vec![27u8, 91u8, 68u8];
        },
        KeyCode::Right => {
            bytes = vec![27u8, 91u8, 67u8];
        },
        KeyCode::Up => {
            bytes = vec![27u8, 91u8, 65u8];
        },
        KeyCode::Down => {
            bytes = vec![27u8, 91u8, 66u8];
        },
        KeyCode::Home => {
            bytes = vec![27u8, 91u8, 72u8];
        },
        KeyCode::End => {
            bytes = vec![27u8, 91u8, 70u8];
        },
        KeyCode::PageUp => {
            bytes = vec![27u8, 91u8, 53u8, 126u8];
        },
        KeyCode::PageDown => {
            bytes = vec![27u8, 91u8, 54u8, 126u8];
        },
        KeyCode::Insert => {
            bytes = vec![27u8, 91u8, 50u8, 126u8];
        },
        KeyCode::Delete => {
            bytes = vec![27u8, 91u8, 51u8, 126u8];
        },
        KeyCode::F(n) => {
            if n == 1 {
                bytes = vec![27u8, 79u8, 80u8];
            } else if n == 2 {
                bytes = vec![27u8, 79u8, 81u8];
            } else if n == 3 {
                bytes = vec![27u8, 79u8, 82u8];
            } else if n == 4 {
                bytes = vec![27u8, 79u8, 83u8];
            } else if n == 5 {
                bytes = vec![27u8, 91u8, 49u8, 53u8, 126u8];
            } else if n == 6 {
                bytes = vec![27u8, 91u8, 49u8, 55u8, 126u8];
            } else if n == 7 {
                bytes = vec![27u8, 91u8, 49u8, 56u8, 126u8];
            } else if n == 8 {
                bytes = vec![27u8, 91u8, 49u8, 57u8, 126u8];
            } else if n == 9 {
                bytes = vec![27u8, 91u8, 50u8, 48u8, 126u8];
            } else if n == 10 {
                bytes = vec![27u8, 91u8, 50u8, 49u8, 126u8];
            } else if n == 11 {
                bytes = vec![27u8, 91u8, 50u8, 51u8, 126u8];
            } else if n == 12 {
                bytes = vec![27u8, 91u8, 50u8, 52u8, 126u8];
            } else {
                return None;
            }
        },
        KeyCode::Char(c) => {
            if m.ctrl {
                match ctrl_code(c) {
                    Some(b) => bytes.push(b),
                    None => {
                        return None;
                    },
                }
            } else {
                bytes = char_utf8_bytes(c);
            }
        },
        KeyCode::Unsupported => {
            return None;
        },
    }

    if m.alt && bytes.len() > 0 {
        bytes.insert(0, 27);
        proof {
            let base = base_bytes_spec(code, m).unwrap();
            assert(bytes@ =~= seq![27u8] + base);
        }
    }

    Some(bytes)
}

} // verus!

//! The bytes a terminal sends for a key, for the console's embedded shell.
use vstd::prelude::*;
use vstd::utf8::{
    encode_scalar, has_width_1_encoding, has_width_2_encoding, has_width_3_encoding,
    last_continuation_byte, leading_byte_width_1, leading_byte_width_2, leading_byte_width_3,
    leading_byte_width_4, second_last_continuation_byte, third_last_continuation_byte,
};
use crate::decimal::lower_ascii;
use crate::tui::keys::{KeyCode, KeyInput};

verus! {

/// The UTF-8 bytes of a character.
pub fn utf8_bytes(c: char) -> (r: Vec<u8>)
    ensures
        r@ == encode_scalar(c as u32),
{
    let v = c as u32;
    let mut r: Vec<u8> = Vec::new();
    if v <= 0x7F {
        r.push((v & 0x7F) as u8);
    } else if v <= 0x7FF {
        r.push(0xC0 | ((v >> 6) & 0x1F) as u8);
        r.push(0x80 | (v & 0x3F) as u8);
    } else if v <= 0xFFFF {
        r.push(0xE0 | ((v >> 12) & 0x0F) as u8);
        r.push(0x80 | ((v >> 6) & 0x3F) as u8);
        r.push(0x80 | (v & 0x3F) as u8);
    } else {
        r.push(0xF0 | ((v >> 18) & 0x7) as u8);
        r.push(0x80 | ((v >> 12) & 0x3F) as u8);
        r.push(0x80 | ((v >> 6) & 0x3F) as u8);
        r.push(0x80 | (v & 0x3F) as u8);
    }
    proof {
        if v <= 0x7F {
            assert(has_width_1_encoding(v));
        } else if v <= 0x7FF {
            assert(has_width_2_encoding(v));
        } else if v <= 0xFFFF {
            assert(!has_width_1_encoding(v) && !has_width_2_encoding(v));
            assert(has_width_3_encoding(v));
        }
    }
    r
}

/// The byte a terminal sends for Ctrl with a character: letters map to
/// 1..=26, space to 0, `\` `]` `^` `_` to 0x1c..=0x1f, and anything else
/// to the low byte of the lower-cased character.
pub open spec fn ctrl_byte(c: char) -> u8 {
    let b = ((lower_ascii(c) as u32) % 256) as u8;
    if 97 <= b && b <= 122 {
        (b - 96) as u8
    } else if c == ' ' {
        0
    } else if c == '\\' {
        0x1c
    } else if c == ']' {
        0x1d
    } else if c == '^' {
        0x1e
    } else if c == '_' {
        0x1f
    } else {
        b
    }
}

/// The escape sequence for a function key; empty for keys above F12.
pub open spec fn function_key_bytes(n: u8) -> Seq<u8> {
    if n == 1 {
        seq![0x1b, 0x4f, 0x50]
    } else if n == 2 {
        seq![0x1b, 0x4f, 0x51]
    } else if n == 3 {
        seq![0x1b, 0x4f, 0x52]
    } else if n == 4 {
        seq![0x1b, 0x4f, 0x53]
    } else if n == 5 {
        seq![0x1b, 0x5b, 0x31, 0x35, 0x7e]
    } else if n == 6 {
        seq![0x1b, 0x5b, 0x31, 0x37, 0x7e]
    } else if n == 7 {
        seq![0x1b, 0x5b, 0x31, 0x38, 0x7e]
    } else if n == 8 {
        seq![0x1b, 0x5b, 0x31, 0x39, 0x7e]
    } else if n == 9 {
        seq![0x1b, 0x5b, 0x32, 0x30, 0x7e]
    } else if n == 10 {
        seq![0x1b, 0x5b, 0x32, 0x31, 0x7e]
    } else if n == 11 {
        seq![0x1b, 0x5b, 0x32, 0x33, 0x7e]
    } else if n == 12 {
        seq![0x1b, 0x5b, 0x32, 0x34, 0x7e]
    } else {
        seq![]
    }
}

/// The bytes for a key without modifiers (other than Ctrl on characters).
pub open spec fn code_bytes(code: KeyCode, ctrl: bool) -> Seq<u8> {
    match code {
        KeyCode::Char(c) => if ctrl {
            seq![ctrl_byte(c)]
        } else {
            encode_scalar(c as u32)
        },
        KeyCode::Enter => seq![0x0d],
        KeyCode::Tab => seq![0x09],
        KeyCode::BackTab => seq![0x1b, 0x5b, 0x5a],
        KeyCode::Backspace => seq![0x7f],
        KeyCode::Esc => seq![0x1b],
        KeyCode::Left => seq![0x1b, 0x5b, 0x44],
        KeyCode::Right => seq![0x1b, 0x5b, 0x43],
        KeyCode::Up => seq![0x1b, 0x5b, 0x41],
        KeyCode::Down => seq![0x1b, 0x5b, 0x42],
        KeyCode::Home => seq![0x1b, 0x5b, 0x48],
        KeyCode::End => seq![0x1b, 0x5b, 0x46],
        KeyCode::PageUp => seq![0x1b, 0x5b, 0x35, 0x7e],
        KeyCode::PageDown => seq![0x1b, 0x5b, 0x36, 0x7e],
        KeyCode::Insert => seq![0x1b, 0x5b, 0x32, 0x7e],
        KeyCode::Delete => seq![0x1b, 0x5b, 0x33, 0x7e],
        KeyCode::F(n) => function_key_bytes(n),
        KeyCode::Other => seq![],
    }
}

/// The bytes a terminal sends for a key: Esc first when Alt is held.
pub open spec fn key_bytes(key: KeyInput) -> Seq<u8> {
    (if key.alt {
        seq![0x1bu8]
    } else {
        seq![]
    }) + code_bytes(key.code, key.ctrl)
}

fn push_all(out: &mut Vec<u8>, bytes: &[u8])
    ensures
        final(out)@ == old(out)@ + bytes@,
{
    let mut i: usize = 0;
    while i < bytes.len()
        invariant
            i <= bytes@.len(),
            out@ == old(out)@ + bytes@.take(i as int),
        decreases bytes@.len() - i,
    {
        out.push(bytes[i]);
        i = i + 1;
        assert(bytes@.take(i as int) == bytes@.take((i - 1) as int).push(bytes@[i - 1]));
    }
    assert(bytes@.take(bytes@.len() as int) == bytes@);
}

fn ctrl_byte_of(c: char) -> (r: u8)
    ensures
        r == ctrl_byte(c),
{
    let lower = if 'A' <= c && c <= 'Z' {
        ((c as u32) + 32) as u8 as char
    } else {
        c
    };
    assert(lower == lower_ascii(c));
    let b = ((lower as u32) % 256) as u8;
    if 97 <= b && b <= 122 {
        b - 96
    } else if c == ' ' {
        0
    } else if c == '\\' {
        0x1c
    } else if c == ']' {
        0x1d
    } else if c == '^' {
        0x1e
    } else if c == '_' {
        0x1f
    } else {
        b
    }
}

/// Each arrow key sends Esc, `[` and its ANSI direction letter: Up `A`,
/// Down `B`, Right `C`, Left `D`, whatever Ctrl; Alt sends one more Esc
/// first, for every key.
pub proof fn law_arrow_keys(ctrl: bool, code: KeyCode)
    ensures
        key_bytes(KeyInput { code: KeyCode::Up, ctrl, alt: false }) == seq![0x1bu8, 0x5bu8, 0x41u8],
        key_bytes(KeyInput { code: KeyCode::Down, ctrl, alt: false }) == seq![0x1bu8, 0x5bu8, 0x42u8],
        key_bytes(KeyInput { code: KeyCode::Right, ctrl, alt: false }) == seq![0x1bu8, 0x5bu8, 0x43u8],
        key_bytes(KeyInput { code: KeyCode::Left, ctrl, alt: false }) == seq![0x1bu8, 0x5bu8, 0x44u8],
        key_bytes(KeyInput { code, ctrl, alt: true }) == seq![0x1bu8] + key_bytes(
            KeyInput { code, ctrl, alt: false },
        ),
{
    assert(seq![] + seq![0x1bu8, 0x5bu8, 0x41u8] =~= seq![0x1bu8, 0x5bu8, 0x41u8]);
    assert(seq![] + seq![0x1bu8, 0x5bu8, 0x42u8] =~= seq![0x1bu8, 0x5bu8, 0x42u8]);
    assert(seq![] + seq![0x1bu8, 0x5bu8, 0x43u8] =~= seq![0x1bu8, 0x5bu8, 0x43u8]);
    assert(seq![] + seq![0x1bu8, 0x5bu8, 0x44u8] =~= seq![0x1bu8, 0x5bu8, 0x44u8]);
    assert(Seq::<u8>::empty() + code_bytes(code, ctrl) =~= code_bytes(code, ctrl));
}

/// The bytes to write to the shell for a key, as `key_bytes` describes.
pub fn key_to_bytes(key: KeyInput) -> (out: Vec<u8>)
    ensures
        out@ == key_bytes(key),
        !key.alt && key.code == KeyCode::Up ==> out@ == seq![0x1bu8, 0x5bu8, 0x41u8],
        !key.alt && key.code == KeyCode::Down ==> out@ == seq![0x1bu8, 0x5bu8, 0x42u8],
        !key.alt && key.code == KeyCode::Right ==> out@ == seq![0x1bu8, 0x5bu8, 0x43u8],
        !key.alt && key.code == KeyCode::Left ==> out@ == seq![0x1bu8, 0x5bu8, 0x44u8],
{
    let mut out: Vec<u8> = Vec::new();
    if key.alt {
        out.push(0x1b);
    }
    let tail: Vec<u8> = match key.code {
        KeyCode::Char(c) => {
            if key.ctrl {
                let mut v: Vec<u8> = Vec::new();
                v.push(ctrl_byte_of(c));
                v
            } else {
                utf8_bytes(c)
            }
        },
        KeyCode::Enter => vec![0x0d],
        KeyCode::Tab => vec![0x09],
        KeyCode::BackTab => vec![0x1b, 0x5b, 0x5a],
        KeyCode::Backspace => vec![0x7f],
        KeyCode::Esc => vec![0x1b],
        KeyCode::Left => vec![0x1b, 0x5b, 0x44],
        KeyCode::Right => vec![0x1b, 0x5b, 0x43],
        KeyCode::Up => vec![0x1b, 0x5b, 0x41],
        KeyCode::Down => vec![0x1b, 0x5b, 0x42],
        KeyCode::Home => vec![0x1b, 0x5b, 0x48],
        KeyCode::End => vec![0x1b, 0x5b, 0x46],
        KeyCode::PageUp => vec![0x1b, 0x5b, 0x35, 0x7e],
        KeyCode::PageDown => vec![0x1b, 0x5b, 0x36, 0x7e],
        KeyCode::Insert => vec![0x1b, 0x5b, 0x32, 0x7e],
        KeyCode::Delete => vec![0x1b, 0x5b, 0x33, 0x7e],
        KeyCode::F(n) => {
            if n == 1 {
                vec![0x1b, 0x4f, 0x50]
            } else if n == 2 {
                vec![0x1b, 0x4f, 0x51]
            } else if n == 3 {
                vec![0x1b, 0x4f, 0x52]
            } else if n == 4 {
                vec![0x1b, 0x4f, 0x53]
            } else if n == 5 {
                vec![0x1b, 0x5b, 0x31, 0x35, 0x7e]
            } else if n == 6 {
                vec![0x1b, 0x5b, 0x31, 0x37, 0x7e]
            } else if n == 7 {
                vec![0x1b, 0x5b, 0x31, 0x38, 0x7e]
            } else if n == 8 {
                vec![0x1b, 0x5b, 0x31, 0x39, 0x7e]
            } else if n == 9 {
                vec![0x1b, 0x5b, 0x32, 0x30, 0x7e]
            } else if n == 10 {
                vec![0x1b, 0x5b, 0x32, 0x31, 0x7e]
            } else if n == 11 {
                vec![0x1b, 0x5b, 0x32, 0x33, 0x7e]
            } else if n == 12 {
                vec![0x1b, 0x5b, 0x32, 0x34, 0x7e]
            } else {
                Vec::new()
            }
        },
        KeyCode::Other => Vec::new(),
    };
    assert(tail@ == code_bytes(key.code, key.ctrl));
    push_all(&mut out, tail.as_slice());
    out
}

} // verus!

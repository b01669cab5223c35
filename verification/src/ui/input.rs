//! The bytes that keys send to a program.

use vstd::prelude::*;

use crate::text::chars_of;
use crate::ui::keys::{bytes_of_text, text_bytes, Key, KeyEvent, KeyModel, Modifiers, NamedKey};

verus! {

/// `ESC [` and what follows.
pub open spec fn csi(rest: Seq<u8>) -> Seq<u8> {
    seq![0x1bu8, 0x5b] + rest
}

/// `ESC O` and a letter.
pub open spec fn ss3(letter: u8) -> Seq<u8> {
    seq![0x1bu8, 0x4f, letter]
}

/// `ESC [ n ~` for a number of one digit.
pub open spec fn tilde1(digit: u8) -> Seq<u8> {
    csi(seq![digit, 0x7e])
}

/// `ESC [ n ~` for a number of two digits.
pub open spec fn tilde2(tens: u8, ones: u8) -> Seq<u8> {
    csi(seq![tens, ones, 0x7e])
}

/// What a key with a name sends.
pub open spec fn named_key_bytes(key: NamedKey) -> Option<Seq<u8>> {
    match key {
        NamedKey::Space => Some(seq![0x20u8]),
        NamedKey::Enter => Some(seq![0x0du8]),
        NamedKey::Backspace => Some(seq![0x7fu8]),
        NamedKey::Tab => Some(seq![0x09u8]),
        NamedKey::Escape => Some(seq![0x1bu8]),
        NamedKey::ArrowUp => Some(csi(seq![0x41u8])),
        NamedKey::ArrowDown => Some(csi(seq![0x42u8])),
        NamedKey::ArrowRight => Some(csi(seq![0x43u8])),
        NamedKey::ArrowLeft => Some(csi(seq![0x44u8])),
        NamedKey::Home => Some(csi(seq![0x48u8])),
        NamedKey::End => Some(csi(seq![0x46u8])),
        NamedKey::PageUp => Some(tilde1(0x35)),
        NamedKey::PageDown => Some(tilde1(0x36)),
        NamedKey::Insert => Some(tilde1(0x32)),
        NamedKey::Delete => Some(tilde1(0x33)),
        NamedKey::F1 => Some(ss3(0x50)),
        NamedKey::F2 => Some(ss3(0x51)),
        NamedKey::F3 => Some(ss3(0x52)),
        NamedKey::F4 => Some(ss3(0x53)),
        NamedKey::F5 => Some(tilde2(0x31, 0x35)),
        NamedKey::F6 => Some(tilde2(0x31, 0x37)),
        NamedKey::F7 => Some(tilde2(0x31, 0x38)),
        NamedKey::F8 => Some(tilde2(0x31, 0x39)),
        NamedKey::F9 => Some(tilde2(0x32, 0x30)),
        NamedKey::F10 => Some(tilde2(0x32, 0x31)),
        NamedKey::F11 => Some(tilde2(0x32, 0x33)),
        NamedKey::F12 => Some(tilde2(0x32, 0x34)),
        _ => None,
    }
}

fn arrow(letter: u8) -> (b: Vec<u8>)
    ensures
        b@ == csi(seq![letter]),
{
    let b = vec![0x1bu8, 0x5b, letter];
    assert(b@ =~= csi(seq![letter]));
    b
}

fn function(letter: u8) -> (b: Vec<u8>)
    ensures
        b@ == ss3(letter),
{
    let b = vec![0x1bu8, 0x4f, letter];
    assert(b@ =~= ss3(letter));
    b
}

fn one_digit(digit: u8) -> (b: Vec<u8>)
    ensures
        b@ == tilde1(digit),
{
    let b = vec![0x1bu8, 0x5b, digit, 0x7e];
    assert(b@ =~= tilde1(digit));
    b
}

fn two_digits(tens: u8, ones: u8) -> (b: Vec<u8>)
    ensures
        b@ == tilde2(tens, ones),
{
    let b = vec![0x1bu8, 0x5b, tens, ones, 0x7e];
    assert(b@ =~= tilde2(tens, ones));
    b
}

fn one_byte(byte: u8) -> (b: Vec<u8>)
    ensures
        b@ == seq![byte],
{
    let b = vec![byte];
    assert(b@ =~= seq![byte]);
    b
}

/// What a key with a name sends.
pub fn encode_named_key(key: NamedKey) -> (bytes: Option<Vec<u8>>)
    ensures
        match bytes {
            Some(b) => named_key_bytes(key) == Some(b@),
            None => named_key_bytes(key) is None,
        },
{
    match key {
        NamedKey::Space => Some(one_byte(0x20)),
        NamedKey::Enter => Some(one_byte(0x0d)),
        NamedKey::Backspace => Some(one_byte(0x7f)),
        NamedKey::Tab => Some(one_byte(0x09)),
        NamedKey::Escape => Some(one_byte(0x1b)),
        NamedKey::ArrowUp => Some(arrow(0x41)),
        NamedKey::ArrowDown => Some(arrow(0x42)),
        NamedKey::ArrowRight => Some(arrow(0x43)),
        NamedKey::ArrowLeft => Some(arrow(0x44)),
        NamedKey::Home => Some(arrow(0x48)),
        NamedKey::End => Some(arrow(0x46)),
        NamedKey::PageUp => Some(one_digit(0x35)),
        NamedKey::PageDown => Some(one_digit(0x36)),
        NamedKey::Insert => Some(one_digit(0x32)),
        NamedKey::Delete => Some(one_digit(0x33)),
        NamedKey::F1 => Some(function(0x50)),
        NamedKey::F2 => Some(function(0x51)),
        NamedKey::F3 => Some(function(0x52)),
        NamedKey::F4 => Some(function(0x53)),
        NamedKey::F5 => Some(two_digits(0x31, 0x35)),
        NamedKey::F6 => Some(two_digits(0x31, 0x37)),
        NamedKey::F7 => Some(two_digits(0x31, 0x38)),
        NamedKey::F8 => Some(two_digits(0x31, 0x39)),
        NamedKey::F9 => Some(two_digits(0x32, 0x30)),
        NamedKey::F10 => Some(two_digits(0x32, 0x31)),
        NamedKey::F11 => Some(two_digits(0x32, 0x33)),
        NamedKey::F12 => Some(two_digits(0x32, 0x34)),
        _ => None,
    }
}

/// The control character of a character: of a letter its number in the
/// alphabet, of a few signs those that follow, of `@` zero.
pub open spec fn control_code(c: char) -> Option<u8> {
    if 'a' <= c <= 'z' {
        Some((c as int - 'a' as int + 1) as u8)
    } else if 'A' <= c <= 'Z' {
        Some((c as int - 'A' as int + 1) as u8)
    } else if c == '[' {
        Some(0x1bu8)
    } else if c == '\\' {
        Some(0x1cu8)
    } else if c == ']' {
        Some(0x1du8)
    } else if c == '^' {
        Some(0x1eu8)
    } else if c == '_' {
        Some(0x1fu8)
    } else if c == '@' {
        Some(0x00u8)
    } else {
        None
    }
}

fn control_byte(c: char) -> (code: Option<u8>)
    ensures
        code == control_code(c),
{
    let n: u32 = c as u32;
    if 'a' <= c && c <= 'z' {
        Some((n - 97 + 1) as u8)
    } else if 'A' <= c && c <= 'Z' {
        Some((n - 65 + 1) as u8)
    } else if c == '[' {
        Some(0x1b)
    } else if c == '\\' {
        Some(0x1c)
    } else if c == ']' {
        Some(0x1d)
    } else if c == '^' {
        Some(0x1e)
    } else if c == '_' {
        Some(0x1f)
    } else if c == '@' {
        Some(0x00)
    } else {
        None
    }
}

/// The control character of a key, where it has one.
pub open spec fn control_of(key: KeyModel) -> Option<u8> {
    match key {
        KeyModel::Character(s) => if s.len() == 1 {
            control_code(s[0])
        } else {
            None
        },
        KeyModel::Named(n) => if n is Space {
            Some(0x00u8)
        } else {
            None
        },
        KeyModel::Unidentified => None,
    }
}

/// What a key sends: nothing when it goes up; with control held its control
/// character, where it has one; else what its name stands for; else its text,
/// unless control is held.
pub open spec fn key_bytes(event: KeyEvent, modifiers: Modifiers) -> Option<Seq<u8>> {
    if !event.pressed {
        None
    } else if modifiers.control && control_of(event.logical_key@) is Some {
        Some(seq![control_of(event.logical_key@)->0])
    } else {
        match event.logical_key {
            Key::Named(n) => named_key_bytes(n),
            _ => if modifiers.control {
                None
            } else {
                text_bytes(event)
            },
        }
    }
}

/// The bytes that a key sends to a program.
pub fn encode_key(event: &KeyEvent, modifiers: Modifiers) -> (bytes: Option<Vec<u8>>)
    ensures
        match bytes {
            Some(b) => key_bytes(*event, modifiers) == Some(b@),
            None => key_bytes(*event, modifiers) is None,
        },
{
    if !event.pressed {
        return None;
    }
    if modifiers.control {
        match &event.logical_key {
            Key::Character(s) => {
                let chars = chars_of(s.as_str());
                if chars.len() == 1 {
                    if let Some(code) = control_byte(chars[0]) {
                        return Some(one_byte(code));
                    }
                }
            },
            Key::Named(n) => {
                let space = match n {
                    NamedKey::Space => true,
                    _ => false,
                };
                if space {
                    return Some(one_byte(0x00));
                }
            },
            Key::Unidentified => {},
        }
    }
    match &event.logical_key {
        Key::Named(n) => encode_named_key(*n),
        _ => if modifiers.control {
            None
        } else {
            bytes_of_text(event)
        },
    }
}

} // verus!

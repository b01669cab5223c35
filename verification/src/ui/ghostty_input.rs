//! What a terminal library is told of keys and of the mouse, and what becomes
//! of the bytes that it gives back.

use vstd::prelude::*;

use crate::text::chars_of;
use crate::ui::keys::{
    bytes_of_text, text_bytes, Key, KeyEvent, KeyModel, Modifiers, NamedKey, PhysicalKey,
};

verus! {

// ---------------------------------------------------------------------------
// Keys
// ---------------------------------------------------------------------------
/// A key of a keyboard with American layout.
#[derive(Clone, Copy, Debug, PartialEq, Eq, Structural)]
pub enum GhosttyKey {
    /// A key that gives a character, by the one it gives without modifiers.
    Printable(char),
    Named(NamedKey),
    Physical(PhysicalKey),
    Unidentified,
}

/// The character that a key gives without shift, by the one it gives with or
/// without it; on an American keyboard.
pub open spec fn unshifted(c: char) -> Option<char> {
    if 'a' <= c <= 'z' {
        Some(c)
    } else if 'A' <= c <= 'Z' {
        Some((c as u32 + 32) as char)
    } else if '0' <= c <= '9' {
        Some(c)
    } else {
        match c {
            ')' => Some('0'),
            '!' => Some('1'),
            '@' => Some('2'),
            '#' => Some('3'),
            '$' => Some('4'),
            '%' => Some('5'),
            '^' => Some('6'),
            '&' => Some('7'),
            '*' => Some('8'),
            '(' => Some('9'),
            '-' | '_' => Some('-'),
            '=' | '+' => Some('='),
            '[' | '{' => Some('['),
            ']' | '}' => Some(']'),
            '\\' | '|' => Some('\\'),
            ';' | ':' => Some(';'),
            '\'' | '"' => Some('\''),
            ',' | '<' => Some(','),
            '.' | '>' => Some('.'),
            '/' | '?' => Some('/'),
            '`' | '~' => Some('`'),
            _ => None,
        }
    }
}

fn without_shift(c: char) -> (base: Option<char>)
    ensures
        base == unshifted(c),
{
    if 'a' <= c && c <= 'z' {
        return Some(c);
    }
    if 'A' <= c && c <= 'Z' {
        let n: u8 = c as u8;
        let lower: char = (n + 32) as char;
        return Some(lower);
    }
    if '0' <= c && c <= '9' {
        return Some(c);
    }
    match c {
        ')' => Some('0'),
        '!' => Some('1'),
        '@' => Some('2'),
        '#' => Some('3'),
        '$' => Some('4'),
        '%' => Some('5'),
        '^' => Some('6'),
        '&' => Some('7'),
        '*' => Some('8'),
        '(' => Some('9'),
        '-' | '_' => Some('-'),
        '=' | '+' => Some('='),
        '[' | '{' => Some('['),
        ']' | '}' => Some(']'),
        '\\' | '|' => Some('\\'),
        ';' | ':' => Some(';'),
        '\'' | '"' => Some('\''),
        ',' | '<' => Some(','),
        '.' | '>' => Some('.'),
        '/' | '?' => Some('/'),
        '`' | '~' => Some('`'),
        _ => None,
    }
}

/// The character that a key gives without modifiers, where it gives one.
pub open spec fn base_character(key: KeyModel) -> Option<char> {
    match key {
        KeyModel::Character(s) => if s.len() == 1 {
            unshifted(s[0])
        } else {
            None
        },
        _ => None,
    }
}

/// The key by its meaning.
pub open spec fn key_by_meaning(key: KeyModel) -> GhosttyKey {
    match key {
        KeyModel::Named(n) => if n is Unknown {
            GhosttyKey::Unidentified
        } else {
            GhosttyKey::Named(n)
        },
        _ => match base_character(key) {
            Some(c) => GhosttyKey::Printable(c),
            None => GhosttyKey::Unidentified,
        },
    }
}

fn base_char(key: &Key) -> (c: Option<char>)
    ensures
        c == base_character(key@),
{
    match key {
        Key::Character(s) => {
            let chars = chars_of(s.as_str());
            if chars.len() == 1 {
                without_shift(chars[0])
            } else {
                None
            }
        },
        _ => None,
    }
}

/// The key by its meaning.
pub fn winit_key_to_ghostty(key: &Key) -> (g: GhosttyKey)
    ensures
        g == key_by_meaning(key@),
{
    match key {
        Key::Named(n) => match n {
            NamedKey::Unknown => GhosttyKey::Unidentified,
            _ => GhosttyKey::Named(*n),
        },
        _ => match base_char(key) {
            Some(c) => GhosttyKey::Printable(c),
            None => GhosttyKey::Unidentified,
        },
    }
}

/// The key by its meaning, or by its place where that tells more: on the number
/// pad, and for the modifiers on the right.
pub fn refine_key_with_physical(key: GhosttyKey, physical: PhysicalKey) -> (g: GhosttyKey)
    ensures
        g == if physical is Elsewhere {
            key
        } else {
            GhosttyKey::Physical(physical)
        },
{
    match physical {
        PhysicalKey::Elsewhere => key,
        _ => GhosttyKey::Physical(physical),
    }
}

/// The number of the character that a key gives without modifiers; zero where
/// it gives none.
pub open spec fn unshifted_number(key: KeyModel) -> u32 {
    match key {
        KeyModel::Named(n) => if n is Space {
            32
        } else {
            0
        },
        _ => match base_character(key) {
            Some(c) => c as u32,
            None => 0,
        },
    }
}

/// The number of the character that a key gives without modifiers; zero where
/// it gives none.
pub fn unshifted_codepoint(key: &Key) -> (n: u32)
    ensures
        n == unshifted_number(key@),
{
    match key {
        Key::Named(n) => match n {
            NamedKey::Space => 32,
            _ => 0,
        },
        _ => match base_char(key) {
            Some(c) => c as u32,
            None => 0,
        },
    }
}

/// What happened to a key.
#[derive(Clone, Copy, Debug, PartialEq, Eq, Structural)]
pub enum KeyAction {
    Press,
    Repeat,
    Release,
}

/// What the encoder of keys is told.
#[derive(Debug, PartialEq, Eq)]
pub struct KeyPlan {
    pub key: GhosttyKey,
    pub action: KeyAction,
    pub mods: Modifiers,
    pub unshifted: u32,
    /// Whether shift was used up for the character.
    pub shift_consumed: bool,
    /// The text, unless the key went up.
    pub text: Option<Vec<u8>>,
}

/// What the encoder of keys is told.
pub fn key_plan(event: &KeyEvent, modifiers: Modifiers, is_press: bool, is_repeat: bool) -> (p:
    KeyPlan)
    ensures
        p.key == if event.physical_key is Elsewhere {
            key_by_meaning(event.logical_key@)
        } else {
            GhosttyKey::Physical(event.physical_key)
        },
        p.action == if !is_press {
            KeyAction::Release
        } else if is_repeat {
            KeyAction::Repeat
        } else {
            KeyAction::Press
        },
        p.mods == modifiers,
        p.unshifted == unshifted_number(event.logical_key@),
        p.shift_consumed == (modifiers.shift && unshifted_number(event.logical_key@) != 0),
        match p.text {
            Some(t) => (is_press || is_repeat) && text_bytes(*event) == Some(t@),
            None => (!is_press && !is_repeat) || text_bytes(*event) is None,
        },
{
    let key = refine_key_with_physical(
        winit_key_to_ghostty(&event.logical_key),
        event.physical_key,
    );
    let action = if !is_press {
        KeyAction::Release
    } else if is_repeat {
        KeyAction::Repeat
    } else {
        KeyAction::Press
    };
    let unshifted: u32 = unshifted_codepoint(&event.logical_key);
    let text = if is_press || is_repeat {
        bytes_of_text(event)
    } else {
        None
    };
    KeyPlan {
        key,
        action,
        mods: modifiers,
        unshifted,
        shift_consumed: unshifted != 0 && modifiers.shift,
        text,
    }
}

/// What is sent for a key: what the encoder gave, or else the text itself.
pub fn encoded_or_text(encoded: Vec<u8>, plan: KeyPlan) -> (bytes: Option<Vec<u8>>)
    ensures
        if encoded@.len() > 0 {
            bytes matches Some(b) && b@ == encoded@
        } else {
            bytes == plan.text
        },
{
    if encoded.len() > 0 {
        Some(encoded)
    } else {
        plan.text
    }
}

// ---------------------------------------------------------------------------
// The mouse
// ---------------------------------------------------------------------------
/// A button of the mouse as a window knows it.
#[derive(Clone, Copy, Debug, PartialEq, Eq, Structural)]
pub enum MouseButton {
    Left,
    Right,
    Middle,
    Back,
    Forward,
    Other(u16),
}

/// The number by which the encoder knows a button; none for one that it does
/// not know.
pub open spec fn button_number(button: MouseButton) -> Option<u8> {
    match button {
        MouseButton::Left => Some(1u8),
        MouseButton::Right => Some(2u8),
        MouseButton::Middle => Some(3u8),
        MouseButton::Back => Some(4u8),
        MouseButton::Forward => Some(5u8),
        MouseButton::Other(n) => if n == 5 {
            Some(6u8)
        } else if n == 6 {
            Some(7u8)
        } else if n == 7 {
            Some(8u8)
        } else {
            None
        },
    }
}

/// The number by which the encoder knows a button.
pub fn winit_mouse_button_to_ghostty(button: MouseButton) -> (n: Option<u8>)
    ensures
        n == button_number(button),
{
    match button {
        MouseButton::Left => Some(1),
        MouseButton::Right => Some(2),
        MouseButton::Middle => Some(3),
        MouseButton::Back => Some(4),
        MouseButton::Forward => Some(5),
        MouseButton::Other(n) => if n == 5 {
            Some(6)
        } else if n == 6 {
            Some(7)
        } else if n == 7 {
            Some(8)
        } else {
            None
        },
    }
}

/// The buttons that are down, by their numbers from one to seven.
#[derive(Debug, PartialEq, Eq)]
pub struct GhosttyInput {
    held: [bool; 8],
}

impl View for GhosttyInput {
    type V = Seq<bool>;

    closed spec fn view(&self) -> Seq<bool> {
        self.held@
    }
}

/// The first button from `n` on that is down.
pub open spec fn first_down(held: Seq<bool>, n: int) -> Option<u8>
    decreases held.len() - n,
{
    if n >= held.len() {
        None
    } else if held[n] {
        Some(n as u8)
    } else {
        first_down(held, n + 1)
    }
}

impl GhosttyInput {
    /// No button is down.
    pub fn new() -> (s: GhosttyInput)
        ensures
            s@ == Seq::new(8, |i: int| false),
    {
        let s = GhosttyInput {
            held: [false, false, false, false, false, false, false, false],
        };
        assert(s@ =~= Seq::new(8, |i: int| false));
        s
    }

    /// Takes that a button went down or up. Returns its number, where the
    /// encoder is to be told. The eighth button is not accepted: there is no
    /// place to remember it.
    pub fn button(&mut self, button: MouseButton, pressed: bool) -> (number: Option<u8>)
        requires
            button != MouseButton::Other(7),
        ensures
            number == button_number(button),
            final(self)@ == match number {
                Some(n) => old(self)@.update(n as int, pressed),
                None => old(self)@,
            },
            number matches Some(n) ==> 1 <= n < 8,
    {
        match winit_mouse_button_to_ghostty(button) {
            None => None,
            Some(n) => {
                let i: usize = n as usize;
                self.held[i] = pressed;
                assert(self@ =~= old(self)@.update(n as int, pressed));
                Some(n)
            },
        }
    }

    /// The button that the encoder is told of when the mouse moves: the first
    /// that is down.
    pub fn held_button(&self) -> (number: Option<u8>)
        ensures
            number == first_down(self@, 1),
    {
        let mut i: usize = 1;
        while i < 8
            invariant
                1 <= i <= 8,
                self@.len() == 8,
                first_down(self@, 1) == first_down(self@, i as int),
            decreases 8 - i,
        {
            if self.held[i] {
                return Some(i as u8);
            }
            i = i + 1;
        }
        None
    }
}

/// What a turn of the wheel does.
#[derive(Debug, PartialEq, Eq)]
pub enum ScrollAction {
    /// Send these bytes: the program wants the events of the mouse.
    WriteBytes(Vec<u8>),
    /// Move the view by so many rows.
    ScrollViewport(isize),
}

/// By how many rows a turn of the wheel moves the view.
pub open spec fn wheel_rows(up: bool) -> int {
    if up {
        -3
    } else {
        3
    }
}

/// The number of the button that a turn of the wheel stands for.
pub fn wheel_button(up: bool) -> (n: u8)
    ensures
        n == if up {
            4u8
        } else {
            5u8
        },
{
    if up {
        4
    } else {
        5
    }
}

/// What a turn of the wheel does. A program that wants the events of the mouse
/// gets a press and a release, as the encoder gave them; where it gave nothing,
/// and without such a program, the view moves.
pub fn handle_scroll(up: bool, mouse_tracking: bool, press: Vec<u8>, release: Vec<u8>) -> (a:
    ScrollAction)
    ensures
        if mouse_tracking && press@.len() + release@.len() > 0 {
            a matches ScrollAction::WriteBytes(b) && b@ == press@ + release@
        } else {
            a matches ScrollAction::ScrollViewport(rows) && rows == wheel_rows(up)
        },
{
    if mouse_tracking {
        let mut bytes = press;
        let mut rest = release;
        bytes.append(&mut rest);
        if bytes.len() > 0 {
            return ScrollAction::WriteBytes(bytes);
        }
    }
    let rows: isize = if up {
        -3
    } else {
        3
    };
    ScrollAction::ScrollViewport(rows)
}

} // verus!

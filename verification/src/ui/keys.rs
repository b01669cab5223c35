//! Keys as a window gets them.

use vstd::prelude::*;

use crate::text::same_text;

verus! {

/// A key with a name of its own.
#[derive(Clone, Copy, Debug, PartialEq, Eq, Structural)]
pub enum NamedKey {
    Space,
    Enter,
    Tab,
    Backspace,
    Delete,
    Escape,
    ArrowUp,
    ArrowDown,
    ArrowLeft,
    ArrowRight,
    Home,
    End,
    PageUp,
    PageDown,
    Insert,
    CapsLock,
    NumLock,
    ScrollLock,
    PrintScreen,
    Pause,
    ContextMenu,
    F1,
    F2,
    F3,
    F4,
    F5,
    F6,
    F7,
    F8,
    F9,
    F10,
    F11,
    F12,
    F13,
    F14,
    F15,
    F16,
    F17,
    F18,
    F19,
    F20,
    F21,
    F22,
    F23,
    F24,
    F25,
    Shift,
    Control,
    Alt,
    Super,
    MediaPlayPause,
    MediaStop,
    MediaTrackNext,
    MediaTrackPrevious,
    AudioVolumeDown,
    AudioVolumeMute,
    AudioVolumeUp,
    BrowserBack,
    BrowserFavorites,
    BrowserForward,
    BrowserHome,
    BrowserRefresh,
    BrowserSearch,
    BrowserStop,
    Eject,
    LaunchApplication1,
    LaunchApplication2,
    LaunchMail,
    Power,
    WakeUp,
    Copy,
    Cut,
    Paste,
    /// Any other.
    Unknown,
}

/// What a key means.
#[derive(Debug, PartialEq, Eq)]
pub enum Key {
    /// The characters it gives.
    Character(String),
    Named(NamedKey),
    /// Anything else.
    Unidentified,
}

/// The same as a mathematical value.
pub ghost enum KeyModel {
    Character(Seq<char>),
    Named(NamedKey),
    Unidentified,
}

impl View for Key {
    type V = KeyModel;

    open spec fn view(&self) -> KeyModel {
        match *self {
            Key::Character(s) => KeyModel::Character(s@),
            Key::Named(n) => KeyModel::Named(n),
            Key::Unidentified => KeyModel::Unidentified,
        }
    }
}

/// Whether two keys mean the same.
pub fn same_key(a: &Key, b: &Key) -> (same: bool)
    ensures
        same == (a@ == b@),
{
    match (a, b) {
        (Key::Character(x), Key::Character(y)) => same_text(x.as_str(), y.as_str()),
        (Key::Named(x), Key::Named(y)) => *x == *y,
        (Key::Unidentified, Key::Unidentified) => true,
        _ => false,
    }
}

/// The modifiers that are held.
#[derive(Clone, Copy, Debug, PartialEq, Eq, Structural)]
pub struct Modifiers {
    pub shift: bool,
    pub control: bool,
    pub alt: bool,
    pub super_key: bool,
}

/// A key of the keyboard by its place, as far as the place tells more than the
/// meaning: the keys of the number pad and the modifiers on the right.
#[derive(Clone, Copy, Debug, PartialEq, Eq, Structural)]
pub enum PhysicalKey {
    Numpad0,
    Numpad1,
    Numpad2,
    Numpad3,
    Numpad4,
    Numpad5,
    Numpad6,
    Numpad7,
    Numpad8,
    Numpad9,
    NumpadAdd,
    NumpadSubtract,
    NumpadMultiply,
    NumpadDivide,
    NumpadDecimal,
    NumpadEnter,
    NumpadEqual,
    ShiftRight,
    ControlRight,
    AltRight,
    SuperRight,
    /// Any other.
    Elsewhere,
}

/// A key that went down or up.
#[derive(Debug, PartialEq, Eq)]
pub struct KeyEvent {
    pub logical_key: Key,
    pub physical_key: PhysicalKey,
    /// The text it gives, with shift, the lock of capitals and dead keys taken
    /// into account.
    pub text: Option<String>,
    pub pressed: bool,
}

/// The bytes of the text of an event; none where it gives none.
pub open spec fn text_bytes(event: KeyEvent) -> Option<Seq<u8>> {
    match event.text {
        Some(s) => if s@.len() > 0 {
            Some(vstd::utf8::encode_utf8(s@))
        } else {
            None
        },
        None => None,
    }
}

/// The bytes of the text of an event; none where it gives none.
pub fn bytes_of_text(event: &KeyEvent) -> (bytes: Option<Vec<u8>>)
    ensures
        match bytes {
            Some(b) => text_bytes(*event) == Some(b@),
            None => text_bytes(*event) is None,
        },
{
    match &event.text {
        None => None,
        Some(s) => {
            if s.as_str().is_empty() {
                None
            } else {
                let mut out: Vec<u8> = Vec::new();
                out.extend_from_slice(s.as_str().as_bytes());
                assert(out@ =~= vstd::utf8::encode_utf8(s@));
                Some(out)
            }
        },
    }
}

} // verus!

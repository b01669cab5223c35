//! Keys on a pane: which belong to the window, and what the others do.

use vstd::prelude::*;

use crate::text::join2;

verus! {

/// A key.
#[derive(Clone, Copy, Debug, PartialEq, Eq, Structural)]
pub enum KeySym {
    Char(char),
    Left,
    Right,
    Up,
    Down,
    PageUp,
    PageDown,
    F1,
    Escape,
    Return,
    Other,
}

/// The modifiers that are held. Others, such as the lock of the number pad, do
/// not count.
#[derive(Clone, Copy, Debug, PartialEq, Eq, Structural)]
pub struct Held {
    pub ctrl: bool,
    pub shift: bool,
    pub alt: bool,
}

/// Whether a key is a letter, in either case.
pub open spec fn is_letter(key: KeySym, lower: char, upper: char) -> bool {
    key == KeySym::Char(lower) || key == KeySym::Char(upper)
}

/// Keys that count with control alone: paste, zoom and the settings.
pub open spec fn with_ctrl(key: KeySym) -> bool {
    is_letter(key, 'v', 'V') || key == KeySym::Char('=') || key == KeySym::Char('+') || key
        == KeySym::Char('-') || key == KeySym::Char('0') || key == KeySym::Char(',')
}

/// Keys that count with control and shift: close the pane, copy, search, paste,
/// zoom in and the list of shortcuts.
pub open spec fn with_ctrl_shift(key: KeySym) -> bool {
    is_letter(key, 'w', 'W') || is_letter(key, 'c', 'C') || is_letter(key, 'f', 'F') || is_letter(
        key,
        'v',
        'V',
    ) || key == KeySym::Char('=') || key == KeySym::Char('+') || key == KeySym::Char('?') || key
        == KeySym::Char('/')
}

/// Keys that count with alt alone: to the neighbouring panes.
pub open spec fn with_alt(key: KeySym) -> bool {
    key is Left || key is Right || key is Up || key is Down
}

/// Keys that count with alt and shift: the splits.
pub open spec fn with_alt_shift(key: KeySym) -> bool {
    key == KeySym::Char('=') || key == KeySym::Char('+') || key == KeySym::Char('-') || key
        == KeySym::Char('_')
}

/// Keys that count with control and alt: those of the workspaces.
pub open spec fn with_ctrl_alt(key: KeySym) -> bool {
    is_letter(key, 'n', 'N') || is_letter(key, 'w', 'W') || key is PageUp || key is PageDown
        || match key {
        KeySym::Char(c) => '1' <= c && c <= '9',
        _ => false,
    }
}

/// Whether a key belongs to the window and is not for the program in the pane.
pub open spec fn app_shortcut(key: KeySym, held: Held) -> bool {
    match (held.ctrl, held.shift, held.alt) {
        (true, false, false) => with_ctrl(key),
        (true, true, false) => with_ctrl_shift(key),
        (false, false, true) => with_alt(key),
        (false, true, true) => with_alt_shift(key),
        (true, false, true) => with_ctrl_alt(key),
        (false, false, false) => key is F1,
        _ => false,
    }
}

fn letter(key: KeySym, lower: char, upper: char) -> (b: bool)
    ensures
        b == is_letter(key, lower, upper),
{
    match key {
        KeySym::Char(c) => c == lower || c == upper,
        _ => false,
    }
}

fn sign(key: KeySym, wanted: char) -> (b: bool)
    ensures
        b == (key == KeySym::Char(wanted)),
{
    match key {
        KeySym::Char(c) => c == wanted,
        _ => false,
    }
}

/// Whether a key belongs to the window and is not for the program in the pane.
pub fn is_app_shortcut(key: KeySym, held: Held) -> (b: bool)
    ensures
        b == app_shortcut(key, held),
{
    if held.ctrl && held.alt {
        if held.shift {
            return false;
        }
        return match key {
            KeySym::PageUp => true,
            KeySym::PageDown => true,
            KeySym::Char(c) => c == 'n' || c == 'N' || c == 'w' || c == 'W' || ('1' <= c && c
                <= '9'),
            _ => false,
        };
    }
    if held.ctrl && held.shift {
        return letter(key, 'w', 'W') || letter(key, 'c', 'C') || letter(key, 'f', 'F') || letter(
            key,
            'v',
            'V',
        ) || sign(key, '=') || sign(key, '+') || sign(key, '?') || sign(key, '/');
    }
    if held.ctrl {
        return letter(key, 'v', 'V') || sign(key, '=') || sign(key, '+') || sign(key, '-') || sign(
            key,
            '0',
        ) || sign(key, ',');
    }
    if held.alt && held.shift {
        return sign(key, '=') || sign(key, '+') || sign(key, '-') || sign(key, '_');
    }
    if held.alt {
        return match key {
            KeySym::Left => true,
            KeySym::Right => true,
            KeySym::Up => true,
            KeySym::Down => true,
            _ => false,
        };
    }
    if held.shift {
        return false;
    }
    match key {
        KeySym::F1 => true,
        _ => false,
    }
}

/// What a key does.
#[derive(Clone, Copy, Debug, PartialEq, Eq, Structural)]
pub enum KeyStep {
    /// It belongs to the window.
    Propagate,
    /// Copy the selection.
    Copy,
    /// Interrupt the program in the pane.
    Interrupt,
    /// Forget the selection.
    ClearSelection,
    /// It is for the program in the pane.
    Encode,
}

/// What a key does, given whether there is a selection and whether the program
/// wants the events of the mouse.
pub open spec fn key_step_for(
    key: KeySym,
    held: Held,
    has_selection: bool,
    mouse_tracking: bool,
) -> KeyStep {
    if app_shortcut(key, held) {
        KeyStep::Propagate
    } else if held.ctrl && !held.shift && !held.alt && is_letter(key, 'c', 'C') {
        if has_selection {
            KeyStep::Copy
        } else {
            KeyStep::Interrupt
        }
    } else if key is Escape && has_selection && !mouse_tracking {
        KeyStep::ClearSelection
    } else {
        KeyStep::Encode
    }
}

/// Decides what a key does.
pub fn key_step(key: KeySym, held: Held, has_selection: bool, mouse_tracking: bool) -> (s: KeyStep)
    ensures
        s == key_step_for(key, held, has_selection, mouse_tracking),
{
    if is_app_shortcut(key, held) {
        return KeyStep::Propagate;
    }
    if held.ctrl && !held.shift && !held.alt && letter(key, 'c', 'C') {
        return if has_selection {
            KeyStep::Copy
        } else {
            KeyStep::Interrupt
        };
    }
    let escape = match key {
        KeySym::Escape => true,
        _ => false,
    };
    if escape && has_selection && !mouse_tracking {
        KeyStep::ClearSelection
    } else {
        KeyStep::Encode
    }
}

/// What a key in the search bar does.
#[derive(Clone, Copy, Debug, PartialEq, Eq, Structural)]
pub enum SearchKey {
    /// To the match before.
    Previous,
    /// Close the bar.
    Close,
    /// It is for the bar itself.
    Propagate,
}

/// Decides what a key in the search bar does.
pub fn search_key(key: KeySym, held: Held) -> (s: SearchKey)
    ensures
        s == if key is Return && held.shift {
            SearchKey::Previous
        } else if key is Escape {
            SearchKey::Close
        } else {
            SearchKey::Propagate
        },
{
    match key {
        KeySym::Return => if held.shift {
            SearchKey::Previous
        } else {
            SearchKey::Propagate
        },
        KeySym::Escape => SearchKey::Close,
        _ => SearchKey::Propagate,
    }
}

/// One entry of the context menu: its label, the shortcut beside it, what it
/// does, and whether it can be chosen.
#[derive(Debug, PartialEq, Eq)]
pub enum MenuItem {
    Entry { label: String, shortcut: Option<&'static str>, action: &'static str, enabled: bool },
    Separator,
}

/// The same as a mathematical value.
pub ghost enum MenuModel {
    Entry { label: Seq<char>, shortcut: Option<Seq<char>>, action: Seq<char>, enabled: bool },
    Separator,
}

impl View for MenuItem {
    type V = MenuModel;

    open spec fn view(&self) -> MenuModel {
        match *self {
            MenuItem::Entry { label, shortcut, action, enabled } => MenuModel::Entry {
                label: label@,
                shortcut: match shortcut {
                    Some(s) => Some(s@),
                    None => None,
                },
                action: action@,
                enabled,
            },
            MenuItem::Separator => MenuModel::Separator,
        }
    }
}

/// The entries that the context menu always has.
pub open spec fn common_menu(has_selection: bool) -> Seq<MenuModel> {
    seq![
        MenuModel::Entry {
            label: "Copy"@,
            shortcut: Some("Ctrl+C"@),
            action: "win.copy"@,
            enabled: has_selection,
        },
        MenuModel::Entry {
            label: "Paste"@,
            shortcut: Some("Ctrl+V"@),
            action: "win.paste"@,
            enabled: true,
        },
        MenuModel::Separator,
        MenuModel::Entry {
            label: "Select All"@,
            shortcut: None,
            action: "win.select-all"@,
            enabled: true,
        },
        MenuModel::Entry {
            label: "Search"@,
            shortcut: Some("Shift+Ctrl+F"@),
            action: "win.search"@,
            enabled: true,
        },
    ]
}

/// The entry that opens an address.
pub open spec fn url_entry(url: Seq<char>) -> MenuModel {
    MenuModel::Entry {
        label: "Open "@ + url,
        shortcut: None,
        action: "win.open-url"@,
        enabled: true,
    }
}

/// Entries as mathematical values.
pub open spec fn menu_model(items: Seq<MenuItem>) -> Seq<MenuModel> {
    Seq::new(items.len(), |i: int| items[i]@)
}

fn entry(label: &str, shortcut: Option<&'static str>, action: &'static str, enabled: bool) -> (item:
    MenuItem)
    ensures
        item@ == (MenuModel::Entry {
            label: label@,
            shortcut: match shortcut {
                Some(s) => Some(s@),
                None => None,
            },
            action: action@,
            enabled,
        }),
{
    MenuItem::Entry { label: label.to_owned(), shortcut, action, enabled }
}

/// The context menu, with an entry for the address under the pointer where
/// there is one.
pub fn context_menu(url: Option<&str>, has_selection: bool) -> (items: Vec<MenuItem>)
    ensures
        menu_model(items@) == match url {
            Some(u) => common_menu(has_selection) + seq![MenuModel::Separator, url_entry(u@)],
            None => common_menu(has_selection),
        },
{
    let mut items: Vec<MenuItem> = Vec::new();
    items.push(entry("Copy", Some("Ctrl+C"), "win.copy", has_selection));
    items.push(entry("Paste", Some("Ctrl+V"), "win.paste", true));
    items.push(MenuItem::Separator);
    items.push(entry("Select All", None, "win.select-all", true));
    items.push(entry("Search", Some("Shift+Ctrl+F"), "win.search", true));
    assert(menu_model(items@) =~= common_menu(has_selection));
    if let Some(u) = url {
        let ghost before = items@;
        items.push(MenuItem::Separator);
        let label = join2("Open ", u);
        items.push(entry(label.as_str(), None, "win.open-url", true));
        assert(menu_model(items@) =~= menu_model(before) + seq![
            MenuModel::Separator,
            url_entry(u@),
        ]);
    }
    items
}

} // verus!

//! Which keys do what in a window.

use vstd::prelude::*;

use crate::ui::keys::{same_key, Key, KeyEvent, KeyModel, Modifiers, NamedKey};

verus! {

/// What a key does.
#[derive(Clone, Copy, Debug, PartialEq, Eq, Structural)]
pub enum Action {
    NewTab,
    CloseTab,
    NextTab,
    PrevTab,
    SplitHorizontal,
    SplitVertical,
    ClosePane,
    FocusNext,
    FocusUp,
    FocusDown,
    FocusLeft,
    FocusRight,
    Copy,
    Paste,
    ScrollUp,
    ScrollDown,
    ScrollPageUp,
    ScrollPageDown,
    ResetScroll,
    Nothing,
}

/// A key with modifiers.
#[derive(Debug, PartialEq, Eq)]
pub struct KeyCombo {
    pub key: Key,
    pub modifiers: Modifiers,
}

/// The same as a mathematical value.
pub ghost struct ComboModel {
    pub key: KeyModel,
    pub modifiers: Modifiers,
}

impl View for KeyCombo {
    type V = ComboModel;

    open spec fn view(&self) -> ComboModel {
        ComboModel { key: self.key@, modifiers: self.modifiers }
    }
}

/// The keys that do something.
#[derive(Debug, PartialEq, Eq)]
pub struct KeyBindings {
    bindings: Vec<(KeyCombo, Action)>,
}

impl View for KeyBindings {
    type V = Seq<(ComboModel, Action)>;

    closed spec fn view(&self) -> Seq<(ComboModel, Action)> {
        bindings_model(self.bindings@)
    }
}

/// Bindings as mathematical values.
pub open spec fn bindings_model(bindings: Seq<(KeyCombo, Action)>) -> Seq<(ComboModel, Action)> {
    Seq::new(bindings.len(), |i: int| (bindings[i].0@, bindings[i].1))
}

/// What a key with exactly these modifiers does: the first binding counts.
pub open spec fn action_for(
    bindings: Seq<(ComboModel, Action)>,
    key: KeyModel,
    modifiers: Modifiers,
) -> Action
    decreases bindings.len(),
{
    if bindings.len() == 0 {
        Action::Nothing
    } else if bindings[0].0.key == key && bindings[0].0.modifiers == modifiers {
        bindings[0].1
    } else {
        action_for(bindings.skip(1), key, modifiers)
    }
}

/// Control and shift.
pub open spec fn ctrl_shift() -> Modifiers {
    Modifiers { shift: true, control: true, alt: false, super_key: false }
}

/// A binding of a letter with control and shift.
pub open spec fn letter_binding(letter: Seq<char>, action: Action) -> (ComboModel, Action) {
    (ComboModel { key: KeyModel::Character(letter), modifiers: ctrl_shift() }, action)
}

/// A binding of a key with a name.
pub open spec fn named_binding(key: NamedKey, modifiers: Modifiers, action: Action) -> (
    ComboModel,
    Action,
) {
    (ComboModel { key: KeyModel::Named(key), modifiers }, action)
}

/// The bindings of a window that were not configured.
pub open spec fn default_model() -> Seq<(ComboModel, Action)> {
    let ctrl = Modifiers { shift: false, control: true, alt: false, super_key: false };
    let shift = Modifiers { shift: true, control: false, alt: false, super_key: false };
    seq![
        letter_binding("T"@, Action::NewTab),
        letter_binding("W"@, Action::CloseTab),
        named_binding(NamedKey::Tab, ctrl, Action::NextTab),
        named_binding(NamedKey::Tab, ctrl_shift(), Action::PrevTab),
        letter_binding("D"@, Action::SplitHorizontal),
        letter_binding("E"@, Action::SplitVertical),
        letter_binding("X"@, Action::ClosePane),
        named_binding(NamedKey::ArrowUp, ctrl_shift(), Action::FocusUp),
        named_binding(NamedKey::ArrowDown, ctrl_shift(), Action::FocusDown),
        named_binding(NamedKey::ArrowLeft, ctrl_shift(), Action::FocusLeft),
        named_binding(NamedKey::ArrowRight, ctrl_shift(), Action::FocusRight),
        letter_binding("C"@, Action::Copy),
        letter_binding("V"@, Action::Paste),
        named_binding(NamedKey::PageUp, shift, Action::ScrollPageUp),
        named_binding(NamedKey::PageDown, shift, Action::ScrollPageDown),
    ]
}

fn letter(c: &str, action: Action) -> (b: (KeyCombo, Action))
    ensures
        (b.0@, b.1) == letter_binding(c@, action),
{
    (
        KeyCombo {
            key: Key::Character(c.to_owned()),
            modifiers: Modifiers { shift: true, control: true, alt: false, super_key: false },
        },
        action,
    )
}

fn named(key: NamedKey, control: bool, shift: bool, action: Action) -> (b: (KeyCombo, Action))
    ensures
        (b.0@, b.1) == named_binding(
            key,
            Modifiers { shift, control, alt: false, super_key: false },
            action,
        ),
{
    (
        KeyCombo {
            key: Key::Named(key),
            modifiers: Modifiers { shift, control, alt: false, super_key: false },
        },
        action,
    )
}

impl KeyBindings {
    /// The bindings of a window that were not configured.
    pub fn default_bindings() -> (b: KeyBindings)
        ensures
            b@ == default_model(),
    {
        let mut bindings: Vec<(KeyCombo, Action)> = Vec::new();
        bindings.push(letter("T", Action::NewTab));
        bindings.push(letter("W", Action::CloseTab));
        bindings.push(named(NamedKey::Tab, true, false, Action::NextTab));
        bindings.push(named(NamedKey::Tab, true, true, Action::PrevTab));
        bindings.push(letter("D", Action::SplitHorizontal));
        bindings.push(letter("E", Action::SplitVertical));
        bindings.push(letter("X", Action::ClosePane));
        bindings.push(named(NamedKey::ArrowUp, true, true, Action::FocusUp));
        bindings.push(named(NamedKey::ArrowDown, true, true, Action::FocusDown));
        bindings.push(named(NamedKey::ArrowLeft, true, true, Action::FocusLeft));
        bindings.push(named(NamedKey::ArrowRight, true, true, Action::FocusRight));
        bindings.push(letter("C", Action::Copy));
        bindings.push(letter("V", Action::Paste));
        bindings.push(named(NamedKey::PageUp, false, true, Action::ScrollPageUp));
        bindings.push(named(NamedKey::PageDown, false, true, Action::ScrollPageDown));
        let b = KeyBindings { bindings };
        assert(b@ =~= default_model());
        b
    }

    /// What a key does. The modifiers have to be exactly those of the binding.
    pub fn match_key(&self, event: &KeyEvent, modifiers: Modifiers) -> (action: Action)
        ensures
            action == action_for(self@, event.logical_key@, modifiers),
    {
        let ghost all = self@;
        let mut i: usize = 0;
        assert(all.skip(0) =~= all);
        while i < self.bindings.len()
            invariant
                i <= self.bindings@.len(),
                all == bindings_model(self.bindings@),
                action_for(all, event.logical_key@, modifiers) == action_for(
                    all.skip(i as int),
                    event.logical_key@,
                    modifiers,
                ),
            decreases self.bindings@.len() - i,
        {
            let combo = &self.bindings[i].0;
            assert(all[i as int] == (combo@, self.bindings@[i as int].1));
            if combo.modifiers == modifiers && same_key(&combo.key, &event.logical_key) {
                return self.bindings[i].1;
            }
            assert(all.skip(i as int).skip(1) =~= all.skip(i + 1));
            i = i + 1;
        }
        Action::Nothing
    }
}

} // verus!

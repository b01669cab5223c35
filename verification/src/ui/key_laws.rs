//! What keys and buttons stand for.

use vstd::prelude::*;

use crate::ui::ghostty_input::{
    button_number, first_down, key_by_meaning, unshifted, unshifted_number, wheel_rows, GhosttyKey,
    MouseButton,
};
use crate::ui::input::{control_code, key_bytes, named_key_bytes};
use crate::ui::keybindings::{action_for, default_model, Action, ComboModel};
use crate::ui::keys::{text_bytes, KeyEvent, KeyModel, Modifiers, NamedKey};

verus! {

/// The control code of a character is made of its low five bits, and exactly the
/// letters and the characters around the capitals have one.
pub proof fn law_control_code_is_the_low_bits(c: char)
    ensures
        control_code(c) is Some <==> ('@' <= c <= '_') || ('a' <= c <= 'z'),
        control_code(c) matches Some(code) ==> code == (c as int) % 32,
{
}

/// The number in the sequence of a key that ends in a tilde.
pub open spec fn tilde_number(key: NamedKey) -> int {
    match key {
        NamedKey::Insert => 2,
        NamedKey::Delete => 3,
        NamedKey::PageUp => 5,
        NamedKey::PageDown => 6,
        NamedKey::F5 => 15,
        NamedKey::F6 => 17,
        NamedKey::F7 => 18,
        NamedKey::F8 => 19,
        NamedKey::F9 => 20,
        NamedKey::F10 => 21,
        NamedKey::F11 => 23,
        NamedKey::F12 => 24,
        _ => 0,
    }
}

/// The last byte in the sequence of a key that ends in a letter.
pub open spec fn end_letter(key: NamedKey) -> char {
    match key {
        NamedKey::ArrowUp => 'A',
        NamedKey::ArrowDown => 'B',
        NamedKey::ArrowRight => 'C',
        NamedKey::ArrowLeft => 'D',
        NamedKey::Home => 'H',
        NamedKey::End => 'F',
        NamedKey::F1 => 'P',
        NamedKey::F2 => 'Q',
        NamedKey::F3 => 'R',
        NamedKey::F4 => 'S',
        _ => ' ',
    }
}

/// The number that bytes write in digits.
pub open spec fn digits_value(bytes: Seq<u8>) -> int
    decreases bytes.len(),
{
    if bytes.len() == 0 {
        0
    } else {
        digits_value(bytes.drop_last()) * 10 + (bytes.last() - 48)
    }
}

/// A key with a number sends that number between the beginning of a sequence and a
/// tilde; one with a letter sends that behind the beginning; the four first function
/// keys begin otherwise.
pub proof fn law_sequences_of_named_keys(key: NamedKey)
    ensures
        tilde_number(key) > 0 ==> named_key_bytes(key) is Some && ({
            let b = named_key_bytes(key)->0;
            &&& b.len() >= 4
            &&& b[0] == 0x1b && b[1] == 0x5b && b.last() == 0x7e
            &&& digits_value(b.subrange(2, b.len() - 1)) == tilde_number(key)
        }),
        end_letter(key) != ' ' ==> named_key_bytes(key) is Some && ({
            let b = named_key_bytes(key)->0;
            &&& b.len() == 3
            &&& b[0] == 0x1b && b[2] as int == end_letter(key) as int
            &&& key is F1 || key is F2 || key is F3 || key is F4 ==> b[1] as int == 'O' as int
            &&& !(key is F1 || key is F2 || key is F3 || key is F4) ==> b[1] as int == '[' as int
        }),
        named_key_bytes(key) is Some && tilde_number(key) == 0 && end_letter(key) == ' '
            ==> named_key_bytes(key)->0.len() == 1 && (key is Space || key is Enter
            || key is Backspace || key is Tab || key is Escape),
        key is Space ==> named_key_bytes(key) == Some(seq![32u8]),
        key is Enter ==> named_key_bytes(key) == Some(seq![13u8]),
        key is Tab ==> named_key_bytes(key) == Some(seq![9u8]),
        key is Escape ==> named_key_bytes(key) == Some(seq![27u8]),
        key is Backspace ==> named_key_bytes(key) == Some(seq![127u8]),
{
    if tilde_number(key) > 0 {
        let b = named_key_bytes(key)->0;
        let d = b.subrange(2, b.len() - 1);
        reveal_with_fuel(digits_value, 3);
        if tilde_number(key) < 10 {
            assert(d =~= seq![b[2]]);
            assert(d.drop_last() =~= Seq::empty());
        } else {
            assert(d =~= seq![b[2], b[3]]);
            assert(d.drop_last() =~= seq![b[2]]);
            assert(seq![b[2]].drop_last() =~= Seq::empty());
        }
    }
}

/// What a key sends: nothing as it goes up; with control the code of its character,
/// where that has one; a named key its sequence; any other its text, unless control is
/// held.
pub proof fn law_what_a_key_sends(event: KeyEvent, modifiers: Modifiers)
    ensures
        !event.pressed ==> key_bytes(event, modifiers) is None,
        event.pressed && modifiers.control && event.logical_key@ is Character
            && event.logical_key@->Character_0.len() == 1 ==> (match control_code(
            event.logical_key@->Character_0[0],
        ) {
            Some(code) => key_bytes(event, modifiers) == Some(seq![code]),
            None => key_bytes(event, modifiers) is None,
        }),
        event.pressed && !modifiers.control && event.logical_key@ is Named ==> key_bytes(
            event,
            modifiers,
        ) == named_key_bytes(event.logical_key@->Named_0),
        event.pressed && modifiers.control && event.logical_key@ is Named ==> (if event.logical_key@->Named_0 is Space {
            key_bytes(event, modifiers) == Some(seq![0u8])
        } else {
            key_bytes(event, modifiers) == named_key_bytes(event.logical_key@->Named_0)
        }),
        event.pressed && !modifiers.control && !(event.logical_key@ is Named) ==> key_bytes(
            event,
            modifiers,
        ) == text_bytes(event),
        event.text is Some && event.text->0@.len() > 0 ==> text_bytes(event) == Some(
            vstd::utf8::encode_utf8(event.text->0@),
        ),
        event.text is None ==> text_bytes(event) is None,
{
}

/// Every printable character but the space has one that its key gives without
/// modifiers, and that one is its own; of a letter it is the small one.
pub proof fn law_character_without_modifiers(c: char)
    ensures
        unshifted(c) is Some <==> '!' <= c <= '~',
        unshifted(c) is Some ==> unshifted(unshifted(c)->0) == unshifted(c),
        'a' <= c <= 'z' || '0' <= c <= '9' ==> unshifted(c) == Some(c),
        'A' <= c <= 'Z' ==> unshifted(c) is Some && 'a' <= unshifted(c)->0 <= 'z' && (
        unshifted(c)->0 as int) % 32 == (c as int) % 32,
        unshifted(c) is Some && !('A' <= c <= 'Z') && !('a' <= c <= 'z') ==> !('a' <= unshifted(c)->0
            <= 'z'),
        unshifted(c) is Some && '0' <= unshifted(c)->0 <= '9' && c != unshifted(c)->0 ==> seq![
            ')', '!', '@', '#', '$', '%', '^', '&', '*', '(',
        ][unshifted(c)->0 as int - '0' as int] == c,
{
}

/// A key is told by its name, or by the character that it gives without modifiers; one
/// that has neither is not told, and has no number.
pub proof fn law_key_is_told_by_name_or_character(key: KeyModel)
    ensures
        key matches KeyModel::Named(n) ==> (key_by_meaning(key) == if n is Unknown {
            GhosttyKey::Unidentified
        } else {
            GhosttyKey::Named(n)
        }),
        key matches KeyModel::Character(s) && s.len() != 1 ==> key_by_meaning(key)
            is Unidentified && unshifted_number(key) == 0,
        key matches KeyModel::Character(s) && s.len() == 1 && !('!' <= s[0] <= '~')
            ==> key_by_meaning(key) is Unidentified && unshifted_number(key) == 0,
        key is Character && key->Character_0.len() == 1 && '!' <= key->Character_0[0] <= '~' ==> (
        key_by_meaning(key) matches GhosttyKey::Printable(c) && unshifted(key->Character_0[0])
            == Some(c) && unshifted_number(key) == c as u32),
        key is Unidentified ==> key_by_meaning(key) is Unidentified && unshifted_number(key) == 0,
        key matches KeyModel::Named(n) ==> unshifted_number(key) == if n is Space {
            ' ' as u32
        } else {
            0
        },
{
    if let KeyModel::Character(s) = key {
        if s.len() == 1 {
            law_character_without_modifiers(s[0]);
        }
    }
}

/// No two buttons have the same number.
pub proof fn law_buttons_have_their_own_number(a: MouseButton, b: MouseButton)
    ensures
        button_number(a) is Some && button_number(a) == button_number(b) ==> a == b,
        button_number(a) matches Some(n) ==> 1 <= n <= 8,
        a is Other && button_number(a) is Some ==> button_number(a)->0 == a->Other_0 + 1,
        button_number(MouseButton::Left) == Some(1u8),
        button_number(MouseButton::Right) == Some(2u8),
        button_number(MouseButton::Middle) == Some(3u8),
{
}

/// The button that counts as held is the one with the smallest number of those held.
pub proof fn law_smallest_button_counts(held: Seq<bool>, from: int)
    requires
        0 <= from <= held.len() <= 256,
    ensures
        first_down(held, from) is None <==> forall|i: int|
            from <= i < held.len() ==> !(#[trigger] held[i]),
        first_down(held, from) matches Some(n) ==> from <= n < held.len() && held[n as int]
            && forall|i: int| from <= i < n ==> !(#[trigger] held[i]),
    decreases held.len() - from,
{
    if from < held.len() && !held[from] {
        law_smallest_button_counts(held, from + 1);
    }
}

/// Turning the wheel moves the view by three rows, up or down.
pub proof fn law_wheel_moves_three_rows(up: bool)
    ensures
        wheel_rows(up) == -wheel_rows(!up),
        wheel_rows(up) == 3 || wheel_rows(up) == -3,
        wheel_rows(up) < 0 <==> up,
{
}

/// Whether a binding is of a key with modifiers.
pub open spec fn binds(b: (ComboModel, Action), key: KeyModel, modifiers: Modifiers) -> bool {
    b.0.key == key && b.0.modifiers == modifiers
}

/// The action of a key is that of the first binding of the key with exactly these
/// modifiers, and none where nothing binds it.
pub proof fn law_first_binding_acts(
    bindings: Seq<(ComboModel, Action)>,
    key: KeyModel,
    modifiers: Modifiers,
)
    ensures
        (forall|i: int|
            0 <= i < bindings.len() ==> !binds(#[trigger] bindings[i], key, modifiers))
            ==> action_for(bindings, key, modifiers) is Nothing,
        forall|i: int|
            0 <= i < bindings.len() && binds(#[trigger] bindings[i], key, modifiers) && (forall|
                j: int,
            |
                0 <= j < i ==> !binds(#[trigger] bindings[j], key, modifiers)) ==> action_for(
                bindings,
                key,
                modifiers,
            ) == bindings[i].1,
    decreases bindings.len(),
{
    if bindings.len() > 0 {
        let rest = bindings.skip(1);
        law_first_binding_acts(rest, key, modifiers);
        assert forall|i: int| 0 <= i < rest.len() implies #[trigger] rest[i] == bindings[i + 1] by {}
        if !binds(bindings[0], key, modifiers) {
            if forall|i: int|
                0 <= i < bindings.len() ==> !binds(#[trigger] bindings[i], key, modifiers) {
                assert forall|i: int| 0 <= i < rest.len() implies !binds(
                    #[trigger] rest[i],
                    key,
                    modifiers,
                ) by {
                    assert(!binds(bindings[i + 1], key, modifiers));
                }
            }
            assert forall|i: int|
                0 <= i < bindings.len() && binds(#[trigger] bindings[i], key, modifiers) && (forall|
                    j: int,
                |
                    0 <= j < i ==> !binds(
                        #[trigger] bindings[j],
                        key,
                        modifiers,
                    )) implies action_for(bindings, key, modifiers) == bindings[i].1 by {
                assert(rest[i - 1] == bindings[i]);
                assert forall|j: int| 0 <= j < i - 1 implies !binds(
                    #[trigger] rest[j],
                    key,
                    modifiers,
                ) by {
                    assert(!binds(bindings[j + 1], key, modifiers));
                }
            }
        } else {
            assert forall|i: int|
                0 <= i < bindings.len() && binds(#[trigger] bindings[i], key, modifiers) && (forall|
                    j: int,
                |
                    0 <= j < i ==> !binds(
                        #[trigger] bindings[j],
                        key,
                        modifiers,
                    )) implies action_for(bindings, key, modifiers) == bindings[i].1 by {
                if i > 0 {
                    assert(!binds(bindings[0], key, modifiers));
                }
            }
        }
    }
}

/// Every binding that a window begins with acts: no key with the same modifiers is bound
/// twice. All of them hold control or shift, and none the other two.
pub proof fn law_first_bindings_differ(i: int, j: int)
    requires
        0 <= i < j < default_model().len(),
    ensures
        default_model()[i].0 != default_model()[j].0,
        default_model()[i].1 != default_model()[j].1,
        default_model()[i].0.modifiers.control || default_model()[i].0.modifiers.shift,
        !default_model()[i].0.modifiers.alt && !default_model()[i].0.modifiers.super_key,
        default_model()[i].0.key is Character ==> default_model()[i].0.modifiers.control
            && default_model()[i].0.modifiers.shift,
{
    reveal_strlit("T");
    reveal_strlit("W");
    reveal_strlit("D");
    reveal_strlit("E");
    reveal_strlit("X");
    reveal_strlit("C");
    reveal_strlit("V");
    assert("T"@[0] == 'T' && "W"@[0] == 'W' && "D"@[0] == 'D' && "E"@[0] == 'E' && "X"@[0] == 'X'
        && "C"@[0] == 'C' && "V"@[0] == 'V');
}

} // verus!

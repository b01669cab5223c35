//! What holds of texts: numbers, pieces, paths and spaces.

use vstd::prelude::*;

use crate::seqs::keep_last;
use crate::text::{
    base_name, concatenated, decimal, digit_char, is_white_space, joined, last_name,
    law_pieces_joined, path_in, pieces, zero_filled, zeros,
};

verus! {

// ---------------------------------------------------------------------------
// Numbers
// ---------------------------------------------------------------------------
/// The number that a row of digits stands for.
pub open spec fn number_of(digits: Seq<char>) -> int
    decreases digits.len(),
{
    if digits.len() == 0 {
        0
    } else {
        number_of(digits.drop_last()) * 10 + (digits.last() as int - 48)
    }
}

/// A number is written in digits that stand for it, without a zero before it.
pub proof fn law_decimal_stands_for_the_number(n: nat)
    ensures
        number_of(decimal(n)) == n,
        decimal(n).len() > 0,
        forall|i: int| 0 <= i < decimal(n).len() ==> '0' <= #[trigger] decimal(n)[i] <= '9',
        n > 0 ==> decimal(n)[0] != '0',
    decreases n,
{
    lemma_digit(n % 10);
    if n >= 10 {
        law_decimal_stands_for_the_number(n / 10);
        let before = decimal(n / 10);
        let all = decimal(n);
        assert(all == before.push(digit_char(n % 10)));
        assert(all.drop_last() =~= before);
        assert(all[0] == before[0]);
        assert forall|i: int| 0 <= i < all.len() implies '0' <= #[trigger] all[i] <= '9' by {
            if i < before.len() {
                assert(all[i] == before[i]);
            }
        }
    } else {
        assert(decimal(n).drop_last() =~= Seq::empty());
        reveal_with_fuel(number_of, 2);
    }
}

proof fn lemma_digit(d: nat)
    requires
        d < 10,
    ensures
        digit_char(d) as int == 48 + d,
        '0' <= digit_char(d) <= '9',
        d > 0 ==> digit_char(d) != '0',
{
}

/// A number filled with zeros stands for the same number, in as many characters as
/// asked for, or as many more as it needs.
pub proof fn law_zero_filled_stands_for_the_number(n: nat, width: nat)
    ensures
        number_of(zero_filled(n, width)) == n,
        zero_filled(n, width).len() >= width,
        zero_filled(n, width).len() == width || zero_filled(n, width) == decimal(n),
{
    law_decimal_stands_for_the_number(n);
    if decimal(n).len() < width {
        lemma_leading_zeros((width - decimal(n).len()) as nat, decimal(n));
    }
}

proof fn lemma_leading_zeros(k: nat, digits: Seq<char>)
    ensures
        number_of(zeros(k) + digits) == number_of(digits),
    decreases digits.len(), k,
{
    let all = zeros(k) + digits;
    if digits.len() > 0 {
        assert(all.drop_last() =~= zeros(k) + digits.drop_last());
        assert(all.last() == digits.last());
        lemma_leading_zeros(k, digits.drop_last());
    } else if k > 0 {
        assert(all.drop_last() =~= zeros((k - 1) as nat) + digits);
        assert(all.last() == '0');
        lemma_leading_zeros((k - 1) as nat, digits);
    } else {
        assert(all =~= digits);
    }
}

// ---------------------------------------------------------------------------
// Pieces
// ---------------------------------------------------------------------------
/// Whether a character stands nowhere in a text.
pub open spec fn lacks(s: Seq<char>, c: char) -> bool {
    forall|i: int| 0 <= i < s.len() ==> #[trigger] s[i] != c
}

/// The pieces of a text hold no separator, and joined they are the text.
pub proof fn law_pieces_hold_no_separator(s: Seq<char>, sep: char)
    ensures
        pieces(s, sep).len() > 0,
        forall|k: int| 0 <= k < pieces(s, sep).len() ==> lacks(#[trigger] pieces(s, sep)[k], sep),
        joined(pieces(s, sep), sep) == s,
    decreases s.len(),
{
    law_pieces_joined(s, sep);
    if s.len() > 0 {
        law_pieces_hold_no_separator(s.drop_last(), sep);
        let before = pieces(s.drop_last(), sep);
        let all = pieces(s, sep);
        assert forall|k: int| 0 <= k < all.len() implies lacks(#[trigger] all[k], sep) by {
            if k < before.len() - 1 {
                assert(all[k] == before[k]);
            } else if s.last() == sep && k == before.len() - 1 {
                assert(all[k] == before[k]);
            } else if s.last() != sep {
                assert(lacks(before[before.len() - 1], sep));
            }
        }
    }
}

/// Pieces without a separator in them, joined and taken apart again, are the same
/// pieces.
pub proof fn law_joined_pieces_come_apart(parts: Seq<Seq<char>>, sep: char)
    requires
        parts.len() > 0,
        forall|k: int| 0 <= k < parts.len() ==> lacks(#[trigger] parts[k], sep),
    ensures
        pieces(joined(parts, sep), sep) == parts,
    decreases parts.len(),
{
    if parts.len() == 1 {
        assert(lacks(parts[0], sep));
        lemma_one_piece(parts[0], sep);
        assert(parts =~= seq![parts[0]]);
    } else {
        let rest = parts.drop_last();
        assert forall|k: int| 0 <= k < rest.len() implies lacks(#[trigger] rest[k], sep) by {
            assert(rest[k] == parts[k]);
        }
        law_joined_pieces_come_apart(rest, sep);
        assert(lacks(parts[parts.len() - 1], sep));
        let before = joined(rest, sep);
        lemma_pieces_behind(before, parts.last(), sep);
        assert(joined(parts, sep) == before.push(sep) + parts.last());
        assert(parts =~= rest.push(parts.last()));
    }
}

proof fn lemma_one_piece(s: Seq<char>, sep: char)
    requires
        lacks(s, sep),
    ensures
        pieces(s, sep) == seq![s],
    decreases s.len(),
{
    if s.len() == 0 {
        assert(s =~= Seq::empty());
    } else {
        let rest = s.drop_last();
        assert forall|i: int| 0 <= i < rest.len() implies #[trigger] rest[i] != sep by {
            assert(rest[i] == s[i]);
        }
        lemma_one_piece(rest, sep);
        assert(s[s.len() - 1] != sep);
        assert(pieces(s, sep) =~= seq![s]) by {
            assert(seq![rest].drop_last() =~= Seq::<Seq<char>>::empty());
            assert(rest.push(s.last()) =~= s);
        }
    }
}

/// The pieces of a text, a separator and a last piece.
proof fn lemma_pieces_behind(before: Seq<char>, tail: Seq<char>, sep: char)
    requires
        lacks(tail, sep),
    ensures
        pieces(before.push(sep) + tail, sep) == pieces(before, sep).push(tail),
    decreases tail.len(),
{
    let s = before.push(sep) + tail;
    if tail.len() == 0 {
        assert(s.drop_last() =~= before);
        assert(s.last() == sep);
        assert(tail =~= Seq::empty());
    } else {
        let rest = tail.drop_last();
        assert forall|i: int| 0 <= i < rest.len() implies #[trigger] rest[i] != sep by {
            assert(rest[i] == tail[i]);
        }
        assert(tail[tail.len() - 1] != sep);
        lemma_pieces_behind(before, rest, sep);
        assert(s.drop_last() =~= before.push(sep) + rest);
        assert(s.last() == tail.last());
        let all = pieces(before, sep).push(rest);
        assert(all.drop_last() =~= pieces(before, sep));
        assert(rest.push(tail.last()) =~= tail);
    }
}

/// Texts put together are the first ones put together, then the others; one alone is
/// itself.
pub proof fn law_texts_put_together(a: Seq<Seq<char>>, b: Seq<Seq<char>>, one: Seq<char>)
    ensures
        concatenated(Seq::empty()).len() == 0,
        concatenated(a + b) == concatenated(a) + concatenated(b),
        concatenated(seq![one]) == one,
    decreases b.len(),
{
    reveal_with_fuel(concatenated, 2);
    assert(seq![one].drop_last() =~= Seq::empty());
    assert(concatenated(seq![one]) =~= one);
    if b.len() == 0 {
        assert(a + b =~= a);
        assert(concatenated(a) + concatenated(b) =~= concatenated(a));
    } else {
        assert((a + b).drop_last() =~= a + b.drop_last());
        law_texts_put_together(a, b.drop_last(), one);
        assert(concatenated(a) + concatenated(b) =~= concatenated(a) + concatenated(b.drop_last())
            + b.last());
    }
}

// ---------------------------------------------------------------------------
// Paths
// ---------------------------------------------------------------------------
/// Whether a text can be the name of a file: not empty, without a slash, and not one
/// of the names of directories themselves.
pub open spec fn is_plain_name(name: Seq<char>) -> bool {
    name.len() > 0 && lacks(name, '/') && name != seq!['.'] && name != seq!['.', '.']
}

/// The name at the end of a path is its last piece: that which stands behind the last
/// slash, slashes and dots at the end aside. The root and what ends in two dots have
/// none.
pub proof fn law_name_at_the_end_of_a_path(dir: Seq<char>, name: Seq<char>)
    requires
        is_plain_name(name),
    ensures
        base_name(name) == Some(name),
        base_name(dir.push('/') + name) == Some(name),
        base_name(dir.push('/')) == base_name(dir),
        base_name(dir.push('/').push('.')) == base_name(dir),
        base_name(dir.push('/').push('.').push('.')) is None,
        base_name(Seq::empty()) is None,
        base_name(seq!['/']) is None,
{
    lemma_one_piece(name, '/');
    lemma_pieces_behind(dir, name, '/');
    let before = pieces(dir, '/');
    assert(seq![name].last() == name);
    assert(before.push(name).last() == name);
    let none = Seq::<char>::empty();
    let dot = seq!['.'];
    let dots = seq!['.', '.'];
    assert(dot[0] == '.' && dots[0] == '.' && dots[1] == '.');
    lemma_pieces_behind(dir, none, '/');
    lemma_pieces_behind(dir, dot, '/');
    lemma_pieces_behind(dir, dots, '/');
    assert(dir.push('/') + none =~= dir.push('/'));
    assert(dir.push('/') + dot =~= dir.push('/').push('.'));
    assert(dir.push('/') + dots =~= dir.push('/').push('.').push('.'));
    assert(before.push(none).drop_last() =~= before);
    assert(before.push(dot).drop_last() =~= before);
    assert(before.push(none).last() == none);
    assert(before.push(dot).last() == dot);
    assert(before.push(dots).last() == dots);
    assert(dots.len() == 2 && dot.len() == 1);
    reveal_with_fuel(last_name, 3);
    assert(seq![none].drop_last() =~= Seq::<Seq<char>>::empty());
    assert(pieces(none, '/') =~= seq![none]);
    lemma_pieces_behind(none, none, '/');
    assert(none.push('/') + none =~= seq!['/']);
    assert(seq![none].push(none).drop_last() =~= seq![none]);
    assert(seq![none].push(none).last() == none);
}

/// A file in a directory has its own name there, and its path begins with that of the
/// directory; no slash comes twice between them, and none where there is no directory.
pub proof fn law_path_of_a_file(dir: Seq<char>, name: Seq<char>)
    requires
        is_plain_name(name),
    ensures
        base_name(path_in(dir, name)) == Some(name),
        path_in(dir, name).len() >= dir.len() + name.len(),
        path_in(dir, name).take(dir.len() as int) == dir,
        path_in(dir, name).skip(path_in(dir, name).len() - name.len()) == name,
        dir.len() == 0 ==> path_in(dir, name) == name,
        dir.len() > 0 && dir.last() == '/' ==> path_in(dir, name).len() == dir.len() + name.len(),
        dir.len() > 0 && dir.last() != '/' ==> path_in(dir, name).len() == dir.len() + 1 + name.len()
            && path_in(dir, name)[dir.len() as int] == '/',
{
    reveal_strlit("/");
    let path = path_in(dir, name);
    law_name_at_the_end_of_a_path(dir, name);
    if dir.len() == 0 {
        assert(path.take(0) =~= dir);
        assert(path.skip(0) =~= name);
    } else if dir.last() == '/' {
        law_name_at_the_end_of_a_path(dir.drop_last(), name);
        assert(dir.drop_last().push('/') =~= dir);
        assert(path.take(dir.len() as int) =~= dir);
        assert(path.skip(dir.len() as int) =~= name);
    } else {
        assert(path =~= dir.push('/') + name);
        assert(path.take(dir.len() as int) =~= dir);
        assert(path.skip(dir.len() as int + 1) =~= name);
    }
}

// ---------------------------------------------------------------------------
// Spaces and ends
// ---------------------------------------------------------------------------
/// The characters that are white space.
pub proof fn law_white_space_characters(c: char)
    ensures
        is_white_space(c) <==> seq![
            0x09u32, 0x0a, 0x0b, 0x0c, 0x0d, 0x20, 0x85, 0xa0, 0x1680, 0x2000, 0x2001, 0x2002,
            0x2003, 0x2004, 0x2005, 0x2006, 0x2007, 0x2008, 0x2009, 0x200a, 0x2028, 0x2029, 0x202f,
            0x205f, 0x3000,
        ].contains(c as u32),
{
    let all = seq![
        0x09u32, 0x0a, 0x0b, 0x0c, 0x0d, 0x20, 0x85, 0xa0, 0x1680, 0x2000, 0x2001, 0x2002, 0x2003,
        0x2004, 0x2005, 0x2006, 0x2007, 0x2008, 0x2009, 0x200a, 0x2028, 0x2029, 0x202f, 0x205f,
        0x3000,
    ];
    let u = c as u32;
    assert(all[0] == 0x09 && all[1] == 0x0a && all[2] == 0x0b && all[3] == 0x0c && all[4] == 0x0d);
    assert(all[5] == 0x20 && all[6] == 0x85 && all[7] == 0xa0 && all[8] == 0x1680);
    assert(all[9] == 0x2000 && all[10] == 0x2001 && all[11] == 0x2002 && all[12] == 0x2003);
    assert(all[13] == 0x2004 && all[14] == 0x2005 && all[15] == 0x2006 && all[16] == 0x2007);
    assert(all[17] == 0x2008 && all[18] == 0x2009 && all[19] == 0x200a && all[20] == 0x2028);
    assert(all[21] == 0x2029 && all[22] == 0x202f && all[23] == 0x205f && all[24] == 0x3000);
}

/// The end of a sequence that is kept is as long as asked for, or all there is.
pub proof fn law_end_that_is_kept<A>(s: Seq<A>, n: nat)
    ensures
        keep_last(s, n).len() == if n <= s.len() {
            n
        } else {
            s.len()
        },
        forall|i: int|
            0 <= i < keep_last(s, n).len() ==> #[trigger] keep_last(s, n)[i] == s[s.len() - keep_last(
                s,
                n,
            ).len() + i],
{
}

} // verus!

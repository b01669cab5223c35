//! Cleaning of terminal text on its way to the clipboard.

use vstd::prelude::*;

use crate::text::{
    chars_of, is_white_space, join_pieces, joined, lemma_pieces_nonempty, parts_model, pieces,
    split_pieces, trim_end, trimmed_end,
};

verus! {

/// Box-drawing characters, U+2500 to U+257F.
pub open spec fn is_box_drawing(c: char) -> bool {
    0x2500 <= c as u32 <= 0x257f
}

/// A text without its box-drawing characters.
pub open spec fn without_box_drawing(s: Seq<char>) -> Seq<char>
    decreases s.len(),
{
    if s.len() == 0 {
        s
    } else if is_box_drawing(s.last()) {
        without_box_drawing(s.drop_last())
    } else {
        without_box_drawing(s.drop_last()).push(s.last())
    }
}

/// The lines of a text. A line end at the very end of the text starts no
/// further line.
pub open spec fn lines(s: Seq<char>) -> Seq<Seq<char>> {
    let parts = pieces(s, '\n');
    if parts.last().len() == 0 {
        parts.drop_last()
    } else {
        parts
    }
}

/// Each of some lines without the white space at its end.
pub open spec fn lines_trimmed(parts: Seq<Seq<char>>) -> Seq<Seq<char>> {
    Seq::new(parts.len(), |i: int| trimmed_end(parts[i]))
}

/// A text with the white space at the end of each line removed.
pub open spec fn without_trailing_space(s: Seq<char>) -> Seq<char> {
    joined(lines_trimmed(lines(s)), '\n')
}

/// A text in which carriage returns, with a line feed behind them or alone,
/// have become line feeds.
pub open spec fn line_feeds_only(s: Seq<char>) -> Seq<char>
    decreases s.len(),
{
    if s.len() == 0 {
        s
    } else if s.last() == '\n' && s.len() >= 2 && s[s.len() - 2] == '\r' {
        line_feeds_only(s.drop_last())
    } else if s.last() == '\r' {
        line_feeds_only(s.drop_last()).push('\n')
    } else {
        line_feeds_only(s.drop_last()).push(s.last())
    }
}

/// Removes box-drawing characters.
pub fn strip_box_drawing(text: &str) -> (out: String)
    ensures
        out@ == without_box_drawing(text@),
{
    let chars = chars_of(text);
    let mut out = String::new();
    let mut i: usize = 0;
    while i < chars.len()
        invariant
            i <= chars@.len(),
            out@ == without_box_drawing(chars@.take(i as int)),
        decreases chars@.len() - i,
    {
        let c = chars[i];
        let u: u32 = c as u32;
        if !(0x2500 <= u && u <= 0x257f) {
            out.push(c);
        }
        i = i + 1;
        assert(chars@.take(i as int).drop_last() =~= chars@.take(i as int - 1));
    }
    assert(chars@.take(chars@.len() as int) =~= chars@);
    out
}

/// Removes the white space at the end of every line.
pub fn strip_trailing_whitespace(text: &str) -> (out: String)
    ensures
        out@ == without_trailing_space(text@),
{
    let chars = chars_of(text);
    let mut parts = split_pieces(chars.as_slice(), '\n');
    proof {
        lemma_pieces_nonempty(text@, '\n');
    }
    let ghost cut = parts_model(parts@);
    assert(cut.last() == parts@[parts@.len() - 1]@);
    if parts[parts.len() - 1].len() == 0 {
        let _ = parts.pop();
        assert(parts_model(parts@) =~= cut.drop_last());
    }
    let ghost all = parts_model(parts@);
    assert(all == lines(text@));
    let mut trimmed: Vec<Vec<char>> = Vec::new();
    let mut i: usize = 0;
    while i < parts.len()
        invariant
            i <= parts@.len(),
            all == parts_model(parts@),
            trimmed@.len() == i,
            forall|j: int| 0 <= j < i ==> (#[trigger] trimmed@[j])@ == trimmed_end(all[j]),
        decreases parts@.len() - i,
    {
        let mut line: Vec<char> = parts[i].clone();
        assert(line@ =~= all[i as int]);
        trim_end(&mut line);
        trimmed.push(line);
        i = i + 1;
    }
    assert(parts_model(trimmed@) =~= lines_trimmed(all));
    join_pieces(&trimmed, '\n')
}

/// Turns all line ends into line feeds.
pub fn normalize_line_endings(text: &str) -> (out: String)
    ensures
        out@ == line_feeds_only(text@),
{
    let chars = chars_of(text);
    let mut out = String::new();
    let mut i: usize = 0;
    while i < chars.len()
        invariant
            i <= chars@.len(),
            out@ == line_feeds_only(chars@.take(i as int)),
        decreases chars@.len() - i,
    {
        let c = chars[i];
        if c == '\n' && i > 0 && chars[i - 1] == '\r' {
        } else if c == '\r' {
            out.push('\n');
        } else {
            out.push(c);
        }
        i = i + 1;
        assert(chars@.take(i as int).drop_last() =~= chars@.take(i as int - 1));
    }
    assert(chars@.take(chars@.len() as int) =~= chars@);
    out
}

/// What a smart copy puts on the clipboard.
pub open spec fn smart_text(s: Seq<char>) -> Seq<char> {
    line_feeds_only(without_trailing_space(without_box_drawing(s)))
}

/// Cleans a text for a smart copy: no box-drawing characters, no white space
/// at the end of lines, line feeds as the only line ends.
pub fn smart_copy_text(text: &str) -> (out: String)
    ensures
        out@ == smart_text(text@),
{
    let plain = strip_box_drawing(text);
    let trimmed = strip_trailing_whitespace(plain.as_str());
    normalize_line_endings(trimmed.as_str())
}

/// After stripping there is no box-drawing character left, and a text without
/// any is left as it is.
pub proof fn law_no_box_drawing_left(s: Seq<char>)
    ensures
        forall|i: int|
            0 <= i < without_box_drawing(s).len() ==> !is_box_drawing(
                #[trigger] without_box_drawing(s)[i],
            ),
        (forall|i: int| 0 <= i < s.len() ==> !is_box_drawing(#[trigger] s[i]))
            ==> without_box_drawing(s) == s,
    decreases s.len(),
{
    if s.len() > 0 {
        law_no_box_drawing_left(s.drop_last());
        let before = without_box_drawing(s.drop_last());
        assert forall|i: int| 0 <= i < without_box_drawing(s).len() implies !is_box_drawing(
            #[trigger] without_box_drawing(s)[i],
        ) by {
            if i < before.len() {
                assert(without_box_drawing(s)[i] == before[i]);
            }
        }
        if forall|i: int| 0 <= i < s.len() ==> !is_box_drawing(#[trigger] s[i]) {
            assert forall|i: int| 0 <= i < s.drop_last().len() implies !is_box_drawing(
                #[trigger] s.drop_last()[i],
            ) by {
                assert(!is_box_drawing(s[i]));
            }
            assert(s.drop_last().push(s.last()) =~= s);
        }
    }
}

/// After normalising there is no carriage return left, and a text without any
/// is left as it is.
pub proof fn law_only_line_feeds_left(s: Seq<char>)
    ensures
        forall|i: int|
            0 <= i < line_feeds_only(s).len() ==> #[trigger] line_feeds_only(s)[i] != '\r',
        (forall|i: int| 0 <= i < s.len() ==> #[trigger] s[i] != '\r') ==> line_feeds_only(s) == s,
    decreases s.len(),
{
    if s.len() > 0 {
        law_only_line_feeds_left(s.drop_last());
        let before = line_feeds_only(s.drop_last());
        assert forall|i: int| 0 <= i < line_feeds_only(s).len() implies #[trigger] line_feeds_only(
            s,
        )[i] != '\r' by {
            if i < before.len() {
                assert(line_feeds_only(s)[i] == before[i]);
            }
        }
        if forall|i: int| 0 <= i < s.len() ==> #[trigger] s[i] != '\r' {
            assert forall|i: int| 0 <= i < s.drop_last().len() implies #[trigger] s.drop_last()[i]
                != '\r' by {
                assert(s[i] != '\r');
            }
            assert(s.drop_last().push(s.last()) =~= s);
        }
    }
}

/// Trimming leaves no white space at the end and keeps everything before it.
pub proof fn law_trimmed_end(s: Seq<char>)
    ensures
        trimmed_end(s).len() <= s.len(),
        trimmed_end(s) == s.take(trimmed_end(s).len() as int),
        trimmed_end(s).len() > 0 ==> !is_white_space(trimmed_end(s).last()),
        forall|i: int| trimmed_end(s).len() <= i < s.len() ==> is_white_space(#[trigger] s[i]),
    decreases s.len(),
{
    if s.len() > 0 && is_white_space(s.last()) {
        law_trimmed_end(s.drop_last());
        assert(s.drop_last().take(trimmed_end(s).len() as int) =~= s.take(
            trimmed_end(s).len() as int,
        ));
        assert forall|i: int| trimmed_end(s).len() <= i < s.len() implies is_white_space(
            #[trigger] s[i],
        ) by {
            if i < s.len() - 1 {
                assert(is_white_space(s.drop_last()[i]));
            }
        }
    } else {
        assert(s.take(s.len() as int) =~= s);
    }
}

} // verus!

//! Strings as sequences of characters: comparison, building and decimal text.

use vstd::prelude::*;

verus! {

/// `String::push` of std appends one character.
pub assume_specification[ String::push ](s: &mut String, c: char)
    ensures
        final(s)@ == old(s)@.push(c),
;

/// Whether two strings hold the same characters.
pub fn same_text(a: &str, b: &str) -> (same: bool)
    ensures
        same == (a@ == b@),
{
    let left = chars_of(a);
    let right = chars_of(b);
    if left.len() != right.len() {
        return false;
    }
    let mut i: usize = 0;
    while i < left.len()
        invariant
            i <= left@.len(),
            left@.len() == right@.len(),
            left@ == a@,
            right@ == b@,
            forall|j: int| 0 <= j < i ==> left@[j] == right@[j],
        decreases left@.len() - i,
    {
        if left[i] != right[i] {
            assert(a@[i as int] != b@[i as int]);
            return false;
        }
        i = i + 1;
    }
    assert(a@ =~= b@);
    true
}

/// Whether two byte strings are the same.
pub fn same_bytes(a: &[u8], b: &[u8]) -> (same: bool)
    ensures
        same == (a@ == b@),
{
    if a.len() != b.len() {
        return false;
    }
    let mut i: usize = 0;
    while i < a.len()
        invariant
            i <= a@.len(),
            a@.len() == b@.len(),
            forall|j: int| 0 <= j < i ==> a@[j] == b@[j],
        decreases a@.len() - i,
    {
        if a[i] != b[i] {
            assert(a@[i as int] != b@[i as int]);
            return false;
        }
        i = i + 1;
    }
    assert(a@ =~= b@);
    true
}

/// The characters of a string, as a vector.
pub fn chars_of(s: &str) -> (chars: Vec<char>)
    ensures
        chars@ == s@,
{
    let mut chars: Vec<char> = Vec::new();
    for c in it: s.chars()
        invariant
            chars@ == it.seq().take(it.index() as int),
            it.seq() == s@,
    {
        chars.push(c);
    }
    assert(s@.take(s@.len() as int) =~= s@);
    chars
}

/// The string made of the given characters.
pub fn text_of(chars: &[char]) -> (s: String)
    ensures
        s@ == chars@,
{
    let mut s = String::new();
    let mut i: usize = 0;
    while i < chars.len()
        invariant
            i <= chars@.len(),
            s@ == chars@.take(i as int),
        decreases chars@.len() - i,
    {
        s.push(chars[i]);
        i = i + 1;
        assert(chars@.take(i as int) =~= chars@.take(i as int - 1).push(chars@[i as int - 1]));
    }
    assert(chars@.take(chars@.len() as int) =~= chars@);
    s
}

/// The character for one decimal digit.
pub open spec fn digit_char(d: nat) -> char {
    (48 + d) as char
}

/// A natural number in decimal, without leading zeros.
pub open spec fn decimal(n: nat) -> Seq<char>
    decreases n,
{
    if n < 10 {
        seq![digit_char(n)]
    } else {
        decimal(n / 10).push(digit_char(n % 10))
    }
}

/// Decimal text of a number.
pub fn decimal_text(n: u64) -> (s: String)
    ensures
        s@ == decimal(n as nat),
    decreases n,
{
    let d: u8 = (n % 10) as u8;
    let c = (48u8 + d) as char;
    if n < 10 {
        let mut s = String::new();
        s.push(c);
        s
    } else {
        let mut s = decimal_text(n / 10);
        s.push(c);
        s
    }
}

/// `n` zeros.
pub open spec fn zeros(n: nat) -> Seq<char> {
    Seq::new(n, |i: int| '0')
}

/// A number in decimal, filled with zeros from the left to at least `width`
/// digits.
pub open spec fn zero_filled(n: nat, width: nat) -> Seq<char> {
    if decimal(n).len() >= width {
        decimal(n)
    } else {
        zeros((width - decimal(n).len()) as nat) + decimal(n)
    }
}

/// Decimal text filled with zeros to at least `width` digits.
pub fn zero_filled_text(n: u64, width: usize) -> (s: String)
    ensures
        s@ == zero_filled(n as nat, width as nat),
{
    let digits = decimal_text(n);
    let len: usize = digits.as_str().unicode_len();
    let mut s = String::new();
    let mut i: usize = len;
    while i < width
        invariant
            len == digits@.len(),
            len <= width ==> i <= width,
            len <= i,
            i > len ==> i <= width,
            s@ == zeros((i - len) as nat),
        decreases width - i,
    {
        s.push('0');
        i = i + 1;
        assert(s@ =~= zeros((i - len) as nat));
    }
    s.append(digits.as_str());
    assert(s@ =~= zero_filled(n as nat, width as nat));
    s
}

/// Two strings one after the other.
pub fn join2(a: &str, b: &str) -> (s: String)
    ensures
        s@ == a@ + b@,
{
    let mut s = a.to_owned();
    s.append(b);
    s
}

/// Three strings one after the other.
pub fn join3(a: &str, b: &str, c: &str) -> (s: String)
    ensures
        s@ == a@ + b@ + c@,
{
    let mut s = a.to_owned();
    s.append(b);
    s.append(c);
    s
}

/// The White_Space characters of Unicode.
pub open spec fn is_white_space(c: char) -> bool {
    let u = c as u32;
    ||| 0x09 <= u <= 0x0d
    ||| u == 0x20
    ||| u == 0x85
    ||| u == 0xa0
    ||| u == 0x1680
    ||| 0x2000 <= u <= 0x200a
    ||| u == 0x2028
    ||| u == 0x2029
    ||| u == 0x202f
    ||| u == 0x205f
    ||| u == 0x3000
}

/// Whether a character is white space.
pub fn white_space(c: char) -> (b: bool)
    ensures
        b == is_white_space(c),
{
    let u: u32 = c as u32;
    (0x09 <= u && u <= 0x0d) || u == 0x20 || u == 0x85 || u == 0xa0 || u == 0x1680 || (0x2000 <= u
        && u <= 0x200a) || u == 0x2028 || u == 0x2029 || u == 0x202f || u == 0x205f || u == 0x3000
}

// ---------------------------------------------------------------------------
// Pieces of a text
// ---------------------------------------------------------------------------
/// A text cut at every `sep`: always at least one piece, and the pieces joined
/// with `sep` give the text back.
pub open spec fn pieces(s: Seq<char>, sep: char) -> Seq<Seq<char>>
    decreases s.len(),
{
    if s.len() == 0 {
        seq![Seq::empty()]
    } else {
        let before = pieces(s.drop_last(), sep);
        if s.last() == sep {
            before.push(Seq::empty())
        } else {
            before.drop_last().push(before.last().push(s.last()))
        }
    }
}

/// Pieces one after the other, `sep` between them.
pub open spec fn joined(parts: Seq<Seq<char>>, sep: char) -> Seq<char>
    decreases parts.len(),
{
    if parts.len() == 0 {
        Seq::empty()
    } else if parts.len() == 1 {
        parts[0]
    } else {
        joined(parts.drop_last(), sep).push(sep) + parts.last()
    }
}

/// The contents of a vector of pieces.
pub open spec fn parts_model(parts: Seq<Vec<char>>) -> Seq<Seq<char>> {
    Seq::new(parts.len(), |i: int| parts[i]@)
}

pub proof fn lemma_pieces_nonempty(s: Seq<char>, sep: char)
    ensures
        pieces(s, sep).len() > 0,
    decreases s.len(),
{
    if s.len() > 0 {
        lemma_pieces_nonempty(s.drop_last(), sep);
    }
}

proof fn lemma_joined_push(parts: Seq<Seq<char>>, last: Seq<char>, sep: char)
    requires
        parts.len() > 0,
    ensures
        joined(parts.push(last), sep) == joined(parts, sep).push(sep) + last,
{
    assert(parts.push(last).drop_last() =~= parts);
}

/// Cutting a text and joining the pieces gives the text back.
pub proof fn law_pieces_joined(s: Seq<char>, sep: char)
    ensures
        joined(pieces(s, sep), sep) == s,
    decreases s.len(),
{
    if s.len() == 0 {
    } else {
        let before = s.drop_last();
        law_pieces_joined(before, sep);
        lemma_pieces_nonempty(before, sep);
        let g = pieces(before, sep);
        if s.last() == sep {
            lemma_joined_push(g, Seq::empty(), sep);
            assert(joined(g, sep).push(sep) + Seq::<char>::empty() =~= s);
        } else if g.len() == 1 {
            assert(g[0] == before);
            assert(g.drop_last().push(g.last().push(s.last())) =~= seq![g[0].push(s.last())]);
            assert(g[0].push(s.last()) =~= s);
        } else {
            let head = g.drop_last();
            assert(head.push(g.last()) =~= g);
            lemma_joined_push(head, g.last(), sep);
            lemma_joined_push(head, g.last().push(s.last()), sep);
            assert(joined(head, sep).push(sep) + g.last().push(s.last()) =~= (joined(
                head,
                sep,
            ).push(sep) + g.last()).push(s.last()));
            assert(before.push(s.last()) =~= s);
        }
    }
}

/// Cuts a text at every `sep`.
pub fn split_pieces(chars: &[char], sep: char) -> (parts: Vec<Vec<char>>)
    ensures
        parts_model(parts@) == pieces(chars@, sep),
{
    let mut done: Vec<Vec<char>> = Vec::new();
    let mut current: Vec<char> = Vec::new();
    let mut i: usize = 0;
    assert(parts_model(done@).push(current@) =~= pieces(chars@.take(0), sep));
    while i < chars.len()
        invariant
            i <= chars@.len(),
            parts_model(done@).push(current@) == pieces(chars@.take(i as int), sep),
        decreases chars@.len() - i,
    {
        let c = chars[i];
        let ghost head = parts_model(done@);
        let ghost tail = current@;
        assert(chars@.take(i as int + 1).drop_last() =~= chars@.take(i as int));
        assert(head.push(tail).drop_last() =~= head);
        if c == sep {
            let mut fresh: Vec<char> = Vec::new();
            std::mem::swap(&mut fresh, &mut current);
            done.push(fresh);
            assert(parts_model(done@) =~= head.push(tail));
            assert(current@ =~= Seq::empty());
        } else {
            current.push(c);
        }
        i = i + 1;
    }
    assert(chars@.take(chars@.len() as int) =~= chars@);
    let ghost head = parts_model(done@);
    let ghost tail = current@;
    done.push(current);
    assert(parts_model(done@) =~= head.push(tail));
    done
}

/// Joins pieces with `sep`.
pub fn join_pieces(parts: &Vec<Vec<char>>, sep: char) -> (s: String)
    ensures
        s@ == joined(parts_model(parts@), sep),
{
    let ghost all = parts_model(parts@);
    let mut s = String::new();
    let mut i: usize = 0;
    while i < parts.len()
        invariant
            i <= parts@.len(),
            all == parts_model(parts@),
            s@ == joined(all.take(i as int), sep),
        decreases parts@.len() - i,
    {
        let ghost before = all.take(i as int);
        if i > 0 {
            s.push(sep);
        }
        let piece = text_of(parts[i].as_slice());
        s.append(piece.as_str());
        proof {
            assert(all.take(i as int + 1) =~= before.push(all[i as int]));
            if i > 0 {
                lemma_joined_push(before, all[i as int], sep);
            } else {
                assert(s@ =~= all[0]);
            }
        }
        i = i + 1;
    }
    assert(all.take(all.len() as int) =~= all);
    s
}

/// A text without the white space at its end.
pub open spec fn trimmed_end(s: Seq<char>) -> Seq<char>
    decreases s.len(),
{
    if s.len() > 0 && is_white_space(s.last()) {
        trimmed_end(s.drop_last())
    } else {
        s
    }
}

/// Takes the white space off the end.
pub fn trim_end(chars: &mut Vec<char>)
    ensures
        final(chars)@ == trimmed_end(old(chars)@),
{
    while chars.len() > 0 && white_space(chars[chars.len() - 1])
        invariant
            trimmed_end(chars@) == trimmed_end(old(chars)@),
        decreases chars@.len(),
    {
        let ghost before = chars@;
        let _ = chars.pop();
        assert(chars@ =~= before.drop_last());
    }
}

/// The final component of a path: its last piece between slashes that is
/// neither empty nor a dot. None where there is no such piece, or where it
/// leads to the parent.
pub open spec fn base_name(path: Seq<char>) -> Option<Seq<char>> {
    last_name(pieces(path, '/'))
}

/// The last piece that names something.
pub open spec fn last_name(parts: Seq<Seq<char>>) -> Option<Seq<char>>
    decreases parts.len(),
{
    if parts.len() == 0 {
        None
    } else if parts.last().len() == 0 || parts.last() == seq!['.'] {
        last_name(parts.drop_last())
    } else if parts.last() == seq!['.', '.'] {
        None
    } else {
        Some(parts.last())
    }
}

/// What an optional vector of characters holds.
pub open spec fn optional_chars(v: Option<Vec<char>>) -> Option<Seq<char>> {
    match v {
        Some(c) => Some(c@),
        None => None,
    }
}

/// The final component of a path.
pub fn file_name(path: &str) -> (name: Option<Vec<char>>)
    ensures
        optional_chars(name) == base_name(path@),
{
    let chars = chars_of(path);
    let mut parts = split_pieces(chars.as_slice(), '/');
    while parts.len() > 0
        invariant
            last_name(parts_model(parts@)) == base_name(path@),
        decreases parts@.len(),
    {
        let ghost all = parts_model(parts@);
        let last = match parts.pop() {
            Some(last) => last,
            None => Vec::new(),
        };
        assert(parts_model(parts@) =~= all.drop_last());
        assert(all.last() == last@);
        let n: usize = last.len();
        if n == 0 {
            continue;
        }
        if n == 1 && last[0] == '.' {
            assert(last@ =~= seq!['.']);
            continue;
        }
        if n == 2 && last[0] == '.' && last[1] == '.' {
            assert(last@ =~= seq!['.', '.']);
            return None;
        }
        return Some(last);
    }
    None
}

// ---------------------------------------------------------------------------
// Lower case
// ---------------------------------------------------------------------------
/// What `char::to_lowercase` gives for a character.
pub uninterp spec fn lowercase_of(c: char) -> Seq<char>;

/// What `str::to_lowercase` gives for a text.
pub uninterp spec fn lowercase_text_of(s: Seq<char>) -> Seq<char>;

/// Calls `char::to_lowercase`, of which nothing is claimed but that the result
/// depends on the character alone. The characters that it gives come as one
/// text.
#[verifier::external_body]
pub(crate) fn lower_char(c: char) -> (s: String)
    ensures
        s@ == lowercase_of(c),
{
    c.to_lowercase().to_string()
}

/// Calls `str::to_lowercase`, of which nothing is claimed but that the result
/// depends on the text alone.
#[verifier::external_body]
pub(crate) fn lower_text(s: &str) -> (lower: String)
    ensures
        lower@ == lowercase_text_of(s@),
{
    s.to_lowercase()
}

/// A name inside a directory.
pub open spec fn path_in(dir: Seq<char>, name: Seq<char>) -> Seq<char> {
    if dir.len() == 0 {
        name
    } else if dir.last() == '/' {
        dir + name
    } else {
        dir + "/"@ + name
    }
}

/// A name inside a directory.
pub fn join_path(dir: &str, name: &str) -> (path: String)
    ensures
        path@ == path_in(dir@, name@),
{
    if dir.is_empty() {
        return name.to_owned();
    }
    let n: usize = dir.unicode_len();
    if dir.get_char(n - 1) == '/' {
        join2(dir, name)
    } else {
        join3(dir, "/", name)
    }
}

// ---------------------------------------------------------------------------
// Texts one behind the other
// ---------------------------------------------------------------------------
/// Texts one behind the other.
pub open spec fn concatenated(parts: Seq<Seq<char>>) -> Seq<char>
    decreases parts.len(),
{
    if parts.len() == 0 {
        Seq::empty()
    } else {
        concatenated(parts.drop_last()) + parts.last()
    }
}

/// Texts as mathematical values.
pub open spec fn texts(parts: Seq<&str>) -> Seq<Seq<char>> {
    Seq::new(parts.len(), |i: int| parts[i]@)
}

/// Texts one behind the other.
pub fn concat(parts: &[&str]) -> (s: String)
    ensures
        s@ == concatenated(texts(parts@)),
{
    let mut s = String::new();
    let mut i: usize = 0;
    let ghost all = texts(parts@);
    while i < parts.len()
        invariant
            i <= parts@.len(),
            all == texts(parts@),
            s@ == concatenated(all.take(i as int)),
        decreases parts@.len() - i,
    {
        s.append(parts[i]);
        i = i + 1;
        assert(all.take(i as int).drop_last() =~= all.take(i - 1));
    }
    assert(all.take(i as int) =~= all);
    s
}

} // verus!

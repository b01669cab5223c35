//! Identifiers: UUIDs as 128-bit values, and the panes named by them.

use vstd::prelude::*;

verus! {

/// A UUID by its 128-bit value.
#[derive(Clone, Copy, Debug, PartialEq, Eq, Hash, Structural)]
pub struct Uuid {
    pub value: u128,
}

/// A pane of a session.
#[derive(Clone, Copy, Debug, PartialEq, Eq, Hash, Structural)]
pub struct PaneId(pub Uuid);

/// What `uuid::Uuid::parse_str` makes of a text: the value, or nothing where
/// it is refused.
pub uninterp spec fn uuid_of_text(text: Seq<char>) -> Option<u128>;

/// The lower-case hexadecimal digit of a value below sixteen.
pub open spec fn hex_digit(n: u128) -> char {
    if n < 10 {
        (48 + n) as char
    } else {
        (87 + n) as char
    }
}

/// Hexadecimal digits `from..to` of a 128-bit value, counted from the most
/// significant of its thirty-two.
pub open spec fn hex_digits(v: u128, from: int, to: int) -> Seq<char> {
    Seq::new((to - from) as nat, |i: int| hex_digit((v >> ((4 * (31 - from - i)) as u128)) & 0xf))
}

/// The hyphenated form of a UUID: groups of 8, 4, 4, 4 and 12 digits.
pub open spec fn uuid_text(v: u128) -> Seq<char> {
    hex_digits(v, 0, 8) + seq!['-'] + hex_digits(v, 8, 12) + seq!['-'] + hex_digits(v, 12, 16) + seq![
        '-',
    ] + hex_digits(v, 16, 20) + seq!['-'] + hex_digits(v, 20, 32)
}

/// Calls `uuid::Uuid::parse_str`. The contract only names its result: the same
/// text always gives the same answer.
#[verifier::external_body]
fn parse_uuid(text: &str) -> (value: Option<u128>)
    ensures
        value == uuid_of_text(text@),
{
    uuid::Uuid::parse_str(text).ok().map(|u| u.as_u128())
}

/// Calls the `Display` of `uuid::Uuid`. The contract claims that it writes the
/// lower-case hyphenated form, and that `uuid::Uuid::parse_str` reads the value
/// back from it.
#[verifier::external_body]
fn format_uuid(value: u128) -> (text: String)
    ensures
        text@ == uuid_text(value),
        uuid_of_text(text@) == Some(value),
{
    uuid::Uuid::from_u128(value).to_string()
}

/// Calls `uuid::Uuid::new_v4`. The value is random; the contract claims only
/// the version and variant bits that every version 4 UUID has.
#[verifier::external_body]
fn random_uuid() -> (value: u128)
    ensures
        (value >> 76u128) & 0xf == 4,
        (value >> 62u128) & 0x3 == 2,
{
    uuid::Uuid::new_v4().as_u128()
}

impl Uuid {
    /// A random version 4 UUID.
    pub fn new_v4() -> (id: Uuid)
        ensures
            (id.value >> 76u128) & 0xf == 4,
            (id.value >> 62u128) & 0x3 == 2,
    {
        Uuid { value: random_uuid() }
    }

    /// Reads a UUID from its text, `None` where the text is none.
    pub fn parse_str(text: &str) -> (id: Option<Uuid>)
        ensures
            id == uuid_named(uuid_of_text(text@)),
    {
        uuid_from(parse_uuid(text))
    }

    /// The hyphenated text, which `parse_str` reads back.
    pub fn to_text(&self) -> (text: String)
        ensures
            text@ == uuid_text(self.value),
            uuid_of_text(text@) == Some(self.value),
    {
        format_uuid(self.value)
    }
}

/// The identifier for a parsed value.
pub open spec fn uuid_named(value: Option<u128>) -> Option<Uuid> {
    match value {
        Some(v) => Some(Uuid { value: v }),
        None => None,
    }
}

/// The identifier for the outcome of parsing a text.
pub fn uuid_from(value: Option<u128>) -> (id: Option<Uuid>)
    ensures
        id == uuid_named(value),
{
    match value {
        Some(v) => Some(Uuid { value: v }),
        None => None,
    }
}

impl PaneId {
    /// A fresh random pane id.
    pub fn new() -> (id: PaneId)
        ensures
            (id.0.value >> 76u128) & 0xf == 4,
            (id.0.value >> 62u128) & 0x3 == 2,
    {
        PaneId(Uuid::new_v4())
    }

    /// The hyphenated text of the id.
    pub fn to_text(&self) -> (text: String)
        ensures
            text@ == uuid_text(self.0.value),
            uuid_of_text(text@) == Some(self.0.value),
    {
        self.0.to_text()
    }
}

} // verus!

//! The text form of identifiers, which the `uuid` crate reads and writes.

use vstd::prelude::*;

use crate::job::VideoId;

verus! {

/// The sixteen lower-case hexadecimal digits.
pub open spec fn hex_digits() -> Seq<char> {
    seq!['0', '1', '2', '3', '4', '5', '6', '7', '8', '9', 'a', 'b', 'c', 'd', 'e', 'f']
}

/// Digit `k` of the thirty-two hexadecimal digits of `id`, counted from the
/// most significant.
pub open spec fn hex_digit_at(id: u128, k: int) -> char {
    hex_digits()[((id as int) / vstd::arithmetic::power::pow(16, (31 - k) as nat)) % 16]
}

/// How many hyphens stand before position `i` of the hyphenated form.
pub open spec fn hyphens_before(i: int) -> int {
    if i > 23 {
        4
    } else if i > 18 {
        3
    } else if i > 13 {
        2
    } else if i > 8 {
        1
    } else {
        0
    }
}

/// The hyphenated lower-case form of a UUID: thirty-two hexadecimal digits,
/// most significant first, in groups of 8, 4, 4, 4 and 12.
pub open spec fn hyphenated_text(id: u128) -> Seq<char> {
    Seq::new(
        36,
        |i: int|
            if i == 8 || i == 13 || i == 18 || i == 23 {
                '-'
            } else {
                hex_digit_at(id, i - hyphens_before(i))
            },
    )
}

/// What `uuid::Uuid::parse_str` makes of a text: the 128 bits of the UUID it
/// reads, or `None` where it rejects the text.
pub uninterp spec fn uuid_parse(text: Seq<char>) -> Option<u128>;

/// Formats the UUID with the bits `id` through `uuid`'s `Display`, which
/// writes the hyphenated lower-case form.
///
/// Trusted: the contract restates what `Uuid::from_u128` and the crate's
/// hyphenated encoder do; Verus does not read them.
#[verifier::external_body]
pub(crate) fn uuid_to_text(id: u128) -> (text: String)
    ensures
        text@ == hyphenated_text(id),
{
    uuid::Uuid::from_u128(id).to_string()
}

/// Parses a UUID with `uuid::Uuid::parse_str` and hands back its 128 bits.
///
/// Trusted: the result is whatever the crate's parser decides, which
/// [`uuid_parse`] names; the same text always parses the same way.
#[verifier::external_body]
pub(crate) fn uuid_from_text(text: &str) -> (parsed: Option<u128>)
    ensures
        parsed == uuid_parse(text@),
{
    match uuid::Uuid::parse_str(text) {
        Ok(id) => Some(id.as_u128()),
        Err(_) => None,
    }
}

impl VideoId {
    /// The identifier as it appears in paths: a hyphenated UUID.
    pub open spec fn text(self) -> Seq<char> {
        hyphenated_text(self.0)
    }

    /// The identifier as it appears in paths.
    pub fn to_text(&self) -> (text: String)
        ensures
            text@ == self.text(),
    {
        uuid_to_text(self.0)
    }
}

} // verus!

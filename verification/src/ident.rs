//! Election identifiers and their text form.
//!
//! An identifier is a 128-bit number. On the wire it travels as the text of a
//! UUID, which the `uuid` crate writes and reads. The functions that call into
//! that crate are not verified: their contracts are taken on trust and say
//! what the crate's source shows.

use vstd::prelude::*;

verus! {

/// The lower-case hexadecimal digit that stands for `v`, for `v` from 0 to 15.
pub open spec fn hex_digit(v: int) -> char {
    seq!['0', '1', '2', '3', '4', '5', '6', '7', '8', '9', 'a', 'b', 'c', 'd', 'e', 'f'][v]
}

/// Whether position `i` of the canonical text holds a hyphen.
pub open spec fn is_hyphen_position(i: int) -> bool {
    i == 8 || i == 13 || i == 18 || i == 23
}

/// The rank, among the 32 digits, of the digit at position `i` of the
/// canonical text: the position less the hyphens before it.
pub open spec fn digit_rank(i: int) -> int {
    if i < 8 {
        i
    } else if i < 13 {
        i - 1
    } else if i < 18 {
        i - 2
    } else if i < 23 {
        i - 3
    } else {
        i - 4
    }
}

/// The value of the hexadecimal digit of `id` with the given rank, rank 0
/// being the most significant of the 32: the four bits that stand
/// `4 * (31 - rank)` places above the lowest.
pub open spec fn nibble(id: u128, rank: int) -> int {
    ((id >> ((4 * (31 - rank)) as u128)) & 0xf) as int
}

/// The canonical text of an identifier: its 32 lower-case hexadecimal digits,
/// most significant first, in groups of 8, 4, 4, 4 and 12 joined by hyphens.
pub open spec fn canonical_text(id: u128) -> Seq<char> {
    Seq::new(
        36,
        |i: int|
            if is_hyphen_position(i) {
                '-'
            } else {
                hex_digit(nibble(id, digit_rank(i)))
            },
    )
}

/// The identifier that a text is read as, or `None` where the text is not
/// read as one. Besides the canonical text, other spellings of a UUID are
/// read too.
pub uninterp spec fn parsed_id(text: Seq<char>) -> Option<u128>;

/// Whether `id` carries the marks of a randomly drawn UUID: version 4 in bits
/// 76 to 79, and the two variant bits 62 and 63 set to `10`.
pub open spec fn is_random_id(id: u128) -> bool {
    id & 0x0000_0000_0000_f000_c000_0000_0000_0000 == 0x0000_0000_0000_4000_8000_0000_0000_0000
}

/// Calls `Uuid::from_u128` and the `Display` of `Uuid`. Trusted: the text is
/// the canonical one, lower case and hyphenated, and `Uuid::parse_str` reads
/// that text back as `id`.
#[verifier::external_body]
pub(crate) fn id_to_text(id: u128) -> (text: String)
    ensures
        text@ == canonical_text(id),
        parsed_id(text@) == Some(id),
{
    uuid::Uuid::from_u128(id).to_string()
}

/// Calls `Uuid::parse_str` and `Uuid::as_u128`. Trusted: the outcome depends
/// on the text alone, and is named `parsed_id`; a text that is not read as a
/// UUID gives `None`.
#[verifier::external_body]
pub(crate) fn text_to_id(text: &str) -> (id: Option<u128>)
    ensures
        id == parsed_id(text@),
{
    match uuid::Uuid::parse_str(text) {
        Ok(uuid) => Some(uuid.as_u128()),
        Err(_) => None,
    }
}

/// Calls `Uuid::new_v4` and `Uuid::as_u128`. Trusted: whatever number is
/// drawn, the crate stamps it with the version and the variant. Nothing is
/// claimed of two draws being different. The draw needs the system's source
/// of randomness and does not return without one.
#[verifier::external_body]
pub(crate) fn random_id() -> (id: u128)
    ensures
        is_random_id(id),
{
    uuid::Uuid::new_v4().as_u128()
}

} // verus!

//! Random identifiers: version 4 UUIDs, held as 128-bit numbers.

use vstd::prelude::*;

verus! {

/// Whether `id` carries the marks of a random (version 4) UUID: the version
/// digit is 4 and the two variant bits are `10`.
pub open spec fn is_version_4(id: u128) -> bool {
    id & 0x0000_0000_0000_f000_c000_0000_0000_0000u128
        == 0x0000_0000_0000_4000_8000_0000_0000_0000u128
}

/// The lower-case hexadecimal digit of a value below 16.
pub open spec fn hex_digit(value: u128) -> char {
    if value == 0 {
        '0'
    } else if value == 1 {
        '1'
    } else if value == 2 {
        '2'
    } else if value == 3 {
        '3'
    } else if value == 4 {
        '4'
    } else if value == 5 {
        '5'
    } else if value == 6 {
        '6'
    } else if value == 7 {
        '7'
    } else if value == 8 {
        '8'
    } else if value == 9 {
        '9'
    } else if value == 10 {
        'a'
    } else if value == 11 {
        'b'
    } else if value == 12 {
        'c'
    } else if value == 13 {
        'd'
    } else if value == 14 {
        'e'
    } else {
        'f'
    }
}

/// Whether a hyphen stands at `position` of a UUID in hyphenated form.
pub open spec fn is_hyphen_position(position: int) -> bool {
    position == 8 || position == 13 || position == 18 || position == 23
}

/// Which of the 32 digits of a UUID stands at `position` of its hyphenated
/// form, counted from the most significant.
pub open spec fn digit_at(position: int) -> int {
    if position < 8 {
        position
    } else if position < 13 {
        position - 1
    } else if position < 18 {
        position - 2
    } else if position < 23 {
        position - 3
    } else {
        position - 4
    }
}

/// The digit of `id` with the given index, counted from the most
/// significant of its 32 hexadecimal digits.
pub open spec fn digit_of(id: u128, index: int) -> u128 {
    (id >> ((4 * (31 - index)) as u128)) & 0xf
}

/// The hyphenated form of a UUID: its 32 hexadecimal digits in lower case,
/// most significant first, in groups of 8, 4, 4, 4 and 12 that hyphens
/// separate.
pub open spec fn hyphenated_text(id: u128) -> Seq<char> {
    Seq::new(
        36,
        |position: int|
            if is_hyphen_position(position) {
                '-'
            } else {
                hex_digit(digit_of(id, digit_at(position)))
            },
    )
}

/// Draws a fresh identifier.
///
/// Calls `uuid::Uuid::new_v4` and hands out the UUID as the 128-bit number
/// that `Uuid::as_u128` gives. The identifier is random: the contract claims
/// only the version and variant bits, which `new_v4` sets on every value.
#[verifier::external_body]
pub(crate) fn new_v4() -> (id: u128)
    ensures
        is_version_4(id),
{
    uuid::Uuid::new_v4().as_u128()
}

/// Writes a UUID in hyphenated form.
///
/// Calls `Uuid::hyphenated` on `Uuid::from_u128(id)` and formats the result,
/// which gives the 36 characters that `hyphenated_text` describes.
#[verifier::external_body]
fn hyphenated(id: u128) -> (text: String)
    ensures
        text@ == hyphenated_text(id),
{
    uuid::Uuid::from_u128(id).hyphenated().to_string()
}

/// The text of the UUID `id`, in hyphenated form.
pub fn uuid_text(id: u128) -> (text: String)
    ensures
        text@ == hyphenated_text(id),
{
    hyphenated(id)
}

} // verus!

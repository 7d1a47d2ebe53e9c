//! Fresh identifiers for rows.

use vstd::prelude::*;

verus! {

/// Whether an identifier has the marks of a random UUID: version 4 in bits
/// 76 to 79 and the variant `10` in bits 62 and 63.
pub open spec fn is_version_four(id: u128) -> bool {
    id & 0xf000_c000_0000_0000_0000u128 == 0x4000_8000_0000_0000_0000u128
}

/// Draws an identifier with `uuid::Uuid::new_v4` and hands it out as the
/// number that `Uuid::as_u128` gives. Which identifier comes is left open;
/// it always carries the version and variant marks of a random UUID.
#[verifier::external_body]
pub(crate) fn fresh_id() -> (id: u128)
    ensures
        is_version_four(id),
{
    uuid::Uuid::new_v4().as_u128()
}

/// The digit of base sixteen for a number below sixteen, in lower case.
pub open spec fn hex_digit(nibble: u128) -> char {
    if nibble < 10 {
        ((0x30 + nibble) as u8) as char
    } else {
        ((0x57 + nibble) as u8) as char
    }
}

/// Which of the thirty-two digits stands at place `at` of the hyphenated
/// form: the hyphens before it are not counted.
pub open spec fn digit_index(at: int) -> int {
    if at > 23 {
        at - 4
    } else if at > 18 {
        at - 3
    } else if at > 13 {
        at - 2
    } else if at > 8 {
        at - 1
    } else {
        at
    }
}

/// The hyphenated form of an identifier: its thirty-two digits of base
/// sixteen in lower case, the most significant first, in groups of eight,
/// four, four, four and twelve with a hyphen between the groups.
pub open spec fn hyphenated_text(id: u128) -> Seq<char> {
    Seq::new(
        36,
        |at: int|
            if at == 8 || at == 13 || at == 18 || at == 23 {
                '-'
            } else {
                hex_digit((id >> ((4 * (31 - digit_index(at))) as u128)) & 0xf)
            },
    )
}

/// Writes an identifier as `uuid::Uuid::from_u128` and the `Display` of
/// `Uuid` give it: the hyphenated form in lower case.
#[verifier::external_body]
pub(crate) fn hyphenated(id: u128) -> (text: String)
    ensures
        text@ == hyphenated_text(id),
{
    uuid::Uuid::from_u128(id).to_string()
}

} // verus!

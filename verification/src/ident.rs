//! Task identifiers.
//!
//! An identifier is the 128-bit value of an RFC 9562 UUID. Fresh identifiers
//! and their textual form come from the `uuid` crate.

use vstd::prelude::*;

verus! {

/// The bits of an identifier that hold the UUID version and variant.
pub const VERSION_VARIANT_MASK: u128 = 0x0000_0000_0000_f000_c000_0000_0000_0000;

/// Version 4 (random) in the version bits, the RFC variant in the variant bits.
pub const RANDOM_VERSION_VARIANT: u128 = 0x0000_0000_0000_4000_8000_0000_0000_0000;

/// Whether `id` is laid out as a version 4 (random) UUID of the RFC variant.
pub open spec fn is_random_id(id: u128) -> bool {
    id & VERSION_VARIANT_MASK == RANDOM_VERSION_VARIANT
}

/// Draws a fresh identifier with `uuid::Uuid::new_v4` and returns its 128-bit
/// value (`Uuid::as_u128`).
///
/// Trusted: the value is random, so the contract only claims what `new_v4`
/// forces on every outcome, the version and variant bits. The call panics if
/// the operating system cannot supply random bytes.
#[verifier::external_body]
pub(crate) fn fresh_id() -> (id: u128)
    ensures
        is_random_id(id),
{
    uuid::Uuid::new_v4().as_u128()
}

/// The lower-case hexadecimal digit of a value below 16.
pub open spec fn hex_digit(value: int) -> char {
    "0123456789abcdef"@[value]
}

/// The textual form of an identifier: its 32 hexadecimal digits in lower
/// case, most significant first, in groups of 8, 4, 4, 4 and 12 with a
/// hyphen between two groups.
pub open spec fn uuid_text(id: u128) -> Seq<char> {
    Seq::new(
        36,
        |i: int|
            if i == 8 || i == 13 || i == 18 || i == 23 {
                '-'
            } else {
                let digit = if i < 8 {
                    i
                } else if i < 13 {
                    i - 1
                } else if i < 18 {
                    i - 2
                } else if i < 23 {
                    i - 3
                } else {
                    i - 4
                };
                hex_digit(((id >> (((31 - digit) * 4) as u128)) & 0xf) as int)
            },
    )
}

/// Formats an identifier with `uuid::Uuid::from_u128` and the `Display` of
/// `Uuid`.
///
/// Trusted: `Display` writes the hyphenated lower-case form, which
/// `uuid_text` spells out digit by digit.
#[verifier::external_body]
pub(crate) fn hyphenated(id: u128) -> (text: String)
    ensures
        text@ == uuid_text(id),
{
    uuid::Uuid::from_u128(id).to_string()
}

} // verus!

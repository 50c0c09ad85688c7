//! Identifiers: 128-bit numbers, drawn at random and written as UUIDs.

use vstd::prelude::*;
use crate::digest::hex_lower;

verus! {

/// 256 to the power of `n`.
pub open spec fn pow256(n: nat) -> nat
    decreases n,
{
    if n == 0 {
        1
    } else {
        256 * pow256((n - 1) as nat)
    }
}

/// The sixteen bytes of `id`, the most significant first.
pub open spec fn uuid_bytes(id: u128) -> Seq<u8> {
    Seq::new(16, |i: int| ((id as nat / pow256((15 - i) as nat)) % 256) as u8)
}

/// `id` in the usual notation of a UUID: its bytes in lower-case
/// hexadecimal, in groups of four, two, two, two and six bytes with a hyphen
/// between the groups.
pub open spec fn uuid_text(id: u128) -> Seq<char> {
    let b = uuid_bytes(id);
    hex_lower(b.subrange(0, 4)) + seq!['-'] + hex_lower(b.subrange(4, 6)) + seq!['-'] + hex_lower(
        b.subrange(6, 8),
    ) + seq!['-'] + hex_lower(b.subrange(8, 10)) + seq!['-'] + hex_lower(b.subrange(10, 16))
}

/// The identifier that `text` denotes as a UUID, in any of the notations
/// that the `uuid` crate reads; none where it denotes none.
pub uninterp spec fn uuid_from_text(text: Seq<char>) -> Option<u128>;

/// Whether `id` has the form of a random UUID: version four, in the variant
/// of RFC 4122.
pub open spec fn is_random_uuid(id: u128) -> bool {
    id & 0x0000_0000_0000_f000_c000_0000_0000_0000u128 == 0x0000_0000_0000_4000_8000_0000_0000_0000u128
}

/// Draws a fresh identifier with `uuid::Uuid::new_v4`: 122 random bits, the
/// version and variant bits set as for every random UUID. Which identifier
/// comes out is chance; only its form is promised.
#[verifier::external_body]
pub(crate) fn fresh_uuid() -> (id: u128)
    ensures
        is_random_uuid(id),
{
    uuid::Uuid::new_v4().as_u128()
}

/// Writes `id` as a UUID, with `uuid::Uuid::from_u128` and the crate's
/// `Display`: hyphenated, in lower case.
#[verifier::external_body]
pub(crate) fn format_uuid(id: u128) -> (text: String)
    ensures
        text@ == uuid_text(id),
{
    uuid::Uuid::from_u128(id).to_string()
}

/// Writes `id` as a UUID without hyphens, with `uuid::Uuid::from_u128` and
/// the crate's simple format: thirty-two hexadecimal digits in lower case.
#[verifier::external_body]
pub(crate) fn format_uuid_simple(id: u128) -> (text: String)
    ensures
        text@ == hex_lower(uuid_bytes(id)),
{
    uuid::Uuid::from_u128(id).simple().to_string()
}

/// Reads a UUID with `uuid::Uuid::parse_str`. What it accepts is the crate's
/// business; the result depends on the text alone.
#[verifier::external_body]
pub(crate) fn parse_uuid(text: &str) -> (id: Option<u128>)
    ensures
        id == uuid_from_text(text@),
{
    match uuid::Uuid::parse_str(text) {
        Ok(id) => Some(id.as_u128()),
        Err(_) => None,
    }
}

} // verus!

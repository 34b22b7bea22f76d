//! Record identifiers: 128-bit numbers drawn at random, and their textual
//! form. The functions here call the `uuid` crate; their contracts are
//! believed, not proved.

use vstd::prelude::*;
use vstd::arithmetic::power::pow;

verus! {

/// The sixteen hexadecimal digits, in their order.
pub open spec fn hex_digits() -> Seq<char> {
    "0123456789abcdef"@
}

/// The `k`-th of the 32 hexadecimal digits of `id`, the most significant
/// being the 0th.
pub open spec fn hex_digit_of(id: u128, k: int) -> char {
    hex_digits()[((id as int) / pow(16, (31 - k) as nat)) % 16]
}

/// Number of hyphens that stand before position `at` of the textual form.
pub open spec fn hyphens_before(at: int) -> int {
    (if at > 8 { 1int } else { 0int }) + (if at > 13 { 1int } else { 0int })
        + (if at > 18 { 1int } else { 0int }) + (if at > 23 { 1int } else { 0int })
}

/// Textual form of an identifier: its 32 hexadecimal digits in lower case,
/// most significant first, in groups of 8, 4, 4, 4 and 12 separated by
/// hyphens.
pub open spec fn uuid_text(id: u128) -> Seq<char> {
    Seq::new(
        36,
        |at: int|
            if at == 8 || at == 13 || at == 18 || at == 23 {
                '-'
            } else {
                hex_digit_of(id, at - hyphens_before(at))
            },
    )
}

/// Whether `id` carries the marks of a randomly drawn identifier: version 4
/// in its 13th hexadecimal digit, and the two bits `10` on top of its 17th.
pub open spec fn is_random_id(id: u128) -> bool {
    &&& ((id as int) / pow(16, 19)) % 16 == 4
    &&& ((id as int) / pow(2, 62)) % 4 == 2
}

/// Draws a fresh identifier with `uuid::Uuid::new_v4` and returns it as a
/// number (`Uuid::as_u128`).
///
/// Believed of the outside function: whatever the random source gives, the
/// version and variant marks are set. Nothing is claimed of the other bits.
/// The outside function panics where the operating system cannot supply
/// random bytes.
#[verifier::external_body]
pub(crate) fn new_id() -> (id: u128)
    ensures
        is_random_id(id),
{
    uuid::Uuid::new_v4().as_u128()
}

/// Writes an identifier in its textual form, with `uuid::Uuid::from_u128`
/// and the `Display` of `Uuid`.
///
/// Believed of the outside function: the text is the hyphenated lower-case
/// hexadecimal form of the number, most significant digit first.
#[verifier::external_body]
pub(crate) fn id_text(id: u128) -> (text: String)
    ensures
        text@ == uuid_text(id),
{
    uuid::Uuid::from_u128(id).to_string()
}

} // verus!

//! Metric identifiers: random version-4 UUIDs, held as 128-bit numbers,
//! and their hyphenated text.
use vstd::prelude::*;

verus! {

/// The bits that fix the version (4) and the variant (RFC 4122) of a
/// random UUID.
pub open spec fn is_v4_uuid(v: u128) -> bool {
    v & 0xF000_C000_0000_0000_0000u128 == 0x4000_8000_0000_0000_0000u128
}

/// A fresh random UUID (`uuid::Uuid::new_v4`), as a number. Only its
/// version and variant bits are claimed: the rest is random.
#[verifier::external_body]
pub fn new_uuid() -> (r: u128)
    ensures
        is_v4_uuid(r),
{
    uuid::Uuid::new_v4().as_u128()
}

/// The lower-case hexadecimal digit of `d`.
pub open spec fn hex_digit(d: u128) -> char {
    if d < 10 {
        (d + '0' as u128) as char
    } else {
        (d - 10 + 'a' as u128) as char
    }
}

/// The 32 lower-case hexadecimal digits of `v`, most significant first.
pub open spec fn hex32(v: u128) -> Seq<char> {
    Seq::new(32, |i: int| hex_digit((v >> ((4 * (31 - i)) as u128)) & 0xf))
}

/// The hyphenated form of a UUID: its 32 hexadecimal digits in groups of
/// 8, 4, 4, 4 and 12, separated by `-`.
pub open spec fn hyphenated(v: u128) -> Seq<char> {
    let h = hex32(v);
    h.subrange(0, 8) + seq!['-'] + h.subrange(8, 12) + seq!['-'] + h.subrange(12, 16) + seq!['-']
        + h.subrange(16, 20) + seq!['-'] + h.subrange(20, 32)
}

/// The hyphenated text of the UUID `v`
/// (`uuid::Uuid::from_u128(v).as_hyphenated().to_string()`), which formats
/// the big-endian bytes of `v` in lower-case hexadecimal.
#[verifier::external_body]
pub fn uuid_hyphenated(v: u128) -> (r: String)
    ensures
        r@ == hyphenated(v),
{
    uuid::Uuid::from_u128(v).as_hyphenated().to_string()
}

} // verus!

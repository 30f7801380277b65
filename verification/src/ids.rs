//! Segment identifiers: 128 random bits, kept as two 64-bit halves.

use vstd::prelude::*;

verus! {

/// The low 64 bits of `x`.
pub open spec fn low_half(x: u128) -> u64 {
    (x % 0x1_0000_0000_0000_0000) as u64
}

/// The high 64 bits of `x`.
pub open spec fn high_half(x: u128) -> u64 {
    (x / 0x1_0000_0000_0000_0000) as u64
}

/// Whether `x` has the form of a version-4 UUID: the version, in bits 76
/// to 79, is 4, and the variant, in bits 62 and 63, is binary 10. The other
/// 122 bits are free.
pub open spec fn is_uuid_v4(x: u128) -> bool {
    x & 0x0000_0000_0000_f000_c000_0000_0000_0000 == 0x0000_0000_0000_4000_8000_0000_0000_0000
}

/// The 128-bit value with the low half `lo` and the high half `hi`.
pub open spec fn join_halves(lo: u64, hi: u64) -> u128 {
    (lo + hi * 0x1_0000_0000_0000_0000) as u128
}

/// Whether `(lo, hi)` are the halves of a version-4 UUID, low half first:
/// the low half starts with the variant bits 10, and the high half holds
/// the version 4 in bits 12 to 15.
pub open spec fn is_segment_id(lo: u64, hi: u64) -> bool {
    &&& lo & 0xc000_0000_0000_0000 == 0x8000_0000_0000_0000
    &&& hi & 0xf000 == 0x4000
}

/// Draws a version-4 UUID with `uuid::Uuid::new_v4` and hands it back as the
/// integer that `Uuid::as_u128` gives. `new_v4` takes 128 random bits and
/// sets the version and the variant in them; `as_u128` gives that value
/// unchanged. So the value is random but for those six bits, and only they
/// are claimed.
#[verifier::external_body]
fn random_uuid() -> (x: u128)
    ensures
        is_uuid_v4(x),
{
    uuid::Uuid::new_v4().as_u128()
}

/// Splits a 128-bit value into its low and high halves, low half first.
pub fn split_halves(x: u128) -> (ids: (u64, u64))
    ensures
        ids.0 == low_half(x),
        ids.1 == high_half(x),
        x == ids.0 + ids.1 * 0x1_0000_0000_0000_0000,
{
    let lo: u64 = (x & 0xffff_ffff_ffff_ffff) as u64;
    let hi: u64 = (x >> 64) as u64;
    assert(x & 0xffff_ffff_ffff_ffff == x % 0x1_0000_0000_0000_0000) by (bit_vector);
    assert(x >> 64 == x / 0x1_0000_0000_0000_0000) by (bit_vector);
    (lo, hi)
}

/// The halves of a 128-bit value are the halves of a version-4 UUID
/// exactly when the value has the form of one.
pub proof fn lemma_halves_of_uuid_v4(x: u128)
    ensures
        is_uuid_v4(x) <==> is_segment_id(low_half(x), high_half(x)),
        join_halves(low_half(x), high_half(x)) == x,
{
    let lo = (x & 0xffff_ffff_ffff_ffff) as u64;
    let hi = (x >> 64) as u64;
    assert(x & 0xffff_ffff_ffff_ffff == x % 0x1_0000_0000_0000_0000) by (bit_vector);
    assert(x >> 64 == x / 0x1_0000_0000_0000_0000) by (bit_vector);
    assert(lo == low_half(x));
    assert(hi == high_half(x));
    assert((x & 0x0000_0000_0000_f000_c000_0000_0000_0000
        == 0x0000_0000_0000_4000_8000_0000_0000_0000) <==> (((x & 0xffff_ffff_ffff_ffff) as u64)
        & 0xc000_0000_0000_0000u64 == 0x8000_0000_0000_0000u64 && ((x >> 64) as u64) & 0xf000u64
        == 0x4000u64)) by (bit_vector);
}

/// A fresh segment identifier: the two halves of a random version-4 UUID,
/// low half first. Which UUID it is, is left to chance; that it is one
/// shows in the version and variant bits of the halves.
pub fn uuid_u64_le() -> (ids: (u64, u64))
    ensures
        is_segment_id(ids.0, ids.1),
        is_uuid_v4(join_halves(ids.0, ids.1)),
{
    let x = random_uuid();
    proof {
        lemma_halves_of_uuid_v4(x);
    }
    split_halves(x)
}

} // verus!

//! Tests on `f32` values held by their IEEE 754 bit patterns
//! (`f32::to_bits`): sign in bit 31, exponent in bits 23 to 30, fraction in
//! bits 0 to 22.
use vstd::prelude::*;

verus! {

/// Bit pattern of `0.0`.
pub const ZERO_BITS: u32 = 0x0000_0000;

/// Bit pattern of `0.5`.
pub const HALF_BITS: u32 = 0x3f00_0000;

/// Bit pattern of `1.0`.
pub const ONE_BITS: u32 = 0x3f80_0000;

/// Whether the `f32` with bit pattern `bits` is finite: its exponent field is
/// not all ones (all ones encodes the infinities and NaNs).
pub open spec fn f32_bits_finite(bits: u32) -> bool {
    (bits / 0x80_0000) % 256 != 255
}

/// Whether the `f32` with bit pattern `bits` lies in `0.0..=1.0`. The
/// non-negative values are ordered as their bit patterns, up to `1.0` at
/// `0x3f80_0000`; of the patterns with the sign bit set only negative zero,
/// `0x8000_0000`, is not below zero. NaNs lie in no interval.
pub open spec fn f32_bits_in_unit_interval(bits: u32) -> bool {
    bits <= ONE_BITS || bits == 0x8000_0000
}

/// Whether the `f32` with bit pattern `bits` is finite and greater than zero:
/// the sign bit is clear, the pattern is not `+0.0`, and it lies below
/// `0x7f80_0000` (positive infinity), above which only NaNs follow.
pub open spec fn f32_bits_positive_finite(bits: u32) -> bool {
    0 < bits < 0x7f80_0000
}

/// Whether the `f32` with bit pattern `bits` is finite.
pub fn is_finite_bits(bits: u32) -> (finite: bool)
    ensures
        finite == f32_bits_finite(bits),
{
    let exponent = (bits >> 23u32) & 0xff;
    assert(exponent == (bits / 0x80_0000) % 256) by (bit_vector)
        requires
            exponent == (bits >> 23u32) & 0xff,
    ;
    exponent != 0xff
}

/// Whether the `f32` with bit pattern `bits` is finite and in `0.0..=1.0`.
pub fn is_unit_interval_bits(bits: u32) -> (inside: bool)
    ensures
        inside == (f32_bits_finite(bits) && f32_bits_in_unit_interval(bits)),
{
    assert(bits <= ONE_BITS || bits == 0x8000_0000 ==> (bits / 0x80_0000) % 256 != 255) by (bit_vector);
    bits <= ONE_BITS || bits == 0x8000_0000
}

/// Whether the `f32` with bit pattern `bits` is finite and greater than zero.
pub fn is_positive_finite_bits(bits: u32) -> (positive: bool)
    ensures
        positive == (f32_bits_finite(bits) && f32_bits_positive_finite(bits)),
{
    assert(0 < bits < 0x7f80_0000 ==> (bits / 0x80_0000) % 256 != 255) by (bit_vector);
    0 < bits && bits < 0x7f80_0000
}

} // verus!

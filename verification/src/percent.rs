//! Percentages that a plugin reports. They are double-precision numbers, held here by their bits:
//! the sign, the exponent and the fraction, from the highest bit down.

use vstd::prelude::*;

verus! {

/// The bits of infinity. Of the numbers without a sign, the finite ones have smaller bits.
pub const INFINITY_BITS: u64 = 0x7ff0_0000_0000_0000;

/// The bits of zero with a sign.
pub const NEGATIVE_ZERO_BITS: u64 = 0x8000_0000_0000_0000;

/// The bits of one hundred. Of the numbers without a sign, the smaller ones have smaller bits.
pub const HUNDRED_BITS: u64 = 0x4059_0000_0000_0000;

/// A number with these bits is finite and not negative.
pub open spec fn is_amount(bits: u64) -> bool {
    bits < INFINITY_BITS || bits == NEGATIVE_ZERO_BITS
}

/// A number with these bits is not negative and at most one hundred.
pub open spec fn is_percentage(bits: u64) -> bool {
    bits <= HUNDRED_BITS || bits == NEGATIVE_ZERO_BITS
}

pub fn amount(bits: u64) -> (r: bool)
    ensures
        r == is_amount(bits),
{
    bits < INFINITY_BITS || bits == NEGATIVE_ZERO_BITS
}

pub fn percentage(bits: u64) -> (r: bool)
    ensures
        r == is_percentage(bits),
{
    bits <= HUNDRED_BITS || bits == NEGATIVE_ZERO_BITS
}

/// A percentage is an amount.
pub proof fn percentage_is_amount(bits: u64)
    ensures
        is_percentage(bits) ==> is_amount(bits),
{
}

/// A number is an amount exactly if it has no sign and its exponent is not the highest, or if it is
/// zero with a sign.
pub proof fn amounts_by_exponent(bits: u64)
    ensures
        is_amount(bits) <==> (bits >> 63 == 0 && bits >> 52 != 0x7ff) || bits == 1u64 << 63,
{
    assert((bits < 0x7ff0_0000_0000_0000 || bits == 0x8000_0000_0000_0000) == ((bits >> 63 == 0
        && bits >> 52 != 0x7ff) || bits == 1u64 << 63)) by (bit_vector);
}

/// A number is a percentage exactly if it has no sign and is below 64, or is from 64 to 128 and its
/// fraction is at most 36 of 64, or if it is zero with a sign.
pub proof fn percentages_by_fraction(bits: u64)
    ensures
        is_percentage(bits) <==> bits >> 52 < 0x405 || (bits >> 52 == 0x405 && (bits
            & 0xf_ffff_ffff_ffff) <= 36u64 << 46) || bits == 1u64 << 63,
{
    assert((bits <= 0x4059_0000_0000_0000 || bits == 0x8000_0000_0000_0000) == (bits >> 52 < 0x405
        || (bits >> 52 == 0x405 && (bits & 0xf_ffff_ffff_ffff) <= 36u64 << 46) || bits == 1u64
        << 63)) by (bit_vector);
}

} // verus!

//! Widths, footprints and integer ranges of the numeric field types.

use vstd::arithmetic::power2::{
    lemma2_to64, lemma2_to64_rest, lemma_pow2_strictly_increases, lemma_pow2_unfold, pow2,
};
use vstd::prelude::*;

verus! {

/// Whole bytes that hold `bits` bits: the least `n` with `8 * n >= bits`.
/// A width that is not positive takes no byte.
pub open spec fn bytes_for_bits(bits: int) -> int {
    if bits <= 0 {
        0
    } else {
        (bits + 7) / 8
    }
}

/// Bytes that a numeric field of `bits` bits occupies where `data_min` bytes
/// is the smallest addressable unit: the larger of the two.
pub open spec fn numeric_footprint(bits: int, data_min: u8) -> int {
    if bytes_for_bits(bits) < data_min {
        data_min as int
    } else {
        bytes_for_bits(bits)
    }
}

/// Bits of a fixed-point type whose bit weights run from `2^high` down to `2^low`.
pub open spec fn fixed_width(high: i32, low: i32) -> int {
    high - low + 1
}

/// A value fits in `length` bits as an unsigned integer:
/// `0 <= value <= 2^length - 1`.
pub open spec fn fits_unsigned(value: int, length: u32) -> bool {
    0 <= value < pow2(length as nat)
}

/// A value fits in `length` bits of two's complement:
/// `-2^(length-1) <= value <= 2^(length-1) - 1`. No value fits in zero bits.
pub open spec fn fits_signed(value: int, length: u32) -> bool {
    &&& length >= 1
    &&& -pow2((length - 1) as nat) <= value
    &&& value < pow2((length - 1) as nat)
}

/// `bytes_for_bits` rounds up: it is the least count of bytes that covers the bits.
pub proof fn lemma_bytes_for_bits_is_ceiling(bits: int)
    requires
        bits > 0,
    ensures
        8 * bytes_for_bits(bits) >= bits,
        8 * (bytes_for_bits(bits) - 1) < bits,
{
}

/// Computes `2^exponent` for an exponent below 64.
pub fn power_of_two(exponent: u32) -> (power: u64)
    requires
        exponent < 64,
    ensures
        power == pow2(exponent as nat),
{
    let mut power: u64 = 1;
    let mut done: u32 = 0;
    proof {
        lemma2_to64();
    }
    while done < exponent
        invariant
            done <= exponent < 64,
            power == pow2(done as nat),
        decreases exponent - done,
    {
        proof {
            lemma_pow2_unfold((done + 1) as nat);
            lemma2_to64();
            if done + 1 < 63 {
                lemma_pow2_strictly_increases((done + 1) as nat, 63);
            }
            lemma2_to64_rest();
        }
        power = power * 2;
        done = done + 1;
    }
    power
}

/// Computes the bytes that a numeric field of `bits` bits occupies.
pub fn footprint_of_bits(bits: i64, data_min: u8) -> (bytes: u64)
    ensures
        bytes == numeric_footprint(bits as int, data_min),
{
    let whole: u64 = if bits <= 0 {
        0
    } else {
        let wide: u64 = bits as u64;
        (wide - 1) / 8 + 1
    };
    if whole < data_min as u64 {
        data_min as u64
    } else {
        whole
    }
}

/// Decides whether an unsigned value fits in `length` bits.
pub fn unsigned_fits(value: u64, length: u32) -> (fits: bool)
    ensures
        fits == fits_unsigned(value as int, length),
{
    if length >= 64 {
        proof {
            lemma2_to64();
            if length > 64 {
                lemma_pow2_strictly_increases(64, length as nat);
            }
        }
        true
    } else {
        let limit = power_of_two(length);
        value < limit
    }
}

/// Decides whether a signed value fits in `length` bits of two's complement.
pub fn signed_fits(value: i64, length: u32) -> (fits: bool)
    ensures
        fits == fits_signed(value as int, length),
{
    if length == 0 {
        false
    } else if length >= 64 {
        proof {
            lemma2_to64();
            lemma2_to64_rest();
            if length > 64 {
                lemma_pow2_strictly_increases(63, (length - 1) as nat);
            }
        }
        true
    } else {
        let half = power_of_two(length - 1);
        proof {
            lemma2_to64_rest();
            lemma2_to64();
            if length - 1 < 62 {
                lemma_pow2_strictly_increases((length - 1) as nat, 62);
            }
        }
        if value >= 0 {
            (value as u64) < half
        } else {
            // the magnitude of a negative value, taken without leaving `u64`
            let magnitude: u64 = (-(value + 1)) as u64 + 1;
            magnitude <= half
        }
    }
}

} // verus!

//! Checks of a declared default value against the type of its field.
//!
//! A value belongs to one of three families: strings, integers and
//! floating-point numbers. A string type takes a string, an integer type an
//! integer of either variant, a fixed-point type a floating-point number.

use vstd::arithmetic::power2::{lemma2_to64, lemma2_to64_rest, lemma_pow2_strictly_increases};
use vstd::prelude::*;
use vstd::utf8::encode_utf8;

use crate::memory_map::layout::{fits_signed, fits_unsigned, signed_fits, unsigned_fits};
use crate::memory_map::schema::Value;

verus! {

/// What the check of a default value found.
#[derive(Clone, Copy, Debug, PartialEq, Eq, Structural)]
pub enum Verdict {
    /// There is no value, or the value suits the type.
    Accepted,
    /// The value is of another family than the type.
    Mismatch,
    /// The value is of the right family and does not fit the type.
    OutOfRange,
}

/// The integer that a value of the integer family holds.
pub open spec fn integer_of(value: Value) -> Option<int> {
    match value {
        Value::Unsigned(number) => Some(number as int),
        Value::Signed(number) => Some(number as int),
        _ => None,
    }
}

/// A string value may take at most `length` bytes.
pub open spec fn string_verdict(value: Option<Value>, length: u64) -> Verdict {
    match value {
        None => Verdict::Accepted,
        Some(Value::String(string)) => if encode_utf8(string@).len() > length {
            Verdict::OutOfRange
        } else {
            Verdict::Accepted
        },
        Some(_) => Verdict::Mismatch,
    }
}

/// An integer value must fit in `length` bits as an unsigned integer.
pub open spec fn unsigned_verdict(value: Option<Value>, length: u32) -> Verdict {
    match value {
        None => Verdict::Accepted,
        Some(given) => match integer_of(given) {
            None => Verdict::Mismatch,
            Some(number) => if fits_unsigned(number, length) {
                Verdict::Accepted
            } else {
                Verdict::OutOfRange
            },
        },
    }
}

/// An integer value must fit in `length` bits of two's complement.
pub open spec fn signed_verdict(value: Option<Value>, length: u32) -> Verdict {
    match value {
        None => Verdict::Accepted,
        Some(given) => match integer_of(given) {
            None => Verdict::Mismatch,
            Some(number) => if fits_signed(number, length) {
                Verdict::Accepted
            } else {
                Verdict::OutOfRange
            },
        },
    }
}

/// A floating-point value must not exceed `2^high - 2^low`.
pub open spec fn ufixed_verdict(value: Option<Value>, high: i32, low: i32) -> Verdict {
    match value {
        None => Verdict::Accepted,
        Some(Value::Float(number)) => if number.exceeds_fixed_bound(high, low) {
            Verdict::OutOfRange
        } else {
            Verdict::Accepted
        },
        Some(_) => Verdict::Mismatch,
    }
}

/// A signed fixed-point type takes every floating-point value: its range is
/// not checked.
pub open spec fn sfixed_verdict(value: Option<Value>) -> Verdict {
    match value {
        None => Verdict::Accepted,
        Some(Value::Float(_)) => Verdict::Accepted,
        Some(_) => Verdict::Mismatch,
    }
}

/// Checks a default value against a string type of `length` bytes.
pub fn check_string(value: &Option<Value>, length: u64) -> (verdict: Verdict)
    ensures
        verdict == string_verdict(*value, length),
{
    match value {
        None => Verdict::Accepted,
        Some(Value::String(string)) => {
            let bytes: usize = string.as_str().as_bytes().len();
            if bytes as u64 > length {
                Verdict::OutOfRange
            } else {
                Verdict::Accepted
            }
        },
        Some(_) => Verdict::Mismatch,
    }
}

/// Checks a default value against an unsigned type of `length` bits.
pub fn check_unsigned(value: &Option<Value>, length: u32) -> (verdict: Verdict)
    ensures
        verdict == unsigned_verdict(*value, length),
{
    match value {
        None => Verdict::Accepted,
        Some(Value::Unsigned(number)) => {
            if unsigned_fits(*number, length) {
                Verdict::Accepted
            } else {
                Verdict::OutOfRange
            }
        },
        Some(Value::Signed(number)) => {
            if *number >= 0 && unsigned_fits(*number as u64, length) {
                Verdict::Accepted
            } else {
                Verdict::OutOfRange
            }
        },
        Some(_) => Verdict::Mismatch,
    }
}

/// Checks a default value against a signed type of `length` bits.
pub fn check_signed(value: &Option<Value>, length: u32) -> (verdict: Verdict)
    ensures
        verdict == signed_verdict(*value, length),
{
    match value {
        None => Verdict::Accepted,
        Some(Value::Signed(number)) => {
            if signed_fits(*number, length) {
                Verdict::Accepted
            } else {
                Verdict::OutOfRange
            }
        },
        Some(Value::Unsigned(number)) => {
            let fits = if *number <= i64::MAX as u64 {
                signed_fits(*number as i64, length)
            } else {
                proof {
                    lemma2_to64();
                    lemma2_to64_rest();
                    if 1 <= length && length - 1 < 63 {
                        lemma_pow2_strictly_increases((length - 1) as nat, 63);
                    }
                    if length - 1 > 64 {
                        lemma_pow2_strictly_increases(64, (length - 1) as nat);
                    }
                }
                length >= 65
            };
            if fits {
                Verdict::Accepted
            } else {
                Verdict::OutOfRange
            }
        },
        Some(_) => Verdict::Mismatch,
    }
}

/// Checks a default value against an unsigned fixed-point type.
pub fn check_ufixed(value: &Option<Value>, high: i32, low: i32) -> (verdict: Verdict)
    ensures
        verdict == ufixed_verdict(*value, high, low),
{
    match value {
        None => Verdict::Accepted,
        Some(Value::Float(number)) => {
            if number.is_above_fixed_bound(high, low) {
                Verdict::OutOfRange
            } else {
                Verdict::Accepted
            }
        },
        Some(_) => Verdict::Mismatch,
    }
}

/// Checks a default value against a signed fixed-point type.
pub fn check_sfixed(value: &Option<Value>) -> (verdict: Verdict)
    ensures
        verdict == sfixed_verdict(*value),
{
    match value {
        None => Verdict::Accepted,
        Some(Value::Float(_)) => Verdict::Accepted,
        Some(_) => Verdict::Mismatch,
    }
}

} // verus!

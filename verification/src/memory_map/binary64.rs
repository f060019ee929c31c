//! Double-precision numbers held by their bit pattern, and their exact
//! comparison with the bound of an unsigned fixed-point type.
//!
//! A finite binary64 number is `±m * 2^e` for an integer significand `m` and
//! an integer scale `e`. The bound of a fixed-point type is `2^high - 2^low`.
//! Both are dyadic rationals, so they are compared exactly: every term is
//! multiplied by `2^-base`, where `base` is the least exponent in sight, and
//! the comparison is one of integers.

use vstd::arithmetic::power2::{
    lemma2_to64, lemma2_to64_rest, lemma_pow2_adds, lemma_pow2_pos,
    lemma_pow2_strictly_increases, lemma_pow2_unfold, pow2,
};
use vstd::prelude::*;

use crate::memory_map::layout::power_of_two;

verus! {

/// The sign bit of a binary64 bit pattern.
pub const SIGN_BIT: u64 = 0x8000_0000_0000_0000;

/// `2^52`: the weight of the implicit leading bit of a normal significand.
pub const HIDDEN_BIT: u64 = 0x10_0000_0000_0000;

/// The exponent field that marks infinities and NaNs.
pub const EXPONENT_SPECIAL: u64 = 0x7ff;

/// An IEEE 754 binary64 number, held by its bit pattern.
#[derive(Clone, Copy, Debug, PartialEq, Eq, Structural)]
pub struct Binary64 {
    pub bits: u64,
}

/// How a magnitude stands to a bound.
#[derive(Clone, Copy, Debug, PartialEq, Eq, Structural)]
pub enum Relation {
    Below,
    Same,
    Above,
}

/// The lesser of two integers.
pub open spec fn least(x: int, y: int) -> int {
    if x <= y {
        x
    } else {
        y
    }
}

/// `m * 2^e` taken in units of `2^base`, for `base <= e`.
pub open spec fn scaled(m: int, e: int, base: int) -> int {
    m * pow2((e - base) as nat)
}

/// `2^a - 2^b` taken in units of `2^base`, for `base <= a` and `base <= b`.
pub open spec fn scaled_bound(a: int, b: int, base: int) -> int {
    pow2((a - base) as nat) - pow2((b - base) as nat)
}

/// `m * 2^e > 2^high - 2^low`, for integers of either sign.
pub open spec fn dyadic_exceeds(m: int, e: int, high: int, low: int) -> bool {
    let base = least(e, least(high, low));
    scaled(m, e, base) > scaled_bound(high, low, base)
}

/// How `m * 2^e` stands to `2^a - 2^b`.
pub open spec fn dyadic_relation(m: int, e: int, a: int, b: int) -> Relation {
    let base = least(e, least(a, b));
    if scaled(m, e, base) < scaled_bound(a, b, base) {
        Relation::Below
    } else if scaled(m, e, base) == scaled_bound(a, b, base) {
        Relation::Same
    } else {
        Relation::Above
    }
}

impl Binary64 {
    /// The sign bit is set.
    pub open spec fn negative(self) -> bool {
        self.bits >= SIGN_BIT
    }

    /// The eleven exponent bits.
    pub open spec fn exponent_field(self) -> int {
        (self.bits / HIDDEN_BIT) as int % 0x800
    }

    /// The fifty-two fraction bits.
    pub open spec fn fraction_field(self) -> int {
        (self.bits % HIDDEN_BIT) as int
    }

    /// Not a number.
    pub open spec fn is_nan(self) -> bool {
        self.exponent_field() == EXPONENT_SPECIAL && self.fraction_field() != 0
    }

    /// Plus or minus infinity.
    pub open spec fn is_infinite(self) -> bool {
        self.exponent_field() == EXPONENT_SPECIAL && self.fraction_field() == 0
    }

    /// The integer `m` of a finite number `±m * 2^scale`.
    pub open spec fn significand(self) -> int {
        if self.exponent_field() == 0 {
            self.fraction_field()
        } else {
            HIDDEN_BIT + self.fraction_field()
        }
    }

    /// The exponent `e` of a finite number `±m * 2^e`.
    pub open spec fn scale(self) -> int {
        if self.exponent_field() == 0 {
            -1074
        } else {
            self.exponent_field() - 1075
        }
    }

    /// The significand with the sign of the number.
    pub open spec fn signed_significand(self) -> int {
        if self.negative() {
            -self.significand()
        } else {
            self.significand()
        }
    }

    /// The number is greater than `2^high - 2^low`. A NaN exceeds nothing;
    /// plus infinity exceeds every bound, minus infinity none.
    pub open spec fn exceeds_fixed_bound(self, high: i32, low: i32) -> bool {
        if self.is_nan() {
            false
        } else if self.is_infinite() {
            !self.negative()
        } else {
            dyadic_exceeds(self.signed_significand(), self.scale(), high as int, low as int)
        }
    }

    /// Decides whether the number is greater than `2^high - 2^low`.
    pub fn is_above_fixed_bound(&self, high: i32, low: i32) -> (exceeds: bool)
        ensures
            exceeds == self.exceeds_fixed_bound(high, low),
    {
        let negative = self.bits >= SIGN_BIT;
        let exponent: u64 = (self.bits / HIDDEN_BIT) % 0x800;
        let fraction: u64 = self.bits % HIDDEN_BIT;
        if exponent == EXPONENT_SPECIAL {
            return fraction == 0 && !negative;
        }
        let m: u64 = if exponent == 0 {
            fraction
        } else {
            HIDDEN_BIT + fraction
        };
        let e: i64 = if exponent == 0 {
            -1074
        } else {
            exponent as i64 - 1075
        };
        let high_wide: i64 = high as i64;
        let low_wide: i64 = low as i64;
        let ghost base = least(e as int, least(high as int, low as int));
        proof {
            lemma_pow2_pos((e - base) as nat);
            lemma_pow2_pos((high - base) as nat);
            lemma_pow2_pos((low - base) as nat);
        }
        if m == 0 {
            proof {
                assert(scaled(0, e as int, base) == 0);
                if high < low {
                    lemma_pow2_strictly_increases((high - base) as nat, (low - base) as nat);
                } else if high > low {
                    lemma_pow2_strictly_increases((low - base) as nat, (high - base) as nat);
                }
            }
            high < low
        } else if negative {
            proof {
                assert(scaled(-(m as int), e as int, base) == -scaled(m as int, e as int, base))
                    by (nonlinear_arith);
            }
            if high >= low {
                proof {
                    if high > low {
                        lemma_pow2_strictly_increases((low - base) as nat, (high - base) as nat);
                    }
                    lemma_product_sign(m as int, pow2((e - base) as nat) as int);
                }
                false
            } else {
                let relation = magnitude_relation(m, e, low_wide, high_wide);
                match relation {
                    Relation::Below => true,
                    _ => false,
                }
            }
        } else {
            if high <= low {
                proof {
                    if high < low {
                        lemma_pow2_strictly_increases((high - base) as nat, (low - base) as nat);
                    }
                    lemma_product_sign(m as int, pow2((e - base) as nat) as int);
                }
                true
            } else {
                let relation = magnitude_relation(m, e, high_wide, low_wide);
                match relation {
                    Relation::Above => true,
                    _ => false,
                }
            }
        }
    }
}

/// A product of positive integers is positive.
pub proof fn lemma_product_sign(x: int, y: int)
    by (nonlinear_arith)
    requires
        x > 0,
        y > 0,
    ensures
        x * y > 0,
        x * y >= y,
        x * y >= x,
{
}

/// Multiplying by a positive integer keeps the order.
pub proof fn lemma_product_order(x: int, y: int, z: int)
    by (nonlinear_arith)
    requires
        x <= y,
        z > 0,
    ensures
        x * z <= y * z,
        x < y ==> x * z < y * z,
{
}

/// Powers of two grow with the exponent.
pub proof fn lemma_pow2_grows(e1: nat, e2: nat)
    requires
        e1 <= e2,
    ensures
        pow2(e1) <= pow2(e2),
{
    if e1 < e2 {
        lemma_pow2_strictly_increases(e1, e2);
    }
}

/// Counts the bits of a positive integer below `2^53`.
fn bit_length(m: u64) -> (bits: u32)
    requires
        0 < m < HIDDEN_BIT * 2,
    ensures
        1 <= bits <= 53,
        pow2((bits - 1) as nat) <= m < pow2(bits as nat),
{
    let mut bits: u32 = 0;
    let mut power: u64 = 1;
    proof {
        lemma2_to64();
        lemma2_to64_rest();
    }
    while power <= m
        invariant
            0 < m < HIDDEN_BIT * 2,
            bits <= 53,
            power == pow2(bits as nat),
            bits > 0 ==> pow2((bits - 1) as nat) <= m,
            pow2(53) == 0x20_0000_0000_0000,
        decreases 54 - bits,
    {
        proof {
            lemma_pow2_unfold((bits + 1) as nat);
            if bits >= 53 {
                lemma_pow2_grows(53, bits as nat);
            }
        }
        power = power * 2;
        bits = bits + 1;
    }
    bits
}

/// Decides how `m * 2^e` stands to `2^a - 2^b`, for a positive significand
/// and `a > b`.
fn magnitude_relation(m: u64, e: i64, a: i64, b: i64) -> (relation: Relation)
    requires
        0 < m < HIDDEN_BIT * 2,
        -1074 <= e <= 971,
        i32::MIN <= b < a <= i32::MAX,
    ensures
        relation == dyadic_relation(m as int, e as int, a as int, b as int),
{
    let bits = bit_length(m);
    let top: i64 = e + bits as i64 - 1;
    let ghost base = least(e as int, b as int);
    let ghost unit = pow2((e - base) as nat) as int;
    let ghost upper = pow2((a - base) as nat) as int;
    let ghost lower = pow2((b - base) as nat) as int;
    proof {
        assert(base == least(e as int, least(a as int, b as int)));
        lemma_pow2_pos((e - base) as nat);
        lemma_pow2_pos((a - base) as nat);
        lemma_pow2_pos((b - base) as nat);
        assert(scaled(m as int, e as int, base) == m * unit);
        assert(scaled_bound(a as int, b as int, base) == upper - lower);
    }
    if top >= a {
        proof {
            // m * unit >= upper > upper - lower
            if a <= e {
                lemma_pow2_grows((a - base) as nat, (e - base) as nat);
                lemma_product_sign(m as int, unit);
            } else {
                lemma_pow2_adds((a - e) as nat, (e - base) as nat);
                lemma_pow2_grows((a - e) as nat, (bits - 1) as nat);
                lemma_product_order(pow2((a - e) as nat) as int, m as int, unit);
            }
        }
        Relation::Above
    } else if top <= a - 2 {
        proof {
            // m * unit < 2^(bits + e - base) <= 2^(a - 1 - base) <= upper - lower
            lemma_pow2_adds(bits as nat, (e - base) as nat);
            lemma_product_order(m as int, pow2(bits as nat) as int, unit);
            lemma_pow2_grows((bits + e - base) as nat, (a - 1 - base) as nat);
            lemma_pow2_unfold((a - base) as nat);
            lemma_pow2_grows((b - base) as nat, (a - 1 - base) as nat);
        }
        Relation::Below
    } else {
        // a - e == bits: upper == 2^bits * unit, so
        // m * unit - (upper - lower) == lower - (2^bits - m) * unit
        let full: u64 = power_of_two(bits);
        let gap: u64 = full - m;
        let shift: i64 = b - e;
        proof {
            lemma_pow2_adds(bits as nat, (e - base) as nat);
            assert(upper == full * unit);
            assert(m * unit - (upper - lower) == lower - gap * unit) by (nonlinear_arith)
                requires
                    upper == full * unit,
                    gap == full - m,
            ;
            lemma_pow2_unfold(bits as nat);
            lemma2_to64();
            lemma2_to64_rest();
            lemma_pow2_grows((bits - 1) as nat, 52);
        }
        if shift <= 0 {
            proof {
                assert(lower == 1);
                lemma_product_sign(gap as int, unit);
                if shift < 0 {
                    lemma_pow2_strictly_increases(0, (e - base) as nat);
                }
                if gap > 1 {
                    lemma_product_order(1, gap as int, unit);
                }
            }
            if shift == 0 && gap == 1 {
                Relation::Same
            } else {
                Relation::Below
            }
        } else {
            proof {
                assert(unit == 1);
                assert(gap * unit == gap) by (nonlinear_arith)
                    requires
                        unit == 1,
                ;
            }
            if shift >= 53 {
                proof {
                    lemma_pow2_grows(53, shift as nat);
                }
                Relation::Above
            } else {
                let weight: u64 = power_of_two(shift as u32);
                if weight > gap {
                    Relation::Above
                } else if weight == gap {
                    Relation::Same
                } else {
                    Relation::Below
                }
            }
        }
    }
}

} // verus!

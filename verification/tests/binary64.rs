use vhdl_doc::memory_map::binary64::Binary64;

fn above(x: f64, high: i32, low: i32) -> bool {
    Binary64 { bits: x.to_bits() }.is_above_fixed_bound(high, low)
}

fn pow2(e: i32) -> f64 {
    2f64.powi(e)
}

/// The neighbour of a finite number on the side away from zero.
fn outward(x: f64) -> f64 {
    f64::from_bits(x.to_bits() + 1)
}

/// The neighbour of a finite number other than zero on the side of zero.
fn inward(x: f64) -> f64 {
    f64::from_bits(x.to_bits() - 1)
}

#[test]
fn bound_of_twelve_integer_and_four_fraction_bits() {
    // 2^11 - 2^-4 = 2047.9375
    assert!(!above(2047.9375, 11, -4));
    assert!(above(outward(2047.9375), 11, -4));
    assert!(!above(inward(2047.9375), 11, -4));
    assert!(above(2048.0, 11, -4));
    assert!(!above(0.0, 11, -4));
    assert!(!above(1.5, 11, -4));
    assert!(!above(-1.0, 11, -4));
    assert!(!above(-1.0e300, 11, -4));
}

#[test]
fn numbers_that_are_no_numbers() {
    assert!(!above(f64::NAN, 11, -4));
    assert!(!above(-f64::NAN, 11, -4));
    assert!(!Binary64 { bits: 0x7ff0_0000_0000_0001 }.is_above_fixed_bound(0, 0));
    assert!(!Binary64 { bits: 0xffff_ffff_ffff_ffff }.is_above_fixed_bound(-5, 5));
    assert!(above(f64::INFINITY, 11, -4));
    assert!(above(f64::INFINITY, i32::MAX, i32::MIN));
    assert!(above(f64::INFINITY, i32::MIN, i32::MAX));
    assert!(!above(f64::NEG_INFINITY, 11, -4));
    assert!(!above(f64::NEG_INFINITY, i32::MIN, i32::MAX));
}

#[test]
fn agrees_with_floating_point_where_the_bound_is_exact() {
    for high in -20..20 {
        for low in -20..20 {
            let bound = pow2(high) - pow2(low);
            let mut samples = vec![
                0.0, -0.0, 1.0, -1.0, 0.5, -0.5, 3.0, 1.0e-9, -1.0e-9, 1.0e12, -1.0e12,
                f64::MAX, f64::MIN, f64::MIN_POSITIVE, 5e-324, -5e-324,
            ];
            samples.push(bound);
            if bound != 0.0 {
                samples.push(outward(bound));
                samples.push(inward(bound));
                samples.push(-bound);
                samples.push(bound * 2.0);
                samples.push(bound / 2.0);
            }
            for x in samples {
                assert_eq!(above(x, high, low), x > bound, "{} > 2^{} - 2^{}", x, high, low);
            }
        }
    }
}

#[test]
fn exact_where_floating_point_would_round() {
    // 2^60 - 1 is no double: floating point would round the bound to 2^60
    assert!(above(pow2(60), 60, 0));
    assert!(!above(inward(pow2(60)), 60, 0));
    // the largest double below 2^1000 is 2^1000 - 2^947
    let below = inward(pow2(1000));
    assert!(!above(below, 1000, 900));
    assert!(!above(below, 1000, 946));
    assert!(!above(below, 1000, 947));
    assert!(above(below, 1000, 948));
    assert!(above(below, 1000, 999));
    assert!(above(pow2(1000), 1000, 900));
}

#[test]
fn the_largest_double() {
    // f64::MAX is 2^1024 - 2^971
    assert!(!above(f64::MAX, 1024, 971));
    assert!(!above(f64::MAX, 1024, 970));
    assert!(above(f64::MAX, 1024, 972));
    assert!(above(f64::MAX, 1023, 0));
    assert!(!above(f64::MAX, 1025, 0));
    assert!(!above(f64::MAX, i32::MAX, 0));
    assert!(!above(f64::MAX, i32::MAX, i32::MAX - 1));
    assert!(above(f64::MAX, i32::MAX, i32::MAX));
}

#[test]
fn the_smallest_doubles() {
    let tiny = 5e-324; // 2^-1074
    assert!(!above(tiny, -1073, -1074));
    assert!(above(outward(tiny), -1073, -1074));
    assert!(above(tiny, -1074, -1075));
    assert!(above(tiny, -1075, -1080));
    assert!(above(tiny, -2_000_000, -2_000_001));
    assert!(above(tiny, i32::MIN + 1, i32::MIN));
    assert!(!above(0.0, i32::MIN + 1, i32::MIN));
    assert!(!above(tiny, -1072, -1074));
    // the largest subnormal is 2^-1022 - 2^-1074
    let largest_subnormal = f64::from_bits(0x000f_ffff_ffff_ffff);
    assert!(!above(largest_subnormal, -1022, -1074));
    assert!(above(largest_subnormal, -1022, -1073));
    assert!(above(f64::MIN_POSITIVE, -1022, -1074));
}

#[test]
fn an_empty_range() {
    // high == low: the bound is 0
    assert!(!above(0.0, 3, 3));
    assert!(!above(-0.0, 3, 3));
    assert!(above(5e-324, 3, 3));
    assert!(!above(-5e-324, 3, 3));
    assert!(above(1.0, i32::MIN, i32::MIN));
}

#[test]
fn a_bound_below_zero() {
    // 2^0 - 2^1 = -1
    assert!(!above(-1.0, 0, 1));
    assert!(above(inward(-1.0), 0, 1));
    assert!(!above(outward(-1.0), 0, 1));
    assert!(above(-0.5, 0, 1));
    assert!(!above(-1.5, 0, 1));
    assert!(above(0.0, 0, 1));
    assert!(above(-0.0, 0, 1));
    assert!(above(7.0, 0, 1));
    // 2^-1 - 2^5 = -31.5
    assert!(!above(-31.5, -1, 5));
    assert!(above(-31.0, -1, 5));
    assert!(!above(-32.0, -1, 5));
    assert!(!above(f64::MIN, 0, 1));
    assert!(above(f64::MIN, i32::MIN, i32::MAX));
    // f64::MIN is 2^971 - 2^1024
    assert!(above(f64::MIN, 0, 1025));
    assert!(above(f64::MIN, 0, 1024));
    assert!(above(f64::MIN, 970, 1024));
    assert!(!above(f64::MIN, 971, 1024));
    assert!(!above(f64::MIN, 972, 1024));
}

#[test]
fn small_integers() {
    // 2^3 - 2^0 = 7
    assert!(!above(7.0, 3, 0));
    assert!(above(outward(7.0), 3, 0));
    assert!(!above(inward(7.0), 3, 0));
    assert!(!above(4.0, 3, 0));
    assert!(above(8.0, 3, 0));
    assert!(above(7.5, 3, 0));
    assert!(!above(6.5, 3, 0));
}

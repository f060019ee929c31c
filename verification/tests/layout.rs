use vhdl_doc::memory_map::layout::{footprint_of_bits, power_of_two, signed_fits, unsigned_fits};

#[test]
fn footprint_rounds_bits_up_to_bytes() {
    assert_eq!(footprint_of_bits(1, 0), 1);
    assert_eq!(footprint_of_bits(8, 0), 1);
    assert_eq!(footprint_of_bits(9, 0), 2);
    assert_eq!(footprint_of_bits(16, 1), 2);
    assert_eq!(footprint_of_bits(17, 1), 3);
    assert_eq!(footprint_of_bits(64, 1), 8);
    assert_eq!(footprint_of_bits(u32::MAX as i64, 1), 536_870_912);
}

#[test]
fn footprint_is_no_less_than_data_min() {
    // 12 bits are 2 bytes; with 2 bytes as the least unit, the footprint is 2
    assert_eq!(footprint_of_bits(12, 2), 2);
    assert_eq!(footprint_of_bits(12, 4), 4);
    assert_eq!(footprint_of_bits(8, 4), 4);
    assert_eq!(footprint_of_bits(33, 4), 5);
    assert_eq!(footprint_of_bits(1, 255), 255);
}

#[test]
fn footprint_of_an_empty_width() {
    assert_eq!(footprint_of_bits(0, 0), 0);
    assert_eq!(footprint_of_bits(0, 3), 3);
    assert_eq!(footprint_of_bits(-7, 0), 0);
    assert_eq!(footprint_of_bits(-8, 2), 2);
    assert_eq!(footprint_of_bits(i64::MIN, 1), 1);
}

#[test]
fn footprint_of_the_widest() {
    assert_eq!(footprint_of_bits(i64::MAX, 1), (i64::MAX as u64 - 1) / 8 + 1);
}

#[test]
fn powers_of_two() {
    assert_eq!(power_of_two(0), 1);
    assert_eq!(power_of_two(1), 2);
    assert_eq!(power_of_two(10), 1024);
    assert_eq!(power_of_two(63), 1u64 << 63);
}

#[test]
fn unsigned_range() {
    assert!(unsigned_fits(0, 0));
    assert!(!unsigned_fits(1, 0));
    assert!(unsigned_fits(15, 4));
    assert!(!unsigned_fits(16, 4));
    assert!(!unsigned_fits(20, 4));
    assert!(unsigned_fits(255, 8));
    assert!(!unsigned_fits(256, 8));
    assert!(unsigned_fits((1u64 << 63) - 1, 63));
    assert!(!unsigned_fits(1u64 << 63, 63));
    assert!(unsigned_fits(u64::MAX, 64));
    assert!(unsigned_fits(u64::MAX, 65));
    assert!(unsigned_fits(u64::MAX, u32::MAX));
}

#[test]
fn signed_range() {
    assert!(!signed_fits(0, 0));
    assert!(!signed_fits(-1, 0));
    assert!(signed_fits(0, 1));
    assert!(signed_fits(-1, 1));
    assert!(!signed_fits(1, 1));
    assert!(!signed_fits(-2, 1));
    assert!(signed_fits(127, 8));
    assert!(!signed_fits(128, 8));
    assert!(signed_fits(-128, 8));
    assert!(!signed_fits(-129, 8));
    assert!(signed_fits(i64::MAX, 64));
    assert!(signed_fits(i64::MIN, 64));
    assert!(!signed_fits(i64::MAX, 63));
    assert!(!signed_fits(i64::MIN, 63));
    assert!(signed_fits(-(1i64 << 62), 63));
    assert!(signed_fits((1i64 << 62) - 1, 63));
    assert!(!signed_fits(1i64 << 62, 63));
    assert!(signed_fits(i64::MIN, u32::MAX));
}

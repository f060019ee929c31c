use vhdl_doc::memory_map::binary64::Binary64;
use vhdl_doc::memory_map::schema::Value;
use vhdl_doc::memory_map::validate::{
    check_sfixed, check_signed, check_string, check_ufixed, check_unsigned, Verdict,
};

#[test]
fn no_value_is_accepted() {
    assert_eq!(check_string(&None, 0), Verdict::Accepted);
    assert_eq!(check_unsigned(&None, 0), Verdict::Accepted);
    assert_eq!(check_signed(&None, 0), Verdict::Accepted);
    assert_eq!(check_ufixed(&None, 0, 0), Verdict::Accepted);
    assert_eq!(check_sfixed(&None), Verdict::Accepted);
}

#[test]
fn verdicts_on_strings() {
    let hello = Some(Value::String("hello".to_string()));
    assert_eq!(check_string(&hello, 5), Verdict::Accepted);
    assert_eq!(check_string(&hello, 4), Verdict::OutOfRange);
    assert_eq!(check_string(&hello, 3), Verdict::OutOfRange);
    assert_eq!(check_string(&Some(Value::Unsigned(1)), 3), Verdict::Mismatch);
}

#[test]
fn verdicts_on_integers() {
    assert_eq!(check_unsigned(&Some(Value::Unsigned(20)), 4), Verdict::OutOfRange);
    assert_eq!(check_unsigned(&Some(Value::Unsigned(15)), 4), Verdict::Accepted);
    assert_eq!(check_unsigned(&Some(Value::Signed(15)), 4), Verdict::Accepted);
    assert_eq!(check_unsigned(&Some(Value::Signed(-1)), 64), Verdict::OutOfRange);
    assert_eq!(check_signed(&Some(Value::Signed(-8)), 4), Verdict::Accepted);
    assert_eq!(check_signed(&Some(Value::Signed(8)), 4), Verdict::OutOfRange);
    assert_eq!(check_signed(&Some(Value::Unsigned(7)), 4), Verdict::Accepted);
    assert_eq!(check_signed(&Some(Value::Unsigned(1 << 63)), 64), Verdict::OutOfRange);
    assert_eq!(check_signed(&Some(Value::Unsigned(1 << 63)), 65), Verdict::Accepted);
    assert_eq!(check_signed(&Some(Value::String(String::new())), 4), Verdict::Mismatch);
}

#[test]
fn verdicts_on_fixed_point() {
    let number = |x: f64| Some(Value::Float(Binary64 { bits: x.to_bits() }));
    assert_eq!(check_ufixed(&number(7.0), 3, 0), Verdict::Accepted);
    assert_eq!(check_ufixed(&number(7.25), 3, 0), Verdict::OutOfRange);
    assert_eq!(check_ufixed(&Some(Value::Signed(1)), 3, 0), Verdict::Mismatch);
    assert_eq!(check_sfixed(&number(7.25)), Verdict::Accepted);
    assert_eq!(check_sfixed(&Some(Value::Unsigned(1))), Verdict::Mismatch);
}

use std::str::FromStr;

use bigdecimal::BigDecimal;
use num_bigint::BigInt;

use edgeprint::numbers::{format_bigint, format_decimal, i64_text};

#[test]
fn bigint_long_zero_run_compresses() {
    let v = BigInt::from(1230000000i64);
    assert_eq!(format_bigint(&v.to_string()), "123e7n");
}

#[test]
fn bigint_five_zeros_stay_literal() {
    let v = BigInt::from(100000i64);
    assert_eq!(format_bigint(&v.to_string()), "100000n");
}

#[test]
fn bigint_zero_and_plain() {
    assert_eq!(format_bigint(&BigInt::from(0).to_string()), "0n");
    assert_eq!(format_bigint(&BigInt::from(12345).to_string()), "12345n");
}

#[test]
fn bigint_negative_compresses() {
    let v = BigInt::from(-1230000000i64);
    assert_eq!(format_bigint(&v.to_string()), "-123e7n");
}

#[test]
fn decimal_small_fraction_compresses() {
    let v = BigDecimal::from_str("0.0000001").unwrap();
    assert_eq!(format_decimal(&v.to_plain_string()), "0.1e-6");
}

#[test]
fn decimal_plain_fraction() {
    let v = BigDecimal::from_str("10.5").unwrap();
    assert_eq!(format_decimal(&v.to_plain_string()), "10.5n");
}

#[test]
fn decimal_integral_long_zero_run() {
    let v = BigDecimal::from_str("1000000").unwrap();
    assert_eq!(format_decimal(&v.to_plain_string()), "1.0e6n");
}

#[test]
fn decimal_integral_short_zero_run() {
    let v = BigDecimal::from_str("100").unwrap();
    assert_eq!(format_decimal(&v.to_plain_string()), "100.0n");
}

#[test]
fn decimal_four_fraction_zeros_stay_literal() {
    assert_eq!(format_decimal("0.00001"), "0.00001n");
}

#[test]
fn machine_int_text() {
    assert_eq!(i64_text(0), "0");
    assert_eq!(i64_text(42), "42");
    assert_eq!(i64_text(-42), "-42");
    assert_eq!(i64_text(i64::MAX), "9223372036854775807");
    assert_eq!(i64_text(i64::MIN), "-9223372036854775808");
}

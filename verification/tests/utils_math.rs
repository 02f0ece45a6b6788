use sundials_core::sundials_band::ROW;
use sundials_core::sundials_math::{
    pow_checkint, pow_issignaling, pow_zeroinfnan, SUNIpowerI, SUNMAX, SUNMIN,
};
use sundials_core::sundials_utils::{atoi, atol, sunIsNullOrEmpty};

#[test]
fn powers() {
    assert_eq!(SUNIpowerI(2, 10), 1024);
    assert_eq!(SUNIpowerI(3, 0), 1);
}

#[test]
fn integer_powers_edge_cases() {
    assert_eq!(SUNIpowerI(-2, 3), -8);
    assert_eq!(SUNIpowerI(-2, 31), i32::MIN);
    assert_eq!(SUNIpowerI(5, -3), 1);
    assert_eq!(SUNIpowerI(0, 0), 1);
    assert_eq!(SUNIpowerI(0, 4), 0);
    assert_eq!(SUNIpowerI(-1, 7), -1);
}

#[test]
fn min_and_max() {
    assert_eq!(SUNMIN(3, 7), 3);
    assert_eq!(SUNMIN(7, 3), 3);
    assert_eq!(SUNMAX(3, 7), 7);
    assert_eq!(SUNMAX(-1i64, -9i64), -1);
}

#[test]
fn atoi_and_atol_follow_c() {
    assert_eq!(atoi("42"), 42);
    assert_eq!(atoi("  \t-17xyz"), -17);
    assert_eq!(atoi("+8"), 8);
    assert_eq!(atoi("abc"), 0);
    assert_eq!(atoi(""), 0);
    assert_eq!(atoi("- 5"), 0);
    assert_eq!(atol("12345678901"), 12345678901);
    assert_eq!(atol("99999999999999999999"), i64::MAX);
    assert_eq!(atol("-99999999999999999999"), i64::MIN);
    assert_eq!(atol("-9223372036854775808"), i64::MIN);
    /* atoi keeps the low 32 bits of the long value */
    assert_eq!(atoi("12345678901"), 12345678901i64 as i32);
}

#[test]
fn null_or_empty() {
    assert!(sunIsNullOrEmpty(None));
    assert!(sunIsNullOrEmpty(Some("")));
    assert!(!sunIsNullOrEmpty(Some("x")));
}

#[test]
fn checkint_classifies_doubles() {
    assert_eq!(pow_checkint(3.0f64.to_bits()), 1);
    assert_eq!(pow_checkint(4.0f64.to_bits()), 2);
    assert_eq!(pow_checkint(1.0f64.to_bits()), 1);
    assert_eq!(pow_checkint(0.5f64.to_bits()), 0);
    assert_eq!(pow_checkint(2.5f64.to_bits()), 0);
    assert_eq!(pow_checkint((-7.0f64).to_bits()), 1);
    assert_eq!(pow_checkint(1e300f64.to_bits()), 2);
    assert_eq!(pow_checkint(9007199254740993.0f64.to_bits()), 2);
}

#[test]
fn signaling_and_special_patterns() {
    assert!(pow_issignaling(0x7ff0000000000001));
    assert!(!pow_issignaling(f64::NAN.to_bits()));
    assert!(!pow_issignaling(f64::INFINITY.to_bits()));
    assert!(pow_zeroinfnan(0));
    assert!(pow_zeroinfnan((-0.0f64).to_bits()));
    assert!(pow_zeroinfnan(f64::INFINITY.to_bits()));
    assert!(pow_zeroinfnan(f64::NAN.to_bits()));
    assert!(!pow_zeroinfnan(1.0f64.to_bits()));
    assert!(!pow_zeroinfnan(5e-324f64.to_bits()));
}

#[test]
fn band_row_index() {
    assert_eq!(ROW(5, 3, 2), 4);
    assert_eq!(ROW(0, 2, 2), 0);
}

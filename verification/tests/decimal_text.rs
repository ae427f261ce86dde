use gyroflow_core::decimal::{parse_decimal_str, Decimal, NumberForm};

fn d(negative: bool, digits: u64, exponent: i32) -> Option<Decimal> {
    Some(Decimal { negative, digits, exponent, form: NumberForm::Finite })
}

fn special(negative: bool, form: NumberForm) -> Option<Decimal> {
    Some(Decimal { negative, digits: 0, exponent: 0, form })
}

#[test]
fn decimal_notation_is_read_exactly() {
    assert_eq!(parse_decimal_str("1.613"), d(false, 1613, -3));
    assert_eq!(parse_decimal_str("-0.015"), d(true, 15, -3));
    assert_eq!(parse_decimal_str("+12"), d(false, 12, 0));
    assert_eq!(parse_decimal_str(".5"), d(false, 5, -1));
    assert_eq!(parse_decimal_str("5."), d(false, 5, 0));
    assert_eq!(parse_decimal_str("1e3"), d(false, 1, 3));
    assert_eq!(parse_decimal_str("2.5E-2"), d(false, 25, -3));
    assert_eq!(parse_decimal_str("18446744073709551615"), d(false, u64::MAX, 0));
    assert_eq!(parse_decimal_str("000000000000000000000000012"), d(false, 12, 0));
}

#[test]
fn other_text_is_not_a_number() {
    assert_eq!(parse_decimal_str(""), None);
    assert_eq!(parse_decimal_str("."), None);
    assert_eq!(parse_decimal_str("e5"), None);
    assert_eq!(parse_decimal_str("1e"), None);
    assert_eq!(parse_decimal_str("1.2.3"), None);
    assert_eq!(parse_decimal_str(" 1"), None);
    assert_eq!(parse_decimal_str("infin"), None);
    assert_eq!(parse_decimal_str("nana"), None);
    assert_eq!(parse_decimal_str("+-1"), None);
}

#[test]
fn infinities_and_not_a_number_are_read_in_any_case() {
    assert_eq!(parse_decimal_str("inf"), special(false, NumberForm::Infinite));
    assert_eq!(parse_decimal_str("-Infinity"), special(true, NumberForm::Infinite));
    assert_eq!(parse_decimal_str("+INF"), special(false, NumberForm::Infinite));
    assert_eq!(parse_decimal_str("NaN"), special(false, NumberForm::NotANumber));
    assert_eq!(parse_decimal_str("-nan"), special(true, NumberForm::NotANumber));
    assert!(parse_decimal_str("inf").unwrap().is_positive());
    assert!(!parse_decimal_str("-inf").unwrap().is_positive());
    assert!(!parse_decimal_str("nan").unwrap().is_positive());
    assert!(!parse_decimal_str("nan").unwrap().is_zero());
}

#[test]
fn long_digits_round_to_nineteen_significant_digits() {
    assert_eq!(parse_decimal_str("99999999999999999999"), d(false, 10000000000000000000, 1));
    assert_eq!(parse_decimal_str("123456789012345678905"), d(false, 1234567890123456789, 2));
    assert_eq!(parse_decimal_str("1234567890123456788500"), d(false, 1234567890123456788, 3));
    assert_eq!(parse_decimal_str("1234567890123456789500"), d(false, 1234567890123456790, 3));
    assert_eq!(parse_decimal_str("12345678901234567885001"), d(false, 1234567890123456789, 4));
    assert_eq!(parse_decimal_str("0.0070163863000000000000001"), d(false, 7016386300000000000, -21));
}

#[test]
fn exponents_beyond_i32_are_kept_at_its_bounds() {
    assert_eq!(parse_decimal_str("1e99999999999"), d(false, 1, i32::MAX));
    assert_eq!(parse_decimal_str("-2.5e-99999999999999999999999"), d(true, 25, i32::MIN));
    assert_eq!(parse_decimal_str("0e400"), d(false, 0, 400));
}

#[test]
fn numbers_too_small_for_binary64_read_as_zero() {
    let tiny = parse_decimal_str("1e-400").unwrap();
    assert!(tiny.is_zero());
    assert!(!tiny.is_positive());
    let below_half = parse_decimal_str("2.4703282292062327e-324").unwrap();
    assert!(below_half.is_zero());
    let above_half = parse_decimal_str("2.4703282292062328e-324").unwrap();
    assert!(above_half.is_positive());
    assert!(!above_half.is_zero());
    assert!(parse_decimal_str("5e-324").unwrap().is_positive());
    assert!(parse_decimal_str("1e-300").unwrap().is_positive());
    assert!(!parse_decimal_str("0.0").unwrap().is_positive());
    assert_eq!(2.4703282292062327e-324f64, 0.0);
    assert!(2.4703282292062328e-324f64 > 0.0);
}

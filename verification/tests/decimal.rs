use paper_sage::decimal::parse_thousandths;
use paper_sage::decimal::push_hundredths;
use paper_sage::decimal::push_thousandths;
use paper_sage::decimal::scale;
use paper_sage::text::chars_of;
use paper_sage::text::string_of;

fn parse(text: &str) -> Option<i64> {
    parse_thousandths(&chars_of(text))
}

#[test]
fn whole_numbers_and_fractions() {
    assert_eq!(parse("0"), Some(0));
    assert_eq!(parse("90"), Some(90_000));
    assert_eq!(parse("87.5"), Some(87_500));
    assert_eq!(parse("0.8"), Some(800));
    assert_eq!(parse("83.0"), Some(83_000));
    assert_eq!(parse("-12.345"), Some(-12_345));
    assert_eq!(parse("-0"), Some(0));
    assert_eq!(parse("007"), Some(7_000));
}

#[test]
fn exponents_move_the_point() {
    assert_eq!(parse("1e2"), Some(100_000));
    assert_eq!(parse("1E2"), Some(100_000));
    assert_eq!(parse("1e+2"), Some(100_000));
    assert_eq!(parse("1.5e-1"), Some(150));
    assert_eq!(parse("1e-3"), Some(1));
    assert_eq!(parse("1e-7"), Some(0));
    assert_eq!(parse("1e-999"), Some(0));
    assert_eq!(parse("0e999"), Some(0));
    assert_eq!(parse("9.223372036854775e15"), Some(9_223_372_036_854_775_000));
}

#[test]
fn the_nearest_thousandth_is_taken() {
    assert_eq!(parse("0.0004"), Some(0));
    assert_eq!(parse("0.0005"), Some(1));
    assert_eq!(parse("0.00149"), Some(1));
    assert_eq!(parse("0.0015"), Some(2));
    assert_eq!(parse("-0.0015"), Some(-2));
    assert_eq!(parse("99.9995"), Some(100_000));
}

#[test]
fn what_is_no_number_is_refused() {
    for text in ["", "-", ".", "1.", ".5", "1e", "1e+", "1e-", "+1", "1 ", " 1", "1x", "1.2.3", "1e2e3", "--1", "abc", "1,5", "NaN", "inf"] {
        assert_eq!(parse(text), None);
    }
}

#[test]
fn what_is_too_long_or_too_large_is_refused() {
    assert_eq!(parse("9.22337203685477580e15"), Some(9_223_372_036_854_775_800));
    assert_eq!(parse("9.22337203685477581e15"), None);
    assert_eq!(parse("-9.22337203685477580e15"), Some(-9_223_372_036_854_775_800));
    assert_eq!(parse("9223372036854775.807"), None);
    assert_eq!(parse("1e16"), None);
    assert_eq!(parse("1e999"), None);
    assert_eq!(parse("1234567890123456789"), None);
    assert_eq!(parse("0.1234567890123456789"), None);
    assert_eq!(parse("1e1000"), None);
    assert_eq!(parse("0e1000"), None);
}

#[test]
fn scaling_by_powers_of_ten() {
    assert_eq!(scale(0, 2000), Some(0));
    assert_eq!(scale(5, 0), Some(5));
    assert_eq!(scale(5, 3), Some(5000));
    assert_eq!(scale(5, -1), Some(1));
    assert_eq!(scale(4, -1), Some(0));
    assert_eq!(scale(999_999_999_999_999_999, -18), Some(1));
    assert_eq!(scale(499_999_999_999_999_999, -18), Some(0));
    assert_eq!(scale(1, 19), None);
    assert_eq!(scale(1, 18), Some(1_000_000_000_000_000_000));
    assert_eq!(scale(10, 18), None);
    assert_eq!(scale(999_999_999_999_999_999, -2000), Some(0));
    assert_eq!(scale(u64::MAX, i64::MIN), Some(0));
    assert_eq!(scale(u64::MAX, -19), Some(2));
    assert_eq!(scale(u64::MAX, -20), Some(0));
    assert_eq!(scale(u64::MAX, 0), None);
    assert_eq!(scale(u64::MAX, -1), Some(1_844_674_407_370_955_162));
    assert_eq!(scale(1, i64::MAX), None);
}

#[test]
fn scores_are_written_with_two_digits() {
    let mut buffer = Vec::new();
    push_hundredths(&mut buffer, 83_000);
    buffer.push(' ');
    push_hundredths(&mut buffer, 730);
    buffer.push(' ');
    push_hundredths(&mut buffer, 87_555);
    buffer.push(' ');
    push_hundredths(&mut buffer, 87_554);
    buffer.push(' ');
    push_hundredths(&mut buffer, -1_005);
    buffer.push(' ');
    push_hundredths(&mut buffer, 0);
    buffer.push(' ');
    push_hundredths(&mut buffer, 9_995);
    assert_eq!(string_of(&buffer), "83.00 0.73 87.56 87.55 -1.01 0.00 10.00");
}

#[test]
fn extreme_scores_are_written_out() {
    let mut buffer = Vec::new();
    push_hundredths(&mut buffer, i64::MIN);
    buffer.push(' ');
    push_thousandths(&mut buffer, i64::MIN);
    buffer.push(' ');
    push_thousandths(&mut buffer, i64::MAX);
    assert_eq!(
        string_of(&buffer),
        "-9223372036854775.81 -9223372036854775.808 9223372036854775.807"
    );
}

#[test]
fn thousandths_are_written_with_three_digits() {
    let mut buffer = Vec::new();
    push_thousandths(&mut buffer, 1100);
    buffer.push(' ');
    push_thousandths(&mut buffer, 7);
    buffer.push(' ');
    push_thousandths(&mut buffer, -45);
    assert_eq!(string_of(&buffer), "1.100 0.007 -0.045");
}

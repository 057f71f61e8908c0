use holdem::number::{digit_of, digit_text, digits_text, format_number, parse_number};

#[test]
fn numbers_are_written_in_decimal() {
    assert_eq!(format_number(0), "0");
    assert_eq!(format_number(7), "7");
    assert_eq!(format_number(10), "10");
    assert_eq!(format_number(-1), "-1");
    assert_eq!(format_number(1234567890), "1234567890");
    assert_eq!(format_number(-9876543210), "-9876543210");
    assert_eq!(format_number(i64::MAX), "9223372036854775807");
    assert_eq!(format_number(i64::MIN), "-9223372036854775808");
}

#[test]
fn digits_of_natural_numbers() {
    assert_eq!(digits_text(0), "0");
    assert_eq!(digits_text(9), "9");
    assert_eq!(digits_text(100), "100");
    assert_eq!(digits_text(u64::MAX), "18446744073709551615");
    for digit in 0..10u64 {
        assert_eq!(digit_text(digit), digit.to_string());
    }
}

#[test]
fn decimal_numbers_are_read() {
    assert_eq!(parse_number("0"), Some(0));
    assert_eq!(parse_number("-0"), Some(0));
    assert_eq!(parse_number("42"), Some(42));
    assert_eq!(parse_number("-42"), Some(-42));
    assert_eq!(parse_number("007"), Some(7));
    assert_eq!(parse_number("9223372036854775807"), Some(i64::MAX));
    assert_eq!(parse_number("-9223372036854775808"), Some(i64::MIN));
}

#[test]
fn other_texts_are_not_numbers() {
    assert_eq!(parse_number(""), None);
    assert_eq!(parse_number("-"), None);
    assert_eq!(parse_number("--1"), None);
    assert_eq!(parse_number("+1"), None);
    assert_eq!(parse_number("1-"), None);
    assert_eq!(parse_number("1.0"), None);
    assert_eq!(parse_number("1e3"), None);
    assert_eq!(parse_number(" 1"), None);
    assert_eq!(parse_number("12a"), None);
    assert_eq!(parse_number("\u{0661}"), None);
    assert_eq!(parse_number("9223372036854775808"), None);
    assert_eq!(parse_number("-9223372036854775809"), None);
    assert_eq!(parse_number("99999999999999999999999999"), None);
}

#[test]
fn written_numbers_read_back() {
    let samples = [0, 1, -1, 9, 10, -10, 99, 100, 12345, -67890, i64::MAX, i64::MIN, i64::MAX - 1];
    for number in samples {
        assert_eq!(parse_number(&format_number(number)), Some(number));
        assert_eq!(format_number(number), number.to_string());
    }
}

#[test]
fn digits_are_told_from_other_characters() {
    for (digit, c) in "0123456789".chars().enumerate() {
        assert_eq!(digit_of(c), Some(digit as u64));
    }
    assert_eq!(digit_of('a'), None);
    assert_eq!(digit_of('-'), None);
    assert_eq!(digit_of(' '), None);
}

use text_combat::text::{i64_to_decimal, parse_index, u64_to_decimal};

#[test]
fn decimal_of_single_digits() {
    assert_eq!(u64_to_decimal(0), "0");
    assert_eq!(u64_to_decimal(7), "7");
    assert_eq!(u64_to_decimal(9), "9");
}

#[test]
fn decimal_of_several_digits() {
    assert_eq!(u64_to_decimal(10), "10");
    assert_eq!(u64_to_decimal(1234567890), "1234567890");
    assert_eq!(u64_to_decimal(u64::MAX), "18446744073709551615");
}

#[test]
fn decimal_agrees_with_the_standard_formatting() {
    for n in [0u64, 1, 9, 10, 11, 99, 100, 101, 4096, 65535, 1_000_000, u32::MAX as u64] {
        assert_eq!(u64_to_decimal(n), format!("{}", n));
    }
    for n in [0i64, -1, 1, -10, 255, -256, i32::MIN as i64, i32::MAX as i64, i64::MIN, i64::MAX] {
        assert_eq!(i64_to_decimal(n), format!("{}", n));
    }
}

#[test]
fn decimal_of_negative_numbers() {
    assert_eq!(i64_to_decimal(-1), "-1");
    assert_eq!(i64_to_decimal(-120), "-120");
    assert_eq!(i64_to_decimal(i64::MIN), "-9223372036854775808");
}

#[test]
fn parse_index_reads_digits() {
    assert_eq!(parse_index("0"), Some(0));
    assert_eq!(parse_index("42"), Some(42));
    assert_eq!(parse_index("007"), Some(7));
}

#[test]
fn parse_index_takes_one_leading_plus() {
    assert_eq!(parse_index("+5"), Some(5));
    assert_eq!(parse_index("++5"), None);
    assert_eq!(parse_index("+"), None);
}

#[test]
fn parse_index_refuses_what_is_no_number() {
    assert_eq!(parse_index(""), None);
    assert_eq!(parse_index("-1"), None);
    assert_eq!(parse_index("12a"), None);
    assert_eq!(parse_index(" 1"), None);
    assert_eq!(parse_index("1 "), None);
    assert_eq!(parse_index("one"), None);
    assert_eq!(parse_index("1.5"), None);
}

#[test]
fn parse_index_refuses_what_does_not_fit() {
    assert_eq!(parse_index("99999999999999999999999999"), None);
    let max = format!("{}", usize::MAX);
    assert_eq!(parse_index(&max), Some(usize::MAX));
    let over = format!("{}0", usize::MAX);
    assert_eq!(parse_index(&over), None);
}

#[test]
fn parse_index_agrees_with_the_standard_parser() {
    for text in ["0", "1", "+1", "-0", "", "+", "10", "0010", "a", "1a", "４", "18446744073709551616"] {
        assert_eq!(parse_index(text), text.parse::<usize>().ok(), "on {:?}", text);
    }
}

#[test]
fn parse_index_reads_back_what_decimal_writes() {
    for n in [0usize, 1, 9, 10, 999, 1000, 123456] {
        assert_eq!(parse_index(&u64_to_decimal(n as u64)), Some(n));
    }
}

use rtl433_parser::decimal::{format_decimal, parse_decimal};

#[test]
fn parse_decimal_reads_plain_digits() {
    assert_eq!(parse_decimal("0"), Some(0));
    assert_eq!(parse_decimal("7"), Some(7));
    assert_eq!(parse_decimal("1681569176"), Some(1681569176));
    assert_eq!(parse_decimal("0000000000000000000000042"), Some(42));
}

#[test]
fn parse_decimal_reads_a_sign() {
    assert_eq!(parse_decimal("+15"), Some(15));
    assert_eq!(parse_decimal("-15"), Some(-15));
    assert_eq!(parse_decimal("-0"), Some(0));
}

#[test]
fn parse_decimal_reaches_both_ends_of_the_range() {
    assert_eq!(parse_decimal("9223372036854775807"), Some(i64::MAX));
    assert_eq!(parse_decimal("-9223372036854775808"), Some(i64::MIN));
    assert_eq!(parse_decimal("9223372036854775808"), None);
    assert_eq!(parse_decimal("-9223372036854775809"), None);
    assert_eq!(parse_decimal("99999999999999999999999999"), None);
}

#[test]
fn parse_decimal_refuses_what_is_no_number() {
    for text in ["", "+", "-", " 1", "1 ", "1_000", "12a", "a12", "1.5", "--1", "+-1", "0x10", "١٢٣", "1\u{e9}"] {
        assert_eq!(parse_decimal(text), None, "{:?}", text);
    }
}

#[test]
fn parse_decimal_agrees_with_the_standard_library() {
    let texts = [
        "0", "-0", "+0", "1", "-1", "+1", "10", "-10", "007", "-007", "+007", "123456789",
        "9223372036854775806", "9223372036854775807", "9223372036854775808",
        "-9223372036854775807", "-9223372036854775808", "-9223372036854775809",
        "18446744073709551616", "", "+", "-", "1e3", "1.0", " 1", "1\n", "\t1", "1-", "1+",
    ];
    for text in texts {
        assert_eq!(parse_decimal(text), text.parse::<i64>().ok(), "{:?}", text);
    }
    let mut n: i64 = 1;
    for _ in 0..62 {
        for candidate in [n - 1, n, n + 1, -n, -n - 1] {
            let text = candidate.to_string();
            assert_eq!(parse_decimal(&text), Some(candidate));
        }
        n *= 2;
    }
}

#[test]
fn format_decimal_writes_without_leading_zeros() {
    assert_eq!(format_decimal(0), "0");
    assert_eq!(format_decimal(9), "9");
    assert_eq!(format_decimal(10), "10");
    assert_eq!(format_decimal(47), "47");
    assert_eq!(format_decimal(-47), "-47");
    assert_eq!(format_decimal(1000), "1000");
}

#[test]
fn format_decimal_reaches_both_ends_of_the_range() {
    assert_eq!(format_decimal(i64::MAX), "9223372036854775807");
    assert_eq!(format_decimal(i64::MIN), "-9223372036854775808");
}

#[test]
fn format_decimal_agrees_with_the_standard_library() {
    let mut n: i64 = 1;
    for _ in 0..62 {
        for candidate in [n - 1, n, n + 1, -n, -n - 1] {
            assert_eq!(format_decimal(candidate), candidate.to_string());
        }
        n *= 2;
    }
}

#[test]
fn what_format_decimal_writes_parse_decimal_reads_back() {
    for n in [0, 1, -1, 9, 10, 99, 100, -100, 1681569176, i64::MAX, i64::MIN] {
        assert_eq!(parse_decimal(&format_decimal(n)), Some(n));
    }
}

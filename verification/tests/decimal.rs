use server_status::decimal::{decimal, decimal2, parse_i64, parse_u64, parse_unsigned};

#[test]
fn numerals_are_written() {
    assert_eq!(decimal(0), "0");
    assert_eq!(decimal(1234567890), "1234567890");
    assert_eq!(decimal(u64::MAX), "18446744073709551615");
    assert_eq!(decimal2(0), "00");
    assert_eq!(decimal2(7), "07");
    assert_eq!(decimal2(10), "10");
    assert_eq!(decimal2(123), "123");
}

#[test]
fn unsigned_numerals_are_read() {
    assert_eq!(parse_u64("18446744073709551615"), Some(u64::MAX));
    assert_eq!(parse_u64("18446744073709551616"), None);
    assert_eq!(parse_u64("+5"), Some(5));
    assert_eq!(parse_u64("007"), Some(7));
    assert_eq!(parse_u64(""), None);
    assert_eq!(parse_u64("+"), None);
    assert_eq!(parse_u64("-1"), None);
    assert_eq!(parse_u64(" 1"), None);
    assert_eq!(parse_u64("1a"), None);
    assert_eq!(parse_u64("٣"), None);
    assert_eq!(parse_unsigned("28", 28), Some(28));
    assert_eq!(parse_unsigned("29", 28), None);
}

#[test]
fn signed_numerals_are_read() {
    assert_eq!(parse_i64("-9223372036854775808"), Some(i64::MIN));
    assert_eq!(parse_i64("-9223372036854775809"), None);
    assert_eq!(parse_i64("9223372036854775807"), Some(i64::MAX));
    assert_eq!(parse_i64("9223372036854775808"), None);
    assert_eq!(parse_i64("-0"), Some(0));
    assert_eq!(parse_i64("+12"), Some(12));
    assert_eq!(parse_i64("-"), None);
    assert_eq!(parse_i64("--1"), None);
    assert_eq!(parse_i64(""), None);
}

#[test]
fn numerals_agree_with_std() {
    for s in ["0", "00", "+0", "-0", "+-1", "1e3", "1_000", "12 ", "٤", "99999999999999999999"] {
        assert_eq!(parse_u64(s), s.parse::<u64>().ok(), "{s}");
        assert_eq!(parse_i64(s), s.parse::<i64>().ok(), "{s}");
    }
}

#[test]
fn what_is_written_is_read_back() {
    for n in [0, 9, 10, 99, 100, 86399, u32::MAX as u64, u64::MAX - 1, u64::MAX] {
        assert_eq!(parse_u64(&decimal(n)), Some(n));
    }
}

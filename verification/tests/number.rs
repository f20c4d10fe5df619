use sysfacts::number::{decimal, parse_unsigned};

#[test]
fn parse_reads_plain_digits() {
    assert_eq!(parse_unsigned("2400000"), Some(2400000));
    assert_eq!(parse_unsigned("0"), Some(0));
    assert_eq!(parse_unsigned("007"), Some(7));
    assert_eq!(parse_unsigned("+7"), Some(7));
}

#[test]
fn parse_knows_the_largest_number() {
    assert_eq!(parse_unsigned("4294967295"), Some(u32::MAX));
    assert_eq!(parse_unsigned("4294967296"), None);
    assert_eq!(parse_unsigned("99999999999999999999999999"), None);
    assert_eq!(parse_unsigned("00000000004294967295"), Some(u32::MAX));
}

#[test]
fn parse_turns_down_what_is_no_number() {
    assert_eq!(parse_unsigned(""), None);
    assert_eq!(parse_unsigned("+"), None);
    assert_eq!(parse_unsigned("++1"), None);
    assert_eq!(parse_unsigned("-1"), None);
    assert_eq!(parse_unsigned("12a"), None);
    assert_eq!(parse_unsigned(" 1"), None);
    assert_eq!(parse_unsigned("1 "), None);
    assert_eq!(parse_unsigned("1\n"), None);
    assert_eq!(parse_unsigned("\u{661}"), None);
}

#[test]
fn parse_agrees_with_std() {
    let samples = [
        "", "+", "-", "0", "+0", "-0", "1", "42", "4294967295", "4294967296", "1e3", "0x10", "\u{661}\u{662}",
        "12 kB", "+-1", "1+", "000", "+000123",
    ];
    for s in samples {
        assert_eq!(parse_unsigned(s), s.parse::<u32>().ok(), "{:?}", s);
    }
}

#[test]
fn decimal_writes_without_leading_zeros() {
    assert_eq!(decimal(0), "0");
    assert_eq!(decimal(7), "7");
    assert_eq!(decimal(10), "10");
    assert_eq!(decimal(16000), "16000");
    assert_eq!(decimal(u64::MAX), "18446744073709551615");
}

#[test]
fn decimal_is_read_back() {
    let samples = [0u32, 1, 9, 10, 99, 100, 2400000, 16000000, u32::MAX];
    for n in samples {
        assert_eq!(parse_unsigned(&decimal(n as u64)), Some(n));
        assert_eq!(decimal(n as u64), n.to_string());
    }
}

use shell_core::number::parse_int;

#[test]
fn parse_int_reads_plain_numbers() {
    assert_eq!(parse_int("42"), Some(42));
    assert_eq!(parse_int("0"), Some(0));
    assert_eq!(parse_int("7"), Some(7));
    assert_eq!(parse_int("255"), Some(255));
    assert_eq!(parse_int("1234567890"), Some(1234567890));
}

#[test]
fn parse_int_reads_a_sign() {
    assert_eq!(parse_int("-7"), Some(-7));
    assert_eq!(parse_int("+5"), Some(5));
    assert_eq!(parse_int("-0"), Some(0));
    assert_eq!(parse_int("+0"), Some(0));
}

#[test]
fn parse_int_allows_leading_zeros() {
    assert_eq!(parse_int("007"), Some(7));
    assert_eq!(parse_int("-0010"), Some(-10));
    assert_eq!(parse_int("00000000000000000000001"), Some(1));
    assert_eq!(parse_int("0000000000002147483647"), Some(2147483647));
}

#[test]
fn parse_int_keeps_to_the_range() {
    assert_eq!(parse_int("2147483647"), Some(i32::MAX));
    assert_eq!(parse_int("2147483648"), None);
    assert_eq!(parse_int("+2147483648"), None);
    assert_eq!(parse_int("-2147483648"), Some(i32::MIN));
    assert_eq!(parse_int("-2147483649"), None);
    assert_eq!(parse_int("99999999999999999999999999999"), None);
    assert_eq!(parse_int("-99999999999999999999999999999"), None);
    assert_eq!(parse_int("21474836470"), None);
}

#[test]
fn parse_int_refuses_what_is_no_number() {
    for text in [
        "", "-", "+", "notanumber", "abc", "12a", "a12", "1 2", " 1", "1 ", "--1", "+-1", "1-",
        "1.0", "0x10", "1e3", "\u{663}", "1\u{a0}", "-+", "++1",
    ] {
        assert_eq!(parse_int(text), None, "{:?}", text);
    }
}

#[test]
fn parse_int_agrees_with_std() {
    for text in [
        "", "-", "+", "0", "-0", "+0", "42", "-42", "+42", "007", "2147483647", "2147483648",
        "-2147483648", "-2147483649", "4294967296", "notanumber", "12a", " 12", "12 ", "1_000",
        "\u{ff11}", "9223372036854775807", "-9223372036854775809", "00000000000", "-00000000001",
    ] {
        assert_eq!(parse_int(text), text.parse::<i32>().ok(), "{:?}", text);
    }
}

#[test]
fn parse_int_reads_what_was_written() {
    for value in -3000..3000 {
        assert_eq!(parse_int(&format!("{}", value)), Some(value));
    }
    for value in [i32::MIN, i32::MIN + 1, -65536, 65535, 1 << 30, i32::MAX - 1, i32::MAX] {
        assert_eq!(parse_int(&format!("{}", value)), Some(value));
        assert_eq!(parse_int(&format!("{:+}", value)), Some(value));
    }
}

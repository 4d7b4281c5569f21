use steamlocate::text::{decimal_text, join, parse_digits, parse_unsigned, str_eq};

#[test]
fn reading_numbers() {
    assert_eq!(parse_unsigned("0", u64::MAX), Some(0));
    assert_eq!(parse_unsigned("42", u64::MAX), Some(42));
    assert_eq!(parse_unsigned("+42", u64::MAX), Some(42));
    assert_eq!(parse_unsigned("00042", u64::MAX), Some(42));
    assert_eq!(parse_unsigned("18446744073709551615", u64::MAX), Some(u64::MAX));
    assert_eq!(parse_unsigned("18446744073709551616", u64::MAX), None);
    assert_eq!(parse_unsigned("99999999999999999999999", u64::MAX), None);
    assert_eq!(parse_unsigned("4294967295", 4294967295), Some(4294967295));
    assert_eq!(parse_unsigned("4294967296", 4294967295), None);
    assert_eq!(parse_unsigned("5", 5), Some(5));
    assert_eq!(parse_unsigned("6", 5), None);
    assert_eq!(parse_unsigned("10", 5), None);
    assert_eq!(parse_unsigned("0", 0), Some(0));
    assert_eq!(parse_unsigned("", u64::MAX), None);
    assert_eq!(parse_unsigned("+", u64::MAX), None);
    assert_eq!(parse_unsigned("++1", u64::MAX), None);
    assert_eq!(parse_unsigned("-1", u64::MAX), None);
    assert_eq!(parse_unsigned("1 ", u64::MAX), None);
    assert_eq!(parse_unsigned(" 1", u64::MAX), None);
    assert_eq!(parse_unsigned("1_000", u64::MAX), None);
    assert_eq!(parse_unsigned("0x10", u64::MAX), None);
    assert_eq!(parse_unsigned("\u{661}", u64::MAX), None);
    assert_eq!(parse_digits(b"ab12", 2, u64::MAX), Some(12));
    assert_eq!(parse_digits(b"ab12", 4, u64::MAX), None);
    assert_eq!(parse_digits(b"ab12", 5, u64::MAX), None);
    assert_eq!(parse_digits(b"+12", 0, u64::MAX), None);
}

#[test]
fn writing_numbers() {
    assert_eq!(decimal_text(0), "0");
    assert_eq!(decimal_text(9), "9");
    assert_eq!(decimal_text(10), "10");
    assert_eq!(decimal_text(4000), "4000");
    assert_eq!(decimal_text(u64::MAX), "18446744073709551615");
    for number in [0, 1, 99, 100, 12345678901234567890] {
        assert_eq!(parse_unsigned(&decimal_text(number), u64::MAX), Some(number));
    }
}

#[test]
fn joining_and_comparing() {
    assert_eq!(join("/a", "b"), "/a/b");
    assert_eq!(join("", "b"), "/b");
    assert_eq!(join("C:\\Steam", "steamapps"), "C:\\Steam/steamapps");
    assert!(str_eq("", ""));
    assert!(str_eq("gr\u{fc}n", "gr\u{fc}n"));
    assert!(!str_eq("a", "A"));
    assert!(!str_eq("a", "ab"));
    assert!(!str_eq("ab", "a"));
    assert!(!str_eq("ab", "ac"));
}

use treasure_trove::number::{digit_of, is_digit_char, push_decimal, read_decimal, read_signed};
use treasure_trove::text::chars_of;

fn signed(s: &str) -> Option<i64> {
    let chars = chars_of(s);
    read_signed(&chars, 0, chars.len())
}

fn written(n: i64) -> String {
    let mut out = String::new();
    push_decimal(&mut out, n);
    out
}

#[test]
fn read_signed_plain_numbers() {
    assert_eq!(signed("0"), Some(0));
    assert_eq!(signed("42"), Some(42));
    assert_eq!(signed("007"), Some(7));
}

#[test]
fn read_signed_with_sign() {
    assert_eq!(signed("-42"), Some(-42));
    assert_eq!(signed("+42"), Some(42));
    assert_eq!(signed("-0"), Some(0));
}

#[test]
fn read_signed_at_the_limits() {
    assert_eq!(signed("9223372036854775807"), Some(i64::MAX));
    assert_eq!(signed("-9223372036854775808"), Some(i64::MIN));
    assert_eq!(signed("9223372036854775808"), None);
    assert_eq!(signed("-9223372036854775809"), None);
    assert_eq!(signed("99999999999999999999999999999999999999999999"), None);
}

#[test]
fn read_signed_refuses_what_is_no_number() {
    for s in ["", "+", "-", "--1", "+-1", "1 ", " 1", "1_000", "12a", "a12", "1.5", "\u{663}"] {
        assert_eq!(signed(s), None, "{:?}", s);
    }
}

#[test]
fn read_signed_agrees_with_std_parse() {
    let samples = [
        "", "0", "-", "+", "+0", "-1", "1", "10", "0010", "9223372036854775807",
        "9223372036854775808", "-9223372036854775808", "-9223372036854775809", "1e3", "0x10",
        " 5", "5 ", "5\n", "\u{ff11}\u{ff12}", "--5", "18446744073709551616",
    ];
    for s in samples {
        assert_eq!(signed(s), s.parse::<i64>().ok(), "{:?}", s);
    }
}

#[test]
fn read_signed_of_a_slice() {
    let chars = chars_of("id=-17;");
    assert_eq!(read_signed(&chars, 3, 6), Some(-17));
    assert_eq!(read_signed(&chars, 3, 7), None);
    assert_eq!(read_signed(&chars, 4, 4), None);
}

#[test]
fn read_decimal_respects_the_limit() {
    let chars = chars_of("2147483648");
    assert_eq!(read_decimal(&chars, 0, 10, 2147483647), None);
    assert_eq!(read_decimal(&chars, 0, 10, 2147483648), Some(2147483648));
    assert_eq!(read_decimal(&chars, 0, 9, 2147483647), Some(214748364));
    assert_eq!(read_decimal(&chars, 0, 0, 2147483647), None);
    assert_eq!(read_decimal(&chars, 0, 1, 1), None);
    assert_eq!(read_decimal(&chars, 1, 2, 1), Some(1));
}

#[test]
fn read_decimal_refuses_signs_and_letters() {
    let chars = chars_of("+1-2x3");
    assert_eq!(read_decimal(&chars, 0, 2, 100), None);
    assert_eq!(read_decimal(&chars, 2, 4, 100), None);
    assert_eq!(read_decimal(&chars, 3, 6, 100), None);
    assert_eq!(read_decimal(&chars, 5, 6, 100), Some(3));
}

#[test]
fn push_decimal_agrees_with_to_string() {
    let samples = [
        0, 1, 9, 10, 11, 99, 100, 101, 12345, -1, -9, -10, -12345, i64::MAX, i64::MIN,
        i64::MAX - 1, i64::MIN + 1, 2147483647, -2147483648, 1000000000000,
    ];
    for n in samples {
        assert_eq!(written(n), n.to_string());
    }
}

#[test]
fn push_decimal_appends() {
    let mut out = String::from("n=");
    push_decimal(&mut out, 30);
    push_decimal(&mut out, -4);
    assert_eq!(out, "n=30-4");
}

#[test]
fn digits_are_the_ten_ascii_digits() {
    for d in 0u8..10 {
        let c = digit_of(d);
        assert_eq!(c, (b'0' + d) as char);
        assert!(is_digit_char(c));
    }
    assert!(!is_digit_char('a'));
    assert!(!is_digit_char('/'));
    assert!(!is_digit_char(':'));
    assert!(!is_digit_char('\u{663}'));
}

#[test]
fn what_is_written_reads_back() {
    for n in [0u64, 1, 9, 10, 99, 100, 2147483647, 9223372036854775807] {
        let text = written(n as i64);
        let chars = chars_of(&text);
        assert_eq!(read_decimal(&chars, 0, chars.len(), u64::MAX), Some(n));
        assert_eq!(read_signed(&chars, 0, chars.len()), Some(n as i64));
    }
    for n in [-1i64, -10, -2147483648, i64::MIN] {
        assert_eq!(signed(&written(n)), Some(n));
    }
}

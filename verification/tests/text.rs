use circadian::number::{parse_unsigned_chars, push_decimal, IntErrorKind};
use circadian::text::{chars_of, split_chars, string_of, trim_matches_char, trim_whitespace};

fn chars(s: &str) -> Vec<char> {
    s.chars().collect()
}

#[test]
fn parse_unsigned_values() {
    assert_eq!(parse_unsigned_chars(&chars("42"), 100), Ok(42));
    assert_eq!(parse_unsigned_chars(&chars("+7"), 100), Ok(7));
    assert_eq!(parse_unsigned_chars(&chars(""), 100), Err(IntErrorKind::Empty));
    assert_eq!(parse_unsigned_chars(&chars("+"), 100), Err(IntErrorKind::InvalidDigit));
    assert_eq!(parse_unsigned_chars(&chars("-1"), 100), Err(IntErrorKind::InvalidDigit));
    assert_eq!(parse_unsigned_chars(&chars("101"), 100), Err(IntErrorKind::PosOverflow));
    assert_eq!(parse_unsigned_chars(&chars("4294967295"), 4294967295), Ok(4294967295));
    assert_eq!(parse_unsigned_chars(&chars("4294967296"), 4294967295), Err(IntErrorKind::PosOverflow));
    assert_eq!(parse_unsigned_chars(&chars("99999999999x"), 4294967295), Err(IntErrorKind::PosOverflow));
    assert_eq!(parse_unsigned_chars(&chars("9x9"), 4294967295), Err(IntErrorKind::InvalidDigit));
}

#[test]
fn parse_unsigned_agrees_with_std() {
    for s in ["0", "12", "+3", "", "+", "-", "-4", "a", "4294967295", "4294967296", " 1", "1 "] {
        let std = s.parse::<u32>().ok().map(|v| v as u64);
        assert_eq!(parse_unsigned_chars(&chars(s), u32::MAX as u64).ok(), std, "{}", s);
    }
}

#[test]
fn decimal_digits() {
    let mut v = Vec::new();
    push_decimal(&mut v, 0);
    assert_eq!(string_of(&v), "0");
    let mut v = chars("x=");
    push_decimal(&mut v, 1234567890123);
    assert_eq!(string_of(&v), "x=1234567890123");
}

#[test]
fn split_fields() {
    let f = split_chars(&chars("a,,b,"), ',');
    let f: Vec<String> = f.iter().map(|x| string_of(x)).collect();
    assert_eq!(f, vec!["a", "", "b", ""]);
    let f = split_chars(&chars(""), ',');
    assert_eq!(f.len(), 1);
    assert!(f[0].is_empty());
}

#[test]
fn trims() {
    assert_eq!(string_of(&trim_matches_char(&chars("ssabss"), 's')), "ab");
    assert_eq!(string_of(&trim_matches_char(&chars("sss"), 's')), "");
    assert_eq!(string_of(&trim_whitespace(&chars(" \t a b \u{3000}\n"))), "a b");
    assert_eq!(string_of(&trim_whitespace(&chars("   "))), "");
}

#[test]
fn chars_round_trip() {
    assert_eq!(string_of(&chars_of("héllo")), "héllo");
}

#[test]
fn decimal_then_parse_gives_back_the_number() {
    for n in [0u64, 7, 10, 99, 4294967295, 18446744073709551615] {
        let mut v = Vec::new();
        push_decimal(&mut v, n);
        assert_eq!(parse_unsigned_chars(&v, u64::MAX), Ok(n));
    }
}

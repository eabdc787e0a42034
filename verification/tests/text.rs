use garlaunch::text::{chars_eq, chars_of, parse_u64, str_eq, string_from, trim_chars, u64_to_decimal};

#[test]
fn decimal_forms() {
    assert_eq!(u64_to_decimal(0), "0");
    assert_eq!(u64_to_decimal(7), "7");
    assert_eq!(u64_to_decimal(1234567890), "1234567890");
    assert_eq!(u64_to_decimal(u64::MAX), "18446744073709551615");
}

fn parse(s: &str) -> Option<u64> {
    parse_u64(&chars_of(s))
}

#[test]
fn parses_unsigned_numbers_like_std() {
    for s in ["0", "42", "+42", "0007", "18446744073709551615", "", "+", "-1", "1a", " 1", "18446744073709551616"] {
        assert_eq!(parse(s), s.parse::<u64>().ok(), "{:?}", s);
    }
}

#[test]
fn trims_unicode_whitespace() {
    let t = trim_chars(&chars_of("\u{3000} \tabc d\r\n\u{a0}"));
    assert_eq!(string_from(&t), "abc d");
    assert_eq!(string_from(&trim_chars(&chars_of("   "))), "");
    for s in ["  x  ", "\u{85}y\u{2028}", "z", "\u{200b}w"] {
        assert_eq!(string_from(&trim_chars(&chars_of(s))), s.trim());
    }
}

#[test]
fn compares_strings() {
    assert!(str_eq("abc", "abc"));
    assert!(!str_eq("abc", "abd"));
    assert!(!str_eq("abc", "ab"));
    assert!(chars_eq(&['a'], &['a']));
}

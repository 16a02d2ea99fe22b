use backend::auth::jwt::{token_expiry, TOKEN_LIFETIME_SECS};
use backend::text::{
    chars_eq, chars_of, contains_chars, digit_value_exec, occurs_at_exec, parse_unsigned_exec,
    push_decimal, push_str, string_of, u64_to_decimal,
};

#[test]
fn decimal_text() {
    for n in [0u64, 7, 10, 12345, u64::MAX] {
        assert_eq!(u64_to_decimal(n), n.to_string());
    }
    let mut s = "n=".to_string();
    push_decimal(&mut s, 42);
    push_str(&mut s, "!");
    assert_eq!(s, "n=42!");
}

#[test]
fn parsing_agrees_with_from_str_radix() {
    let samples = ["0", "42", "+7", "-1", "", "+", "ff", "FF", "1a", "18446744073709551615", "18446744073709551616", "4294967296", "0042"];
    for s in samples {
        let cs: Vec<char> = s.chars().collect();
        assert_eq!(parse_unsigned_exec(&cs, 10, u64::MAX), u64::from_str_radix(s, 10).ok(), "{:?} base 10", s);
        assert_eq!(parse_unsigned_exec(&cs, 16, u64::MAX), u64::from_str_radix(s, 16).ok(), "{:?} base 16", s);
        assert_eq!(
            parse_unsigned_exec(&cs, 10, u32::MAX as u64),
            u32::from_str_radix(s, 10).ok().map(|v| v as u64),
            "{:?} as u32",
            s
        );
    }
    assert_eq!(digit_value_exec('b', 16), Some(11));
    assert_eq!(digit_value_exec('b', 10), None);
}

#[test]
fn char_helpers() {
    let a = chars_of("abcabc");
    assert_eq!(string_of(&a), "abcabc");
    assert!(chars_eq(&a, &chars_of("abcabc")));
    assert!(!chars_eq(&a, &chars_of("abc")));
    assert!(occurs_at_exec(&a, &chars_of("ca"), 2));
    assert!(!occurs_at_exec(&a, &chars_of("ca"), 3));
    assert!(contains_chars(&a, &chars_of("bca")));
    assert!(!contains_chars(&a, &chars_of("cc")));
}

#[test]
fn token_expiry_is_seven_days_later() {
    assert_eq!(TOKEN_LIFETIME_SECS, 7 * 24 * 3600);
    assert_eq!(token_expiry(1_700_000_000), 1_700_000_000 + 604_800);
}

use wittgensteinsourcerer::text::{
    chars_of, contains_str, decimal_string, first_line_of, parse_u8_str, same_text, trim_bounds,
};

#[test]
fn parse_u8_accepts_plain_and_plus_signed_numbers() {
    assert_eq!(parse_u8_str("75"), Some(75));
    assert_eq!(parse_u8_str("0"), Some(0));
    assert_eq!(parse_u8_str("255"), Some(255));
    assert_eq!(parse_u8_str("+7"), Some(7));
    assert_eq!(parse_u8_str("007"), Some(7));
}

#[test]
fn parse_u8_rejects_what_std_rejects() {
    for s in ["", "+", "-1", "256", "12a", "a12", " 1", "999999999999", "++1", "1.0"] {
        assert_eq!(parse_u8_str(s), None, "{s:?}");
        assert_eq!(parse_u8_str(s), s.parse::<u8>().ok(), "{s:?}");
    }
}

#[test]
fn parse_u8_agrees_with_std_on_every_byte() {
    for q in 0..=255u8 {
        assert_eq!(parse_u8_str(&q.to_string()), Some(q));
    }
}

#[test]
fn decimal_string_writes_numerals() {
    assert_eq!(decimal_string(0), "0");
    assert_eq!(decimal_string(9), "9");
    assert_eq!(decimal_string(10), "10");
    assert_eq!(decimal_string(2000), "2000");
    assert_eq!(decimal_string(u32::MAX), "4294967295");
}

#[test]
fn first_line_follows_str_lines() {
    assert_eq!(first_line_of("a\nb"), Some("a".to_string()));
    assert_eq!(first_line_of("a\r\nb"), Some("a".to_string()));
    assert_eq!(first_line_of("abc"), Some("abc".to_string()));
    assert_eq!(first_line_of("\nx"), Some(String::new()));
    assert_eq!(first_line_of(""), None);
    for s in ["a\nb", "a\r\nb", "abc", "\nx", "", "x\n", "one\r\ntwo\nthree"] {
        assert_eq!(first_line_of(s).as_deref(), s.lines().next(), "{s:?}");
    }
}

#[test]
fn contains_finds_substrings() {
    assert!(contains_str("Ms-101 (WL)", "(WL)"));
    assert!(contains_str("abc", ""));
    assert!(!contains_str("(W L)", "(WL)"));
    assert!(!contains_str("WL", "(WL)"));
}

#[test]
fn trim_bounds_match_str_trim() {
    for s in ["  F\n", "F", "", "   ", "\u{a0}x y\u{3000}", "\tab\r\n"] {
        let v = chars_of(s);
        let (lo, hi) = trim_bounds(&v);
        let trimmed: String = v[lo..hi].iter().collect();
        assert_eq!(trimmed, s.trim(), "{s:?}");
    }
}

#[test]
fn same_text_compares_characters() {
    assert!(same_text("Ts-309", "Ts-309"));
    assert!(!same_text("Ts-309", "Ts-3090"));
    assert!(!same_text("ts-309", "Ts-309"));
}

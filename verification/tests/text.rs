use zxzedesk::text::{
    chars_of, char_is_white_space, contains_char, parse_unsigned, remove_white_space, text_contains,
    text_equals, text_starts_with, to_decimal, to_decimal_zero_padded, to_upper_hex4,
    utf8_len_is,
};

#[test]
fn decimal_rendering() {
    assert_eq!(to_decimal(0), "0");
    assert_eq!(to_decimal(305), "305");
    assert_eq!(to_decimal(u64::MAX), u64::MAX.to_string());
}

#[test]
fn zero_padded_rendering() {
    assert_eq!(to_decimal_zero_padded(5, 3), "005");
    assert_eq!(to_decimal_zero_padded(123_456, 6), "123456");
    assert_eq!(to_decimal_zero_padded(1_234_567, 6), "1234567");
    assert_eq!(to_decimal_zero_padded(42, 6), format!("{:06}", 42));
}

#[test]
fn upper_hex_rendering() {
    assert_eq!(to_upper_hex4(0), "0000");
    assert_eq!(to_upper_hex4(0xAB), "00AB");
    assert_eq!(to_upper_hex4(0xBEEF), "BEEF");
    for n in [1u16, 0x0F0F, 0x1234, 0xFFFF] {
        assert_eq!(to_upper_hex4(n), format!("{:04X}", n));
    }
}

#[test]
fn parsing_follows_str_parse() {
    for s in ["0", "42", "+42", "0065535", "65535", "65536", "", "+", "-1", "-0", "4a", " 4", "١٢", "++1"] {
        assert_eq!(parse_unsigned(s, u16::MAX as u64), s.parse::<u16>().ok().map(|v| v as u64), "{}", s);
        assert_eq!(parse_unsigned(s, u64::MAX), s.parse::<u64>().ok(), "{}", s);
    }
    assert_eq!(parse_unsigned("18446744073709551615", u64::MAX), Some(u64::MAX));
    assert_eq!(parse_unsigned("18446744073709551616", u64::MAX), None);
}

#[test]
fn parse_decimal_roundtrip_law_on_values() {
    for n in [0u64, 9, 10, 99_999, 123_456, u64::MAX] {
        assert_eq!(parse_unsigned(&to_decimal(n), u64::MAX), Some(n));
    }
}

#[test]
fn white_space_matches_char_is_whitespace() {
    for u in 0u32..0x3100 {
        if let Some(c) = char::from_u32(u) {
            assert_eq!(char_is_white_space(c), c.is_whitespace(), "{:x}", u);
        }
    }
}

#[test]
fn white_space_removal() {
    assert_eq!(remove_white_space("  a b \t\n"), "ab");
    assert_eq!(remove_white_space("\u{3000}x\u{2028}y"), "xy");
    assert_eq!(remove_white_space("1 2  3"), "123");
    assert_eq!(remove_white_space("a\tb"), "ab");
    assert_eq!(remove_white_space(" \t "), "");
    assert_eq!(remove_white_space(""), "");
}

#[test]
fn searches() {
    assert!(contains_char("a:b", ':'));
    assert!(!contains_char("ab", ':'));
    assert!(text_contains("an error here", "error"));
    assert!(text_contains("abc", ""));
    assert!(!text_contains("err", "error"));
    assert!(text_starts_with("mouse_move", "mouse"));
    assert!(!text_starts_with("mous", "mouse"));
    assert!(text_equals("key_down", "key_down"));
    assert!(!text_equals("key_down", "key_up"));
}

#[test]
fn utf8_length() {
    assert!(utf8_len_is("123456", 6));
    assert!(utf8_len_is("é", 2));
    assert!(!utf8_len_is("é", 1));
    assert!(utf8_len_is("", 0));
    assert!(utf8_len_is("€😀", 7));
}

#[test]
fn characters_of_text() {
    assert_eq!(chars_of("aé😀"), vec!['a', 'é', '😀']);
}

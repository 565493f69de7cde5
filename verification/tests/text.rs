use rustshot::text::{
    concatenated, eq_ignore_ascii_case, parse_u8, trim, u64_to_decimal, u8_to_decimal,
};

#[test]
fn trimming_removes_unicode_white_space_at_both_ends() {
    assert_eq!(trim("\u{3000} a b \t\n"), "a b");
    assert_eq!(trim("   "), "");
    assert_eq!(trim("x"), "x");
}

#[test]
fn bytes_parse_like_the_standard_library() {
    for text in ["0", "255", "+7", "007", "256", "", "+", "-1", "1x", " 1"] {
        assert_eq!(parse_u8(text), text.parse::<u8>().ok(), "{text}");
    }
}

#[test]
fn decimal_text_round_trips() {
    for value in [0_u8, 9, 10, 99, 100, 255] {
        assert_eq!(u8_to_decimal(value), value.to_string());
        assert_eq!(parse_u8(&u8_to_decimal(value)), Some(value));
    }
    assert_eq!(u64_to_decimal(u64::MAX), u64::MAX.to_string());
}

#[test]
fn ascii_case_is_ignored_only_for_ascii() {
    assert!(eq_ignore_ascii_case("JPEG", "jpeg"));
    assert!(!eq_ignore_ascii_case("jpg", "jpeg"));
    assert!(!eq_ignore_ascii_case("É", "é"));
    assert_eq!(concatenated("ab", "cd"), "abcd");
}

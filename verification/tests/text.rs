use liischte::text::{
    format_i64, format_two_digits, format_u64, parse_i64, parse_u32, parse_u64, split_char,
    str_eq, trim,
};

#[test]
fn parse_u64_accepts_plain_numbers() {
    assert_eq!(parse_u64("0"), Some(0));
    assert_eq!(parse_u64("42"), Some(42));
    assert_eq!(parse_u64("18446744073709551615"), Some(u64::MAX));
}

#[test]
fn parse_u64_rejects_garbage() {
    assert_eq!(parse_u64(""), None);
    assert_eq!(parse_u64("4a2"), None);
    assert_eq!(parse_u64("-1"), None);
    assert_eq!(parse_u64(" 7"), None);
}

#[test]
fn parse_u64_rejects_overflow() {
    assert_eq!(parse_u64("18446744073709551616"), None);
    assert_eq!(parse_u64("99999999999999999999999"), None);
}

#[test]
fn parse_u32_bounds() {
    assert_eq!(parse_u32("4294967295"), Some(u32::MAX));
    assert_eq!(parse_u32("4294967296"), None);
}

#[test]
fn parse_i64_signs() {
    assert_eq!(parse_i64("15"), Some(15));
    assert_eq!(parse_i64("-15"), Some(-15));
    assert_eq!(parse_i64("-9223372036854775808"), Some(i64::MIN));
    assert_eq!(parse_i64("9223372036854775807"), Some(i64::MAX));
    assert_eq!(parse_i64("9223372036854775808"), None);
    assert_eq!(parse_i64("-9223372036854775809"), None);
    assert_eq!(parse_i64("-"), None);
    assert_eq!(parse_i64("--3"), None);
}

#[test]
fn trim_strips_whitespace() {
    assert_eq!(trim("  Battery\n"), "Battery");
    assert_eq!(trim("\t \r\n"), "");
    assert_eq!(trim("x"), "x");
    assert_eq!(trim("a b"), "a b");
}

#[test]
fn split_keeps_empty_segments() {
    let parts = split_char("a,,b", ',');
    assert_eq!(parts, vec!["a".to_string(), "".to_string(), "b".to_string()]);
    assert_eq!(split_char("", ','), vec!["".to_string()]);
    assert_eq!(split_char("xyz", ','), vec!["xyz".to_string()]);
    assert_eq!(split_char("a|b|c", '|'), vec!["a".to_string(), "b".to_string(), "c".to_string()]);
}

#[test]
fn formatting_is_decimal() {
    assert_eq!(format_u64(0), "0");
    assert_eq!(format_u64(907), "907");
    assert_eq!(format_u64(u64::MAX), "18446744073709551615");
    assert_eq!(format_i64(-45), "-45");
    assert_eq!(format_i64(0), "0");
    assert_eq!(format_i64(i64::MIN), "-9223372036854775808");
    assert_eq!(format_two_digits(7), "07");
    assert_eq!(format_two_digits(59), "59");
}

#[test]
fn string_comparison_is_by_content() {
    assert!(str_eq("abc", "abc"));
    assert!(!str_eq("abc", "abd"));
    assert!(!str_eq("abc", "ab"));
}

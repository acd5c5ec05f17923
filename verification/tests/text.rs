use shogitest::cli::parse_cpu_list;
use shogitest::text::{
    decimal_string, eq_ignore_ascii_case, is_float_literal_str, parse_i32, parse_u32, parse_u64,
    parse_usize, push_str, split_ascii_whitespace, split_once, starts_with, str_eq, strip_prefix,
    trim_str,
};

#[test]
fn parses_unsigned_integers_as_from_str_does() {
    assert_eq!(parse_u64("0"), Some(0));
    assert_eq!(parse_u64("+42"), Some(42));
    assert_eq!(parse_u64("18446744073709551615"), Some(u64::MAX));
    assert_eq!(parse_u64("18446744073709551616"), None);
    assert_eq!(parse_u64(""), None);
    assert_eq!(parse_u64("+"), None);
    assert_eq!(parse_u64("-1"), None);
    assert_eq!(parse_u64("1 "), None);
    assert_eq!(parse_u32("4294967295"), Some(u32::MAX));
    assert_eq!(parse_u32("4294967296"), None);
    assert_eq!(parse_usize("007"), Some(7));
    for s in ["0", "+9", "123456", "99999999999999999999", "x1", ""] {
        assert_eq!(parse_u64(s), s.parse::<u64>().ok());
    }
}

#[test]
fn parses_signed_integers_as_from_str_does() {
    assert_eq!(parse_i32("-2147483648"), Some(i32::MIN));
    assert_eq!(parse_i32("2147483647"), Some(i32::MAX));
    assert_eq!(parse_i32("2147483648"), None);
    assert_eq!(parse_i32("-2147483649"), None);
    assert_eq!(parse_i32("-"), None);
    assert_eq!(parse_i32("+5"), Some(5));
    for s in ["-0", "-17", "300", "+-1", "--1", "12a"] {
        assert_eq!(parse_i32(s), s.parse::<i32>().ok());
    }
}

#[test]
fn compares_and_splits_strings() {
    assert!(str_eq("abc", "abc"));
    assert!(!str_eq("abc", "abd"));
    assert!(starts_with("option.Hash", "option."));
    assert!(!starts_with("opt", "option."));
    assert_eq!(strip_prefix("option.Hash", "option."), Some("Hash"));
    assert_eq!(strip_prefix("Hash", "option."), None);
    assert_eq!(split_once("a=b=c", '='), Some(("a", "b=c")));
    assert_eq!(split_once("abc", '='), None);
    assert_eq!(split_once("=", '='), Some(("", "")));
}

#[test]
fn compares_ascii_letters_without_case() {
    assert!(eq_ignore_ascii_case("USI_Ponder", "usi_ponder"));
    assert!(!eq_ignore_ascii_case("Hash", "Hush"));
    assert!(!eq_ignore_ascii_case("Hash", "Hash1"));
    assert!(!eq_ignore_ascii_case("É", "é"));
}

#[test]
fn trims_unicode_whitespace() {
    assert_eq!(trim_str("  id name X \r\n"), "id name X");
    assert_eq!(trim_str("\u{3000}a\u{a0}"), "a");
    assert_eq!(trim_str(" \t "), "");
    for s in ["", "x", " x y ", "\u{85}z\u{2028}"] {
        assert_eq!(trim_str(s), s.trim());
    }
}

#[test]
fn splits_words_at_ascii_whitespace() {
    assert_eq!(
        split_ascii_whitespace("  info depth 10\tscore cp 5 "),
        vec!["info", "depth", "10", "score", "cp", "5"]
    );
    assert!(split_ascii_whitespace("   ").is_empty());
    let s = "a\u{a0}b c";
    assert_eq!(split_ascii_whitespace(s), s.split_ascii_whitespace().collect::<Vec<_>>());
}

#[test]
fn writes_decimal_numbers() {
    assert_eq!(decimal_string(0), "0");
    assert_eq!(decimal_string(60000), "60000");
    assert_eq!(decimal_string(u64::MAX), u64::MAX.to_string());
    let mut s = String::from("ab");
    push_str(&mut s, "cd");
    assert_eq!(s, "abcd");
}

#[test]
fn quotes_strings_for_messages() {
    assert_eq!(parse_cpu_list("1,x").unwrap_err(), "Invalid CPU number \"x\"");
    assert_eq!(parse_cpu_list("1,\"2\"").unwrap_err(), "Invalid CPU number \"\\\"2\\\"\"");
}

#[test]
fn recognises_float_literals() {
    for s in [
        "0", "0.05", "-5", "+.5", "5.", "1e3", "1E-3", "2.5e+10", "inf", "-Infinity", "NaN",
        "", "-", ".", "e5", "1e", "1.2.3", "0x10", "1_000", " 1", "infin",
    ] {
        assert_eq!(is_float_literal_str(s), s.parse::<f64>().is_ok(), "{s:?}");
    }
}

use anthropic_messages::decimal::{format_i64, format_u64, parse_i64, parse_u32};
use anthropic_messages::text::{
    chars_of, eq_ignore_ascii_case, is_blank, same_text, split_once, starts_with, strip_prefix,
    strip_suffix, trim,
};

#[test]
fn blank_is_what_trims_to_nothing() {
    for code in 0..=0x10ffffu32 {
        if let Some(c) = char::from_u32(code) {
            let listed = matches!(
                code,
                0x09..=0x0d
                    | 0x20
                    | 0x85
                    | 0xa0
                    | 0x1680
                    | 0x2000..=0x200a
                    | 0x2028
                    | 0x2029
                    | 0x202f
                    | 0x205f
                    | 0x3000
            );
            assert_eq!(c.is_whitespace(), listed, "{code:x}");
        }
    }
    for text in ["", " ", "\t\n", "\u{3000}\u{a0}", " a ", "a", "\u{200b}"] {
        assert_eq!(is_blank(text), text.trim().is_empty(), "{text:?}");
        assert_eq!(trim(text), text.trim(), "{text:?}");
    }
}

#[test]
fn trimming_keeps_the_inside() {
    assert_eq!(trim("  a b\u{2003}c \n"), "a b\u{2003}c");
    assert_eq!(trim(trim("  x ")), "x");
}

#[test]
fn comparing_texts() {
    assert!(same_text("héllo", "héllo"));
    assert!(!same_text("hello", "hell"));
    assert!(!same_text("hello", "hellO"));
    assert!(eq_ignore_ascii_case("TrUe", "true"));
    assert!(!eq_ignore_ascii_case("É", "é"));
    assert!(!eq_ignore_ascii_case("true", "tru"));
    assert_eq!(chars_of("añ"), vec!['a', 'ñ']);
}

#[test]
fn cutting_texts() {
    assert!(starts_with("data:x", "data:"));
    assert!(!starts_with("dat", "data:"));
    assert_eq!(strip_prefix("ñab", "ña"), Some("b"));
    assert_eq!(strip_prefix("ab", "b"), None);
    assert_eq!(strip_suffix("abñ", "ñ"), Some("ab"));
    assert_eq!(strip_suffix("ab", "abc"), None);
    assert_eq!(split_once("a,b,c", ','), Some(("a", "b,c")));
    assert_eq!(split_once(",", ','), Some(("", "")));
    assert_eq!(split_once("abc", ','), None);
}

#[test]
fn numerals_read_back() {
    for n in [0, 1, 9, 10, 99, 100, -1, -10, 65_536, i64::MAX, i64::MIN] {
        assert_eq!(format_i64(n), n.to_string());
        assert_eq!(parse_i64(&format_i64(n)), Some(n));
    }
    assert_eq!(format_u64(u64::MAX), "18446744073709551615");
}

#[test]
fn numerals_are_read_as_the_standard_library_reads_them() {
    for text in [
        "", "0", "00", "+0", "-0", "+", "-", "++1", "1a", "4294967295", "4294967296", "-1", " 1",
        "000000000000000000000000000000000001", "9223372036854775807", "9223372036854775808",
        "-9223372036854775808", "-9223372036854775809", "99999999999999999999999999", "١",
    ] {
        assert_eq!(parse_u32(text), text.parse::<u32>().ok(), "{text}");
        assert_eq!(parse_i64(text), text.parse::<i64>().ok(), "{text}");
    }
}

use codetrackr::number::{parse_usize_chars, push_decimal};
use codetrackr::text::{is_whitespace_char, str_equal, to_chars, trim_bounds, trim_end_char_len};

#[test]
fn trim_bounds_strips_unicode_whitespace() {
    let s = to_chars("\u{3000} \t abc d\u{85}\r\n");
    let (a, b) = trim_bounds(&s);
    assert_eq!(s[a..b].iter().collect::<String>(), "abc d");
    let s = to_chars(" \u{2028} ");
    let (a, b) = trim_bounds(&s);
    assert_eq!(a, b);
    assert!(is_whitespace_char('\u{a0}'));
    assert!(!is_whitespace_char('\u{200b}'));
    assert!(!is_whitespace_char('x'));
}

#[test]
fn trim_end_char_len_counts_kept_chars() {
    assert_eq!(trim_end_char_len(&to_chars("a//"), '/'), 1);
    assert_eq!(trim_end_char_len(&to_chars("///"), '/'), 0);
    assert_eq!(trim_end_char_len(&to_chars("a/b"), '/'), 3);
}

#[test]
fn parse_usize_like_std() {
    for s in ["0", "42", "+7", "007", "18446744073709551615", "", "+", "-1", "1 ", "12a", "18446744073709551616"] {
        assert_eq!(parse_usize_chars(&to_chars(s)), s.parse::<usize>().ok(), "{s}");
    }
}

#[test]
fn push_decimal_writes_digits() {
    let mut out = b"x".to_vec();
    push_decimal(&mut out, 0);
    push_decimal(&mut out, 1234567890);
    assert_eq!(out, b"x01234567890".to_vec());
}

#[test]
fn str_equal_compares_chars() {
    assert!(str_equal("héllo", "héllo"));
    assert!(!str_equal("hello", "hellö"));
    assert!(!str_equal("a", "ab"));
}

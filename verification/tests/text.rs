use hub::text::{
    i64_to_decimal, parse_i64, rsplit_once_chars, trim_str, u64_to_decimal,
    usize_to_decimal,
};

fn chars(s: &str) -> Vec<char> {
    s.chars().collect()
}

#[test]
fn signed_integers_parse_as_std_does() {
    for text in ["0", "42", "-7", "+5", "007", "9223372036854775807", "-9223372036854775808"] {
        assert_eq!(parse_i64(&chars(text)), text.parse::<i64>().ok(), "{text}");
    }
    for text in ["", "-", "+", " 1", "1 ", "1e3", "9223372036854775808", "--1", "99999999999999999999999"] {
        assert_eq!(parse_i64(&chars(text)), None, "{text}");
    }
}

#[test]
fn signed_integers_format_as_std_does() {
    for n in [0i64, 1, -1, 42, -1000, i64::MAX, i64::MIN] {
        assert_eq!(i64_to_decimal(n), n.to_string());
        assert_eq!(parse_i64(&chars(&i64_to_decimal(n))), Some(n));
    }
    assert_eq!(u64_to_decimal(u64::MAX), u64::MAX.to_string());
    assert_eq!(usize_to_decimal(0), "0");
}

#[test]
fn rsplit_once_splits_at_the_last_occurrence() {
    let (a, b) = rsplit_once_chars(&chars("a.b.c"), '.').unwrap();
    assert_eq!(a, chars("a.b"));
    assert_eq!(b, chars("c"));
    assert!(rsplit_once_chars(&chars("abc"), '.').is_none());
}

#[test]
fn trimming_uses_unicode_whitespace() {
    assert_eq!(trim_str("\u{3000} x y \t\n"), "x y");
    assert_eq!(trim_str("   "), "");
}

use neko_quiz::text::{replace_all, to_decimal, trim_end};

#[test]
fn decimal_rendering() {
    assert_eq!(to_decimal(0), "0");
    assert_eq!(to_decimal(8), "8");
    assert_eq!(to_decimal(255), "255");
    assert_eq!(to_decimal(1000), "1000");
    assert_eq!(to_decimal(u64::MAX), u64::MAX.to_string());
}

#[test]
fn replace_all_agrees_with_std() {
    let cases = [("aaaa", "aa", "b"), ("abcabc", "bc", "XY"), ("", "x", "y"), ("xyz", "xyzw", "q"), ("日本日本", "本", "x")];
    for (s, p, r) in cases {
        assert_eq!(replace_all(s, p, r), s.replace(p, r));
    }
}

#[test]
fn trim_end_removes_trailing_whitespace_only() {
    assert_eq!(trim_end(" a b \n"), " a b");
    assert_eq!(trim_end("\n\t "), "");
    assert_eq!(trim_end("abc"), "abc");
}

#[test]
fn trim_end_removes_unicode_whitespace() {
    assert_eq!(trim_end("F\u{b}"), "F");
    assert_eq!(trim_end("F\u{a0}\u{3000}\u{2028}\u{85}"), "F");
    assert_eq!(trim_end("F\u{200b}"), "F\u{200b}");
}

#[test]
fn trim_end_agrees_with_std_on_every_char() {
    for u in 0u32..0x3100 {
        if let Some(c) = char::from_u32(u) {
            let s = format!("x{c}{c}");
            assert_eq!(trim_end(&s), s.trim_end(), "U+{u:04X}");
        }
    }
}

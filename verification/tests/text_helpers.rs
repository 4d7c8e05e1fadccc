use swash::element::bytes_equal;
use swash::text::{chars_of, string_from_chars, text_equals, trim_chars, white_space};

#[test]
fn chars_round_trip() {
    let v = chars_of("héllo wörld");
    assert_eq!(v.len(), 11);
    assert_eq!(string_from_chars(&v), "héllo wörld");
}

#[test]
fn white_space_is_unicode_white_space() {
    for c in [' ', '\t', '\n', '\r', '\u{b}', '\u{c}', '\u{85}', '\u{a0}', '\u{1680}', '\u{2000}', '\u{200a}', '\u{2028}', '\u{2029}', '\u{202f}', '\u{205f}', '\u{3000}'] {
        assert!(white_space(c), "{:?}", c);
        assert_eq!(white_space(c), c.is_whitespace());
    }
    for c in ['a', '_', '\u{200b}', '\u{feff}', '\u{0}'] {
        assert!(!white_space(c), "{:?}", c);
        assert_eq!(white_space(c), c.is_whitespace());
    }
}

#[test]
fn trim_chars_matches_str_trim() {
    for s in ["  a b  ", "", "   ", "x", "\u{3000}x\u{a0}", "\tmid dle\n"] {
        let v: Vec<char> = s.chars().collect();
        let t = trim_chars(&v, 0, v.len());
        assert_eq!(t.iter().collect::<String>(), s.trim());
    }
    let v: Vec<char> = "ab  cd  ef".chars().collect();
    assert_eq!(trim_chars(&v, 2, 8).iter().collect::<String>(), "cd");
}

#[test]
fn text_and_byte_equality() {
    assert!(text_equals("WA Member", "WA Member"));
    assert!(!text_equals("WA Member", "WA Members"));
    assert!(!text_equals("wa member", "WA Member"));
    assert!(bytes_equal(b"NATION", b"NATION"));
    assert!(!bytes_equal(b"NATION", b"NATIONS"));
}

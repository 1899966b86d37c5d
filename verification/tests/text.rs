use shortest_url::text::{push_decimal, trim, white_space};

#[test]
fn trims_white_space_at_both_ends() {
    assert_eq!(trim("  abc \n"), "abc");
    assert_eq!(trim("a b"), "a b");
    assert_eq!(trim(" \t\u{3000}"), "");
    assert_eq!(trim(""), "");
    assert_eq!(trim("\u{2028}x\u{85}"), "x");
}

#[test]
fn knows_white_space() {
    for c in [' ', '\t', '\n', '\r', '\u{0B}', '\u{0C}', '\u{85}', '\u{A0}', '\u{1680}', '\u{2000}', '\u{200A}', '\u{2028}', '\u{2029}', '\u{202F}', '\u{205F}', '\u{3000}'] {
        assert!(white_space(c), "{:?}", c);
        assert!(c.is_whitespace());
    }
    for c in ['a', '0', '_', '\u{200B}', '\u{FEFF}', '\u{180E}'] {
        assert!(!white_space(c), "{:?}", c);
        assert_eq!(white_space(c), c.is_whitespace());
    }
}

#[test]
fn writes_decimal_numbers() {
    for n in [0u16, 7, 10, 99, 5432, 65535] {
        let mut s = String::from("p");
        push_decimal(&mut s, n);
        assert_eq!(s, format!("p{}", n));
    }
}

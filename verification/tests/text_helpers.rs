use tui_clock::text::{
    chars_of, find_in_range, is_whitespace_char, range_equals, str_eq_ignore_ascii_case,
    trim_range, Strip,
};

#[test]
fn whitespace_agrees_with_std_on_every_char() {
    for code in 0u32..=0x10FFFF {
        if let Some(c) = char::from_u32(code) {
            assert_eq!(is_whitespace_char(c), c.is_whitespace(), "U+{:04X}", code);
        }
    }
}

#[test]
fn chars_of_keeps_order() {
    assert_eq!(chars_of("a▓b"), vec!['a', '▓', 'b']);
    assert!(chars_of("").is_empty());
}

#[test]
fn trim_range_agrees_with_std() {
    for s in ["", "   ", " a ", "\t\u{3000}ab c\r\n", "abc", "\u{85}x\u{2009}"] {
        let v = chars_of(s);
        let (a, b) = trim_range(&v, 0, v.len(), Strip::Whitespace);
        let got: String = v[a..b].iter().collect();
        assert_eq!(got, s.trim());
    }
    for s in ["", "\"", "\"\"x\"", "x\"y", "\"a b\""] {
        let v = chars_of(s);
        let (a, b) = trim_range(&v, 0, v.len(), Strip::Quote);
        let got: String = v[a..b].iter().collect();
        assert_eq!(got, s.trim_matches('"'));
    }
}

#[test]
fn find_in_range_finds_first() {
    let v = chars_of("a=b=c");
    assert_eq!(find_in_range(&v, 0, 5, '='), Some(1));
    assert_eq!(find_in_range(&v, 2, 5, '='), Some(3));
    assert_eq!(find_in_range(&v, 4, 5, '='), None);
    assert_eq!(find_in_range(&v, 0, 0, '='), None);
}

#[test]
fn range_equals_compares_exactly() {
    let v = chars_of("xthemey");
    assert!(range_equals(&v, 1, 6, &chars_of("theme")));
    assert!(!range_equals(&v, 1, 6, &chars_of("Theme")));
    assert!(!range_equals(&v, 1, 5, &chars_of("theme")));
}

#[test]
fn eq_ignore_ascii_case_agrees_with_std() {
    let words = ["", "a", "A", "ocean", "OCEAN", "Ocean", "ÖCEAN", "öcean", "oceans", "12H", "12h", "[", "{"];
    for a in words {
        for b in words {
            assert_eq!(str_eq_ignore_ascii_case(a, b), a.eq_ignore_ascii_case(b), "{:?} {:?}", a, b);
        }
    }
}

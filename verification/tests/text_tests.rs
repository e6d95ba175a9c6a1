use flock::text::{
    chars_of, contains_chars, eq_ignore_ascii_case, is_control, is_whitespace, push_decimal,
    push_decimal_pad2, split_whitespace, string_of, trim_chars,
};

fn v(s: &str) -> Vec<char> {
    s.chars().collect()
}

#[test]
fn whitespace_class_matches_std_for_every_char() {
    for u in 0u32..=0x10FFFF {
        if let Some(c) = char::from_u32(u) {
            assert_eq!(is_whitespace(c), c.is_whitespace(), "U+{:04X}", u);
        }
    }
}

#[test]
fn control_class_matches_std_for_every_char() {
    for u in 0u32..=0x10FFFF {
        if let Some(c) = char::from_u32(u) {
            assert_eq!(is_control(c), c.is_control(), "U+{:04X}", u);
        }
    }
}

#[test]
fn trim_matches_std() {
    for s in ["", "   ", "  power reactor on  ", "\tx\n", "a b", "\u{3000}door d01\u{85}", "x"] {
        let t = trim_chars(&v(s));
        assert_eq!(string_of(&t), s.trim());
    }
}

#[test]
fn split_whitespace_matches_std() {
    for s in ["", "  ", "power  reactor\ton", " a ", "a\u{2028}b c", "one"] {
        let ws: Vec<String> = split_whitespace(&v(s)).iter().map(|w| string_of(w)).collect();
        let expected: Vec<String> = s.split_whitespace().map(|w| w.to_string()).collect();
        assert_eq!(ws, expected);
    }
}

#[test]
fn eq_ignore_ascii_case_matches_std() {
    let pairs = [("D01", "d01"), ("d01", "d02"), ("Dé", "dé"), ("DÉ", "dé"), ("", ""), ("a", "ab")];
    for (a, b) in pairs {
        assert_eq!(eq_ignore_ascii_case(&v(a), &v(b)), a.eq_ignore_ascii_case(b), "{a} {b}");
    }
}

#[test]
fn contains_matches_std() {
    let pairs = [("main hallway", "hall"), ("bridge", "bridges"), ("bridge", ""), ("", ""), ("abc", "bd")];
    for (h, n) in pairs {
        assert_eq!(contains_chars(&v(h), &v(n)), h.contains(n), "{h} {n}");
    }
}

#[test]
fn decimal_notation_matches_format() {
    for n in [0u64, 7, 10, 85, 100, 12345, u64::MAX] {
        let mut s = String::new();
        push_decimal(&mut s, n);
        assert_eq!(s, format!("{}", n));
        let mut p = String::new();
        push_decimal_pad2(&mut p, n);
        assert_eq!(p, format!("{:02}", n));
    }
}

#[test]
fn chars_round_trip() {
    let s = "Reactor ⚠ Core";
    assert_eq!(chars_of(s), v(s));
    assert_eq!(string_of(&v(s)), s);
}

#[test]
fn trim_twice_is_trim() {
    for s in ["  a b  ", "\u{2003}x\u{2003}", "", "   "] {
        let once = trim_chars(&v(s));
        assert_eq!(trim_chars(&once), once);
    }
}

use ioc_probe::text::{
    chars_of, contains, ends_with, eq_ignore_ascii_case, is_whitespace, lowercase_chars,
    matches_at, push_chars, push_decimal, push_str, same_chars, split_lines, starts_with,
    to_ascii_lower, to_ascii_lowercase, trim,
};

fn chars(text: &str) -> Vec<char> {
    text.chars().collect()
}

fn text(chars: &[char]) -> String {
    chars.iter().collect()
}

#[test]
fn only_ascii_letters_change_case() {
    assert_eq!(to_ascii_lowercase("AbC-\u{c9}Z@[`{"), "abc-\u{c9}z@[`{");
    assert_eq!(to_ascii_lower('A'), 'a');
    assert_eq!(to_ascii_lower('Z'), 'z');
    assert_eq!(to_ascii_lower('@'), '@');
    assert_eq!(to_ascii_lower('['), '[');
    assert_eq!(lowercase_chars("Q"), vec!['q']);
    assert_eq!(chars_of("h\u{e9}"), vec!['h', '\u{e9}']);
    assert!(eq_ignore_ascii_case("DEADbeef", "deadBEEF"));
    assert!(!eq_ignore_ascii_case("dead", "deaf"));
    assert!(!eq_ignore_ascii_case("dead", "dea"));
    for c in ['a', 'A', 'z', 'Z', '0', ' ', '\u{e9}', '\u{c9}'] {
        assert_eq!(to_ascii_lower(c), c.to_ascii_lowercase());
    }
}

#[test]
fn parts_of_texts_are_found() {
    let hay = chars("hello world");
    assert!(starts_with(&hay, &chars("hello")));
    assert!(starts_with(&hay, &chars("")));
    assert!(!starts_with(&hay, &chars("world")));
    assert!(!starts_with(&chars("he"), &chars("hello")));
    assert!(ends_with(&hay, &chars("world")));
    assert!(ends_with(&hay, &chars("")));
    assert!(!ends_with(&hay, &chars("hello")));
    assert!(!ends_with(&chars("ld"), &chars("world")));
    assert!(contains(&hay, &chars("o w")));
    assert!(contains(&hay, &chars("hello world")));
    assert!(contains(&hay, &chars("")));
    assert!(contains(&chars(""), &chars("")));
    assert!(!contains(&hay, &chars("worlds")));
    assert!(!contains(&hay, &chars("hello world!")));
    assert!(matches_at(&hay, &chars("world"), 6));
    assert!(!matches_at(&hay, &chars("world"), 7));
    assert!(matches_at(&hay, &chars(""), 11));
    assert!(!matches_at(&hay, &chars(""), 12));
    assert!(same_chars(&hay, &chars("hello world")));
    assert!(!same_chars(&hay, &chars("hello worle")));
}

#[test]
fn white_space_is_trimmed_at_both_ends() {
    assert_eq!(text(&trim(&chars("  \t a b \r\n"))), "a b");
    assert_eq!(text(&trim(&chars("\u{a0}\u{3000}x\u{2003}"))), "x");
    assert_eq!(text(&trim(&chars("   "))), "");
    assert_eq!(text(&trim(&chars(""))), "");
    assert_eq!(text(&trim(&chars("a"))), "a");
    for code in 0u32..0x3100 {
        if let Some(c) = char::from_u32(code) {
            assert_eq!(is_whitespace(c), c.is_whitespace(), "{:x}", code);
        }
    }
    for sample in ["  a  ", "\n", "x", " \u{1680}y\u{205f} ", "\u{200b}z"] {
        assert_eq!(text(&trim(&chars(sample))), sample.trim());
    }
}

#[test]
fn texts_are_split_at_line_feeds() {
    let lines = |s: &str| -> Vec<String> {
        split_lines(&chars(s)).iter().map(|line| text(line)).collect()
    };
    assert_eq!(lines("a\nb\r\nc"), vec!["a", "b\r", "c"]);
    assert_eq!(lines("a\n"), vec!["a", ""]);
    assert_eq!(lines(""), vec![""]);
    assert_eq!(lines("\n\n"), vec!["", "", ""]);
    for sample in ["x\ny\nz", "one", "a\n\nb"] {
        assert_eq!(lines(sample), sample.split('\n').collect::<Vec<_>>());
    }
}

#[test]
fn numbers_are_written_in_decimal() {
    for n in [0u64, 7, 10, 99, 100, 12345, u64::MAX] {
        let mut out = chars("n=");
        push_decimal(&mut out, n);
        assert_eq!(text(&out), format!("n={}", n));
    }
    let mut out = Vec::new();
    push_str(&mut out, "ab");
    push_chars(&mut out, &chars("cd"));
    assert_eq!(text(&out), "abcd");
}

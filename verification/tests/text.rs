use codex_toolkit::text::{
    ascii_lowercase, decimal_of, has_prefix, has_suffix, has_text, is_white_space, joined,
    lines_of, split_last, text_before, trimmed, trimmed_end_matches, trimmed_matches,
};

#[test]
fn white_space_is_what_unicode_says() {
    for c in '\0'..=char::MAX {
        assert_eq!(is_white_space(c), c.is_whitespace(), "{:x}", c as u32);
    }
}

#[test]
fn trimming_agrees_with_the_standard_library() {
    for text in ["", "  ", " a ", "a", "\t a b\u{3000}", "\u{2003}x", "//a//", "/", "a/"] {
        assert_eq!(trimmed(text), text.trim());
        assert_eq!(trimmed_end_matches(text, '/'), text.trim_end_matches('/'));
        assert_eq!(trimmed_matches(text, '/'), text.trim_matches('/'));
    }
}

#[test]
fn searching_agrees_with_the_standard_library() {
    for (text, part) in [
        ("", ""),
        ("a", ""),
        ("", "a"),
        ("abc", "bc"),
        ("abc", "ab"),
        ("aab", "ab"),
        ("größe", "öß"),
        ("a://b", "://"),
        ("abc", "abcd"),
    ] {
        assert_eq!(has_text(text, part), text.contains(part));
        assert_eq!(has_prefix(text, part), text.starts_with(part));
        assert_eq!(has_suffix(text, part), text.ends_with(part));
    }
}

#[test]
fn splitting_agrees_with_the_standard_library() {
    for text in ["", "#", "a#b", "a#b#c", "abc", "a#", "#a"] {
        let expected = text
            .rsplit_once('#')
            .map(|(base, rest)| (base.to_string(), rest.to_string()));
        assert_eq!(split_last(text, '#'), expected);
        assert_eq!(text_before(text, '#'), text.split('#').next().unwrap());
    }
}

#[test]
fn lines_agree_with_the_standard_library() {
    for text in ["", "\n", "a", "a\n", "a\nb", "a\r\nb\r\n", "\r\n", "a\rb", "a\n\nb", "a\r"] {
        let expected: Vec<String> = text.lines().map(str::to_string).collect();
        assert_eq!(lines_of(text), expected, "{text:?}");
    }
}

#[test]
fn only_ascii_letters_are_lowered() {
    assert_eq!(ascii_lowercase("ÄBC xyZ09"), "ÄBC xyZ09".to_ascii_lowercase());
}

#[test]
fn numbers_are_written_in_decimal() {
    for n in [0, 7, 10, 99, 100, 4_294_967_296, u64::MAX] {
        assert_eq!(decimal_of(n), n.to_string());
    }
}

#[test]
fn parts_are_joined_with_the_separator_between_them() {
    let parts = vec!["a".to_string(), "b".to_string(), "".to_string()];
    assert_eq!(joined(&parts, ", "), "a, b, ");
    assert_eq!(joined(&Vec::new(), ", "), "");
}

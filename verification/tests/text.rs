use pg_crypto::text::{
    all_ascii, chars_of, eq_lit, find_char, has_char, has_char_pair, lower_char, slice_chars,
    to_lower, trimmed, white_space, without_char,
};

fn chars(s: &str) -> Vec<char> {
    s.chars().collect()
}

#[test]
fn text_chars_and_case() {
    assert_eq!(chars_of("aé€"), vec!['a', 'é', '€']);
    assert_eq!(to_lower(&chars("AbC-É")), chars("abc-É"));
    assert_eq!(lower_char('Z'), 'z');
    assert_eq!(lower_char('Ä'), 'Ä');
}

#[test]
fn text_trim_unicode_space() {
    assert_eq!(trimmed(&chars("\u{3000} x y \t\n")), chars("x y"));
    assert!(white_space('\u{a0}'));
    assert!(!white_space('x'));
}

#[test]
fn text_search() {
    let s = chars("a: b=c");
    assert!(has_char(&s, '='));
    assert!(has_char_pair(&s, ':', ' '));
    assert!(!has_char_pair(&s, '=', ' '));
    assert_eq!(find_char(&s, '='), 4);
    assert_eq!(find_char(&s, '#'), s.len());
    assert_eq!(slice_chars(&s, 0, 1), chars("a"));
    assert_eq!(without_char(&chars("sha-3-256"), '-'), chars("sha3256"));
    assert!(all_ascii(&s));
    assert!(!all_ascii(&chars("é")));
    assert!(eq_lit(&chars("pad:none"), "pad:none"));
    assert!(!eq_lit(&chars("pad:non"), "pad:none"));
}

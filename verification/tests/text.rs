use blendwerk::text::{
    char_is_whitespace, chars_of, find_in, lower_char, same_ignoring_ascii_case, split_tokens,
    trimmed, upper_char,
};

fn chars(s: &str) -> Vec<char> {
    s.chars().collect()
}

#[test]
fn whitespace_is_what_std_calls_whitespace() {
    let mut code: u32 = 0;
    while code <= 0x10ffff {
        if let Some(c) = char::from_u32(code) {
            assert_eq!(char_is_whitespace(c), c.is_whitespace(), "at {:x}", code);
        }
        code += 1;
    }
}

#[test]
fn ascii_case_is_what_std_calls_ascii_case() {
    let mut code: u32 = 0;
    while code <= 0x10ffff {
        if let Some(c) = char::from_u32(code) {
            assert_eq!(lower_char(c), c.to_ascii_lowercase());
            assert_eq!(upper_char(c), c.to_ascii_uppercase());
        }
        code += 1;
    }
}

#[test]
fn chars_of_keeps_every_character() {
    assert_eq!(chars_of("a\u{e9}\u{1f600}z"), chars("a\u{e9}\u{1f600}z"));
    assert_eq!(chars_of(""), Vec::<char>::new());
}

#[test]
fn trimmed_is_std_trim() {
    for text in ["", " ", "  a b \n", "\u{3000}x\u{85}", "no-space", "\t\r\n"] {
        assert_eq!(trimmed(&chars(text)), chars(text.trim()));
    }
}

#[test]
fn find_in_is_std_find() {
    let cases = [
        ("", ""),
        ("abc", ""),
        ("", "a"),
        ("aaab", "aab"),
        ("x\n--\n---y", "\n---"),
        ("abc", "abcd"),
        ("abcabc", "c"),
    ];
    for (text, pattern) in cases {
        let expected = text.find(pattern).map(|byte| text[..byte].chars().count());
        assert_eq!(find_in(&chars(text), &chars(pattern)), expected, "{:?} in {:?}", pattern, text);
    }
}

#[test]
fn tokens_are_the_non_empty_pieces() {
    let cases = ["", "/", "//", "/a", "a/", "/a//b/", "users/42", "///x///"];
    for path in cases {
        let expected: Vec<Vec<char>> =
            path.split('/').filter(|s| !s.is_empty()).map(|s| s.chars().collect()).collect();
        assert_eq!(split_tokens(&chars(path), '/'), expected, "{:?}", path);
    }
}

#[test]
fn case_is_ignored_for_ascii_letters_only() {
    assert!(same_ignoring_ascii_case(&chars("GeT"), &chars("get")));
    assert!(!same_ignoring_ascii_case(&chars("get"), &chars("gets")));
    assert!(!same_ignoring_ascii_case(&chars("\u{212a}"), &chars("k")));
    assert!(!same_ignoring_ascii_case(&chars("\u{c9}"), &chars("\u{e9}")));
}

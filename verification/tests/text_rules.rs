use websearch::text::{
    append_chars, char_is_whitespace, chars_of, count_tokens, has_prefix, slice_contains,
    string_of, trimmed,
};

fn chars(s: &str) -> Vec<char> {
    s.chars().collect()
}

fn trim(s: &str) -> String {
    string_of(trimmed(&chars(s)))
}

#[test]
fn whitespace_is_what_std_calls_whitespace() {
    for code in 0..=0x10ffffu32 {
        if let Some(c) = char::from_u32(code) {
            assert_eq!(char_is_whitespace(c), c.is_whitespace(), "U+{:04X}", code);
        }
    }
}

#[test]
fn chars_of_gives_the_characters() {
    assert_eq!(chars_of("aé€😀"), vec!['a', 'é', '€', '😀']);
    assert!(chars_of("").is_empty());
}

#[test]
fn string_of_gives_the_range() {
    let text = chars("héllo wörld");
    assert_eq!(string_of(&text), "héllo wörld");
    assert_eq!(string_of(&text[1..5]), "éllo");
    assert_eq!(string_of(&[]), "");
}

#[test]
fn append_chars_appends() {
    let mut out = chars("ab");
    append_chars(&mut out, &chars("cd"));
    append_chars(&mut out, &[]);
    assert_eq!(out, chars("abcd"));
}

#[test]
fn trim_is_what_std_calls_trim() {
    for text in [
        "",
        " ",
        "a",
        "  a  ",
        "\t\n a b \r\n",
        "\u{a0}x\u{3000}",
        "no-outer-space",
        " \u{2028} ",
        "a  ",
        "  a",
        " . ",
    ] {
        assert_eq!(trim(text), text.trim(), "{:?}", text);
    }
}

#[test]
fn tokens_are_what_std_splits_at_whitespace() {
    for text in [
        "",
        " ",
        "a",
        " a ",
        "a b",
        "a  b",
        "one two three four five",
        "\ta\nb\rc\u{a0}d\u{3000}e ",
        "x\u{85}y",
        "a-b-c",
    ] {
        assert_eq!(count_tokens(&chars(text)), text.split_whitespace().count(), "{:?}", text);
    }
}

#[test]
fn prefix_test() {
    assert!(has_prefix(&chars("//host"), &chars("//")));
    assert!(has_prefix(&chars("//"), &chars("//")));
    assert!(!has_prefix(&chars("/"), &chars("//")));
    assert!(!has_prefix(&chars("/a/"), &chars("//")));
    assert!(has_prefix(&chars("abc"), &[]));
    assert!(has_prefix(&[], &[]));
    assert!(!has_prefix(&[], &chars("a")));
}

#[test]
fn contains_is_what_std_calls_contains() {
    for (hay, needle) in [
        ("duckduckgo.com", "duckduckgo.com"),
        ("html.duckduckgo.com", "duckduckgo.com"),
        ("duckduckgo.com.example", "duckduckgo.com"),
        ("duckduckgo.co", "duckduckgo.com"),
        ("duckduckduckgo.com", "duckduckgo.com"),
        ("", "duckduckgo.com"),
        ("", ""),
        ("abc", ""),
        ("aab", "ab"),
        ("aaa", "aaaa"),
        ("abcabd", "abd"),
    ] {
        assert_eq!(
            slice_contains(&chars(hay), &chars(needle)),
            hay.contains(needle),
            "{:?} in {:?}",
            needle,
            hay
        );
    }
}

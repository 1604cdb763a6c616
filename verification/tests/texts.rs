use nginx_discovery::text::{
    char_is_alpha, char_is_digit, char_is_space, char_width, chars_of, contains_text, ends_with,
    find_char, join_strings, parse_unsigned, push_decimal, push_spaces, rfind_char, split_lines,
    starts_with, str_eq, string_of, trimmed_string_of,
};

fn chars(s: &str) -> Vec<char> {
    s.chars().collect()
}

#[test]
fn characters_by_class() {
    assert!(char_is_digit('0') && char_is_digit('9'));
    assert!(!char_is_digit('/') && !char_is_digit(':') && !char_is_digit('\u{661}'));
    assert!(char_is_alpha('a') && char_is_alpha('z') && char_is_alpha('A') && char_is_alpha('Z'));
    assert!(!char_is_alpha('@') && !char_is_alpha('[') && !char_is_alpha('`') && !char_is_alpha('{'));
    for c in ['\t', '\n', '\u{b}', '\u{c}', '\r', ' ', '\u{85}', '\u{a0}', '\u{1680}', '\u{2000}',
        '\u{200a}', '\u{2028}', '\u{2029}', '\u{202f}', '\u{205f}', '\u{3000}']
    {
        assert!(char_is_space(c));
        assert!(c.is_whitespace());
    }
    for c in ['\u{8}', '\u{e}', '\u{1f}', '!', '\u{84}', '\u{86}', '\u{180e}', '\u{200b}',
        '\u{2027}', '\u{202a}', '\u{2060}', '\u{feff}', 'a']
    {
        assert!(!char_is_space(c));
        assert!(!c.is_whitespace());
    }
}

#[test]
fn characters_take_one_to_four_bytes() {
    for c in ['\0', 'a', '\u{7f}', '\u{80}', '\u{7ff}', '\u{800}', '\u{d7ff}', '\u{e000}',
        '\u{ffff}', '\u{10000}', '\u{10ffff}']
    {
        assert_eq!(char_width(c), c.len_utf8());
    }
}

#[test]
fn texts_are_compared_character_by_character() {
    assert!(str_eq("", ""));
    assert!(str_eq("a\u{e9}", "a\u{e9}"));
    assert!(!str_eq("a", "b"));
    assert!(!str_eq("a", "ab"));
    assert!(!str_eq("\u{e9}", "e\u{301}"));
    assert_eq!(chars_of("a\u{e9}\u{1f600}"), vec!['a', '\u{e9}', '\u{1f600}']);
    assert_eq!(string_of(&chars("hello"), 1, 4), "ell");
    assert_eq!(string_of(&chars("hello"), 2, 2), "");
}

#[test]
fn texts_are_searched() {
    assert!(starts_with("abc", ""));
    assert!(starts_with("abc", "ab"));
    assert!(starts_with("abc", "abc"));
    assert!(!starts_with("abc", "abcd"));
    assert!(!starts_with("abc", "b"));
    assert!(ends_with("abc", ""));
    assert!(ends_with("abc", "bc"));
    assert!(!ends_with("abc", "ab"));
    assert!(!ends_with("bc", "abc"));
    assert!(contains_text("abc", ""));
    assert!(contains_text("", ""));
    assert!(contains_text("abcabd", "abd"));
    assert!(contains_text("abc", "c"));
    assert!(!contains_text("abc", "ac"));
    assert!(!contains_text("", "a"));
    assert_eq!(find_char(&chars("a=b=c"), '=', 0), 1);
    assert_eq!(find_char(&chars("a=b=c"), '=', 2), 3);
    assert_eq!(find_char(&chars("a=b=c"), '=', 4), 5);
    assert_eq!(find_char(&chars("abc"), '=', 0), 3);
    assert_eq!(rfind_char(&chars("a=b=c"), '='), Some(3));
    assert_eq!(rfind_char(&chars("abc"), '='), None);
    assert_eq!(rfind_char(&chars(""), '='), None);
}

#[test]
fn texts_are_trimmed_split_and_joined() {
    let v = chars(" \t a b \u{a0}\n");
    assert_eq!(trimmed_string_of(&v, 0, v.len()), "a b");
    assert_eq!(trimmed_string_of(&v, 0, 2), "");
    assert_eq!(trimmed_string_of(&v, 3, 4), "a");
    assert_eq!(split_lines(&chars("a\nb\r\n\nc")), vec!["a", "b", "", "c"]);
    assert_eq!(split_lines(&chars("a\n")), vec!["a"]);
    assert_eq!(split_lines(&chars("\n")), vec![""]);
    assert_eq!(split_lines(&chars("\r")), vec!["\r"]);
    assert!(split_lines(&chars("")).is_empty());
    for s in ["", "a", "a\n", "\n\n", "a\r\nb\rc\n", "\r\n", "x\n\ry"] {
        let expected: Vec<String> = s.lines().map(|l| l.to_string()).collect();
        assert_eq!(split_lines(&chars(s)), expected);
    }
    let parts = vec!["a".to_string(), "".to_string(), "c".to_string()];
    assert_eq!(join_strings(&parts, 0, 3, ", "), "a, , c");
    assert_eq!(join_strings(&parts, 1, 3, ""), "c");
    assert_eq!(join_strings(&parts, 2, 2, "-"), "");
}

#[test]
fn numerals_are_read_and_written() {
    let read = |s: &str, max: u32| {
        let v = chars(s);
        parse_unsigned(&v, 0, v.len(), max)
    };
    assert_eq!(read("0", 10), Some(0));
    assert_eq!(read("007", 10), Some(7));
    assert_eq!(read("+10", 10), Some(10));
    assert_eq!(read("11", 10), None);
    assert_eq!(read("", 10), None);
    assert_eq!(read("+", 10), None);
    assert_eq!(read("++1", 10), None);
    assert_eq!(read("-1", 10), None);
    assert_eq!(read("1 ", 10), None);
    assert_eq!(read("1a", 10), None);
    assert_eq!(read("\u{661}", 10), None);
    assert_eq!(read("4294967295", u32::MAX), Some(u32::MAX));
    assert_eq!(read("4294967296", u32::MAX), None);
    assert_eq!(read("99999999999999999999999999", u32::MAX), None);
    assert_eq!(read("65535", 65535).map(|n| n as u16), "65535".parse::<u16>().ok());
    let mut out = String::from("n=");
    push_decimal(&mut out, 0);
    out.push(' ');
    push_decimal(&mut out, 10);
    out.push(' ');
    push_decimal(&mut out, usize::MAX);
    assert_eq!(out, format!("n=0 10 {}", usize::MAX));
    push_spaces(&mut out, 3);
    push_spaces(&mut out, 0);
    assert!(out.ends_with("5   "));
}

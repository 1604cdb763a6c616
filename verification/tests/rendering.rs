use nginx_discovery::error::Error;
use nginx_discovery::error_builder::{extract_snippet, get_line, ErrorBuilder};

#[test]
fn parse_error_with_context_renders_in_full() {
    let e = Error::parse_with_context("bad", 2, 4, "ab cd", "fix it");
    assert_eq!(
        e.detailed(),
        "Parse error at line 2, column 4: bad\n\nab cd\n   ^\n\nHelp: fix it\n"
    );
    assert_eq!(e.to_string(), "Parse error at line 2, column 4: bad");
    assert_eq!(e.short(), "line 2:4: bad");
    assert_eq!(e.message(), "bad");
}

#[test]
fn pointer_stands_at_the_first_column_for_column_zero_and_one() {
    let zero = Error::parse_with_context("m", 1, 0, "s", "h");
    let one = Error::parse_with_context("m", 1, 1, "s", "h");
    assert_eq!(zero.detailed(), "Parse error at line 1, column 0: m\n\ns\n^\n\nHelp: h\n");
    assert_eq!(one.detailed(), "Parse error at line 1, column 1: m\n\ns\n^\n\nHelp: h\n");
}

#[test]
fn parse_error_without_context_is_one_line() {
    let e = Error::parse("bad", 10, 20);
    assert_eq!(e.detailed(), "Parse error at line 10, column 20: bad");
}

#[test]
fn snippet_and_help_render_on_their_own() {
    let only_snippet = Error::Parse {
        message: "m".to_string(),
        line: 1,
        col: 3,
        snippet: Some("code".to_string()),
        help: None,
    };
    assert_eq!(only_snippet.detailed(), "Parse error at line 1, column 3: m\n\ncode\n  ^\n");
    let only_help = Error::Parse {
        message: "m".to_string(),
        line: 1,
        col: 3,
        snippet: None,
        help: Some("do".to_string()),
    };
    assert_eq!(only_help.detailed(), "Parse error at line 1, column 3: m\nHelp: do\n");
}

#[test]
fn syntax_error_renders_what_it_knows() {
    let full = Error::syntax("m", 5, 12, Some("a".to_string()), Some("b".to_string()));
    assert_eq!(full.detailed(), "Syntax error at line 5, column 12: m\nExpected: a\nFound: b");
    assert_eq!(full.to_string(), "Syntax error: m");
    assert_eq!(full.short(), "line 5:12: m");
    let bare = Error::syntax("m", 5, 12, None, None);
    assert_eq!(bare.detailed(), "Syntax error at line 5, column 12: m");
    let found = Error::syntax("m", 0, 0, None, Some("b".to_string()));
    assert_eq!(found.detailed(), "Syntax error at line 0, column 0: m\nFound: b");
}

#[test]
fn unexpected_end_renders_its_line() {
    let e = Error::unexpected_eof("'}'", 100);
    assert_eq!(e.detailed(), "Unexpected end of file at line 100\nExpected: '}'");
    assert_eq!(e.to_string(), "Unexpected end of input");
    assert_eq!(e.short(), "Unexpected end of input");
    assert_eq!(e.message(), "Unexpected end of input");
}

#[test]
fn invalid_directive_renders_reason_and_suggestion() {
    let e = Error::invalid_directive("liste", Some("r".to_string()), Some("listen".to_string()));
    assert_eq!(
        e.detailed(),
        "Invalid directive: liste\nReason: r\nSuggestion: Try using 'listen' instead"
    );
    assert_eq!(e.message(), "liste");
    assert_eq!(Error::invalid_directive("x", None, None).detailed(), "Invalid directive: x");
}

#[test]
fn every_kind_of_error_displays() {
    let s = |t: &str| t.to_string();
    let invalid = Error::InvalidArgument { directive: s("d"), message: s("m"), expected: None };
    assert_eq!(invalid.to_string(), "Invalid argument for directive 'd': m");
    assert_eq!(invalid.message(), "m");
    assert_eq!(invalid.detailed(), "Invalid argument for directive 'd': m");
    assert_eq!(Error::Io(s("x")).to_string(), "IO error: x");
    assert_eq!(Error::System(s("x")).to_string(), "System error: x");
    assert_eq!(Error::Serialization(s("x")).to_string(), "Serialization error: x");
    assert_eq!(Error::Include(s("x")).to_string(), "Include resolution error: x");
    assert_eq!(Error::Custom(s("x")).to_string(), "x");
    assert_eq!(Error::Network(s("x")).to_string(), "Network error: x");
    assert_eq!(Error::InvalidInput(s("x")).to_string(), "Invalid input: x");
    assert_eq!(Error::NotImplemented(s("x")).to_string(), "Not implemented: x");
    assert_eq!(
        Error::FeatureNotEnabled(s("x")).to_string(),
        "Feature 'x' not enabled. Enable it in Cargo.toml"
    );
    assert_eq!(Error::Network(s("x")).short(), "Network error: x");
    assert_eq!(Error::Network(s("x")).detailed(), "Network error: x");
    assert_eq!(Error::custom("c").message(), "c");
}

#[test]
fn builder_keeps_context_only_when_it_is_whole() {
    let base = || ErrorBuilder::new().message("m").location(3, 4);
    assert_eq!(base().build().detailed(), "Parse error at line 3, column 4: m");
    assert_eq!(base().snippet("s").build().detailed(), "Parse error at line 3, column 4: m");
    assert_eq!(base().help("h").build().detailed(), "Parse error at line 3, column 4: m");
    assert_eq!(
        base().help("h").snippet("s").build().detailed(),
        "Parse error at line 3, column 4: m\n\ns\n   ^\n\nHelp: h\n"
    );
    assert_eq!(ErrorBuilder::default().build().to_string(), "Parse error at line 0, column 0: ");
    assert_eq!(
        ErrorBuilder::new().message("a").message("b").location(1, 1).location(9, 8).build().short(),
        "line 9:8: b"
    );
}

#[test]
fn snippets_are_cut_to_the_source() {
    let source = "l1\nl2\nl3\nl4\nl5";
    assert_eq!(extract_snippet(source, 3, 0), "l3");
    assert_eq!(extract_snippet(source, 3, 1), "l2\nl3\nl4");
    assert_eq!(extract_snippet(source, 3, 10), source);
    assert_eq!(extract_snippet(source, 0, 0), "l1");
    assert_eq!(extract_snippet(source, 1, 1), "l1\nl2");
    assert_eq!(extract_snippet(source, 5, 1), "l4\nl5");
    assert_eq!(extract_snippet(source, 6, 1), "l5");
    assert_eq!(extract_snippet(source, 7, 1), "");
    assert_eq!(extract_snippet(source, 9, 0), "");
    assert_eq!(extract_snippet(source, 2, usize::MAX), source);
    assert_eq!(extract_snippet(source, usize::MAX, usize::MAX), source);
    assert_eq!(extract_snippet("", 1, 1), "");
}

#[test]
fn lines_end_at_line_feeds() {
    let source = "a\r\nb\n\nc\r";
    assert_eq!(get_line(source, 1), Some("a".to_string()));
    assert_eq!(get_line(source, 2), Some("b".to_string()));
    assert_eq!(get_line(source, 3), Some("".to_string()));
    assert_eq!(get_line(source, 4), Some("c\r".to_string()));
    assert_eq!(get_line(source, 5), None);
    assert_eq!(get_line(source, 0), Some("a".to_string()));
    assert_eq!(get_line("x\n", 2), None);
    assert_eq!(get_line("", 1), None);
    assert_eq!(get_line("\n", 1), Some("".to_string()));
}

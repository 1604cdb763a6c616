use nginx_discovery::error::Error;

#[test]
fn test_parse_error() {
    let err = Error::parse("unexpected token", 10, 5);
    assert!(err.to_string().contains("line 10"));
    assert!(err.to_string().contains("column 5"));
    assert_eq!(err.short(), "line 10:5: unexpected token");
}

#[test]
fn test_parse_error_with_context() {
    let err = Error::parse_with_context(
        "unexpected semicolon",
        2,
        10,
        "server { listen 80;; }",
        "Remove the extra semicolon",
    );
    let detailed = err.detailed();
    assert!(detailed.contains("line 2"));
    assert!(detailed.contains("server { listen 80;; }"));
    assert!(detailed.contains('^'));
    assert!(detailed.contains("Help: Remove the extra semicolon"));
}

#[test]
fn test_syntax_error() {
    let err = Error::syntax(
        "invalid token",
        5,
        12,
        Some("';' or '{'".to_string()),
        Some("'@'".to_string()),
    );
    let detailed = err.detailed();
    assert!(detailed.contains("Syntax error"));
    assert!(detailed.contains("Expected: ';' or '{'"));
    assert!(detailed.contains("Found: '@'"));
}

#[test]
fn test_unexpected_eof() {
    let err = Error::unexpected_eof("closing brace '}'", 100);
    assert!(err.to_string().contains("Unexpected end of input"));
    let detailed = err.detailed();
    assert!(detailed.contains("line 100"));
    assert!(detailed.contains("Expected: closing brace '}'"));
}

#[test]
fn test_invalid_directive() {
    let err = Error::invalid_directive(
        "liste",
        Some("Unknown directive".to_string()),
        Some("listen".to_string()),
    );
    let detailed = err.detailed();
    assert!(detailed.contains("Invalid directive: liste"));
    assert!(detailed.contains("Reason: Unknown directive"));
    assert!(detailed.contains("Try using 'listen' instead"));
}

#[test]
fn test_custom_error() {
    let err = Error::custom("something went wrong");
    assert_eq!(err.message(), "something went wrong");
}

#[test]
fn test_error_formatting() {
    let err = Error::parse_with_context(
        "missing semicolon",
        3,
        20,
        "server { listen 80 }",
        "Add a semicolon after '80'",
    );

    let detailed = err.detailed();
    // Should contain line number
    assert!(detailed.contains("line 3"));
    // Should contain snippet
    assert!(detailed.contains("server { listen 80 }"));
    // Should contain pointer
    assert!(detailed.contains('^'));
    // Should contain help
    assert!(detailed.contains("Help:"));
}

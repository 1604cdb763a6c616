use nginx_discovery::ast::Span;
use nginx_discovery::parser::{Token, TokenKind};

#[test]
fn test_token_creation() {
    let token = Token::new(TokenKind::Word("server".to_string()), Span::new(0, 6, 1, 1));
    assert_eq!(token.kind, TokenKind::Word("server".to_string()));
}

#[test]
fn test_token_kind_checks() {
    assert!(TokenKind::Word("test".to_string()).is_word());
    assert!(TokenKind::String("test".to_string()).is_string());
    assert!(TokenKind::Number("80".to_string()).is_number());
    assert!(TokenKind::Variable("host".to_string()).is_variable());

    assert!(!TokenKind::LeftBrace.is_word());
    assert!(!TokenKind::Semicolon.is_string());
}

#[test]
fn test_as_string() {
    assert_eq!(
        TokenKind::Word("test".to_string()).as_string(),
        Some("test")
    );
    assert_eq!(
        TokenKind::String("value".to_string()).as_string(),
        Some("value")
    );
    assert_eq!(TokenKind::LeftBrace.as_string(), None);
}

#[test]
fn test_token_display() {
    assert_eq!(
        TokenKind::Word("server".to_string()).to_string(),
        "word 'server'"
    );
    assert_eq!(TokenKind::LeftBrace.to_string(), "'{'");
    assert_eq!(TokenKind::Semicolon.to_string(), "';'");
}

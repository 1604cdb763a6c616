use nginx_discovery::parser::{Lexer, TokenKind};

#[test]
fn test_lex_simple_directive() {
    let mut lexer = Lexer::new("user nginx;");
    let tokens = lexer.tokenize().unwrap();

    assert_eq!(tokens.len(), 4); // user, nginx, ;, EOF
    assert_eq!(tokens[0].kind, TokenKind::Word("user".to_string()));
    assert_eq!(tokens[1].kind, TokenKind::Word("nginx".to_string()));
    assert_eq!(tokens[2].kind, TokenKind::Semicolon);
    assert_eq!(tokens[3].kind, TokenKind::Eof);
}

#[test]
fn test_lex_block() {
    let mut lexer = Lexer::new("server { listen 80; }");
    let tokens = lexer.tokenize().unwrap();

    assert_eq!(tokens[0].kind, TokenKind::Word("server".to_string()));
    assert_eq!(tokens[1].kind, TokenKind::LeftBrace);
    assert_eq!(tokens[2].kind, TokenKind::Word("listen".to_string()));
    assert_eq!(tokens[3].kind, TokenKind::Number("80".to_string()));
    assert_eq!(tokens[4].kind, TokenKind::Semicolon);
    assert_eq!(tokens[5].kind, TokenKind::RightBrace);
}

#[test]
fn test_lex_string() {
    let mut lexer = Lexer::new(r#"root "/var/www";"#);
    let tokens = lexer.tokenize().unwrap();

    assert_eq!(tokens[0].kind, TokenKind::Word("root".to_string()));
    assert_eq!(tokens[1].kind, TokenKind::String("/var/www".to_string()));
    assert_eq!(tokens[2].kind, TokenKind::Semicolon);
}

#[test]
fn test_lex_variable() {
    let mut lexer = Lexer::new("set $host;");
    let tokens = lexer.tokenize().unwrap();

    assert_eq!(tokens[0].kind, TokenKind::Word("set".to_string()));
    assert_eq!(tokens[1].kind, TokenKind::Variable("host".to_string()));
    assert_eq!(tokens[2].kind, TokenKind::Semicolon);
}

#[test]
fn test_lex_comment() {
    let mut lexer = Lexer::new("# This is a comment\nuser nginx;");
    let tokens = lexer.tokenize().unwrap();

    assert_eq!(
        tokens[0].kind,
        TokenKind::Comment("This is a comment".to_string())
    );
    assert_eq!(tokens[1].kind, TokenKind::Word("user".to_string()));
}

#[test]
fn test_position_tracking() {
    let mut lexer = Lexer::new("server\n{\n  listen 80;\n}");
    let tokens = lexer.tokenize().unwrap();

    // Check that positions are tracked
    assert_eq!(tokens[0].span.line, 1);
    assert_eq!(tokens[1].span.line, 2);
    assert_eq!(tokens[2].span.line, 3);
}

#[test]
fn test_unterminated_string() {
    let mut lexer = Lexer::new(r#"root "/var/www"#);
    let result = lexer.tokenize();

    assert!(result.is_err());
}

use nginx_discovery::ast::{Config, Directive, Span, Value};
use nginx_discovery::error::Error;
use nginx_discovery::parse;

fn literal(s: &str) -> Value {
    Value::literal(s)
}

#[test]
fn simple_directive_is_one_simple_node() {
    let config = parse("user nginx;").unwrap();
    let expected =
        Config::with_directives(vec![Directive::simple_with_values("user", vec![literal("nginx")])]);
    assert_eq!(config, expected);
}

#[test]
fn simple_directive_keeps_its_arguments_in_order() {
    let config = parse("name a1 a2 a3 a4;").unwrap();
    assert_eq!(config.directives.len(), 1);
    let d = &config.directives[0];
    assert!(d.is_simple());
    assert_eq!(d.name(), "name");
    assert_eq!(d.args_as_strings(), vec!["a1", "a2", "a3", "a4"]);
    assert_eq!(d.span, Span::default());
}

#[test]
fn simple_directive_without_arguments() {
    let config = parse("daemon;").unwrap();
    assert_eq!(
        config,
        Config::with_directives(vec![Directive::simple_with_values("daemon", vec![])])
    );
}

#[test]
fn block_directive_holds_its_children() {
    let config = parse("server { listen 80; }").unwrap();
    let expected = Config::with_directives(vec![Directive::block_with_values(
        "server",
        vec![],
        vec![Directive::simple_with_values("listen", vec![literal("80")])],
    )]);
    assert_eq!(config, expected);
}

#[test]
fn block_children_are_what_the_content_parses_to() {
    let content = "a 1; b x { c; } # note\n d 'q';";
    let alone = parse(content).unwrap();
    let text = format!("http {{ {} }}", content);
    let whole = parse(&text).unwrap();
    assert_eq!(whole.directives.len(), 1);
    assert_eq!(whole.directives[0].name(), "http");
    assert!(whole.directives[0].is_block());
    assert_eq!(whole.directives[0].children().unwrap(), &alone.directives[..]);
}

#[test]
fn empty_block_has_no_children() {
    let config = parse("events { }").unwrap();
    assert_eq!(
        config,
        Config::with_directives(vec![Directive::block_with_values("events", vec![], vec![])])
    );
    assert_eq!(config.directives[0].children().unwrap().len(), 0);
}

#[test]
fn block_with_arguments() {
    let config = parse("location ~ \\.php$ { root /srv; }").unwrap();
    let d = &config.directives[0];
    assert_eq!(d.name(), "location");
    assert_eq!(d.args_as_strings(), vec!["~", "\\.php$"]);
    assert_eq!(d.children().unwrap().len(), 1);
}

#[test]
fn variables_and_literals_are_told_apart() {
    let config = parse("set $host localhost;").unwrap();
    let expected = Config::with_directives(vec![Directive::simple_with_values(
        "set",
        vec![Value::variable("host"), literal("localhost")],
    )]);
    assert_eq!(config, expected);
}

#[test]
fn nested_blocks_are_counted_node_by_node() {
    let config = parse("http { server { listen 80; location / { root /var/www; } } }").unwrap();
    assert_eq!(config.count_directives(), 5);
    let http = &config.directives[0];
    let server = &http.children().unwrap()[0];
    let location = &server.children().unwrap()[1];
    assert_eq!(location.name(), "location");
    assert_eq!(location.children().unwrap()[0].name(), "root");
}

#[test]
fn quoted_content_is_not_read_for_variables() {
    let config = parse("log_format main '$remote_addr';").unwrap();
    let d = &config.directives[0];
    assert!(d.is_simple());
    assert_eq!(d.args().len(), 2);
    assert_eq!(d.args()[0], literal("main"));
    assert_eq!(d.args()[1], Value::single_quoted("$remote_addr"));
    assert_ne!(d.args()[1], Value::variable("remote_addr"));
}

#[test]
fn double_quoted_strings_become_single_quoted_values() {
    let config = parse("root \"/var/www\";").unwrap();
    assert_eq!(config.directives[0].args()[0], Value::single_quoted("/var/www"));
}

#[test]
fn comments_leave_no_trace() {
    let bare = parse("user nginx; http { server { listen 80; } }").unwrap();
    let commented = parse(
        "# start\nuser # inline\n nginx # before the semicolon\n; # after\nhttp # a\n{ # b\n server { # c\n listen # d\n 80; # e\n } # f\n } # end",
    )
    .unwrap();
    assert_eq!(bare, commented);
}

#[test]
fn comments_alone_parse_to_nothing() {
    assert!(parse("# one\n# two").unwrap().is_empty());
    assert!(parse("").unwrap().is_empty());
    assert!(parse(" \n\t ").unwrap().is_empty());
}

#[test]
fn parsing_twice_gives_equal_trees() {
    let text = "http { server { listen 80; server_name a b; } }\nuser x;";
    assert_eq!(parse(text).unwrap(), parse(text).unwrap());
    let broken = "http { server { listen 80 }";
    let first = parse(broken).unwrap_err();
    let second = parse(broken).unwrap_err();
    assert_eq!(first.detailed(), second.detailed());
}

fn syntax_parts(e: Error) -> (String, usize, usize, Option<String>, Option<String>) {
    match e {
        Error::Syntax { message, line, col, expected, found } => {
            (message, line, col, expected, found)
        }
        other => panic!("not a syntax error: {:?}", other),
    }
}

#[test]
fn missing_semicolon_is_an_error() {
    let (message, line, col, expected, found) = syntax_parts(parse("root \"/var/www\"").unwrap_err());
    assert_eq!(message, "unexpected token");
    assert_eq!(line, 1);
    assert_eq!(col, 16);
    assert_eq!(expected, Some("';'".to_string()));
    assert_eq!(found, Some("end of file".to_string()));
}

#[test]
fn missing_closing_brace_is_an_error() {
    let (message, line, col, expected, found) =
        syntax_parts(parse("server {\n listen 80;\n").unwrap_err());
    assert_eq!(message, "unexpected token");
    assert_eq!((line, col), (3, 1));
    assert_eq!(expected, Some("'}'".to_string()));
    assert_eq!(found, Some("end of file".to_string()));
}

#[test]
fn stray_closing_brace_is_an_error() {
    let (message, line, col, expected, found) = syntax_parts(parse("user x;\n}").unwrap_err());
    assert_eq!(message, "expected directive name");
    assert_eq!((line, col), (2, 1));
    assert_eq!(expected, Some("word".to_string()));
    assert_eq!(found, Some("'}'".to_string()));
}

#[test]
fn closing_brace_among_arguments_is_an_error() {
    let (message, _, col, expected, found) = syntax_parts(parse("listen 80 }").unwrap_err());
    assert_eq!(message, "expected value");
    assert_eq!(col, 11);
    assert_eq!(expected, Some("word, string, number, or variable".to_string()));
    assert_eq!(found, Some("'}'".to_string()));
}

#[test]
fn directive_name_must_be_a_word() {
    let (message, _, _, _, found) = syntax_parts(parse("80 x;").unwrap_err());
    assert_eq!(message, "expected directive name");
    assert_eq!(found, Some("number '80'".to_string()));
    let (_, _, _, _, found) = syntax_parts(parse("'quoted' x;").unwrap_err());
    assert_eq!(found, Some("string \"quoted\"".to_string()));
    let (_, _, _, _, found) = syntax_parts(parse("$v x;").unwrap_err());
    assert_eq!(found, Some("variable '$v'".to_string()));
    let (_, _, _, _, found) = syntax_parts(parse("; x").unwrap_err());
    assert_eq!(found, Some("';'".to_string()));
    let (_, _, _, _, found) = syntax_parts(parse("{ x").unwrap_err());
    assert_eq!(found, Some("'{'".to_string()));
}

#[test]
fn unterminated_string_at_line_end_is_a_syntax_error() {
    let (message, line, col, expected, found) = syntax_parts(parse("root \"/var\n;").unwrap_err());
    assert_eq!(message, "unterminated string literal");
    assert_eq!((line, col), (1, 11));
    assert_eq!(expected, Some("closing quote".to_string()));
    assert_eq!(found, Some("newline".to_string()));
}

#[test]
fn unterminated_string_at_the_end_is_an_unexpected_end() {
    match parse("root '/var/www").unwrap_err() {
        Error::UnexpectedEof { expected, line } => {
            assert_eq!(expected, "closing quote");
            assert_eq!(line, 1);
        }
        other => panic!("not an unexpected end: {:?}", other),
    }
}

#[test]
fn unterminated_braced_variable_is_an_unexpected_end() {
    match parse("set\n${name value;").unwrap_err() {
        Error::UnexpectedEof { expected, line } => {
            assert_eq!(expected, "'}'");
            assert_eq!(line, 2);
        }
        other => panic!("not an unexpected end: {:?}", other),
    }
}

#[test]
fn empty_variable_name_is_a_syntax_error() {
    let (message, line, col, expected, found) = syntax_parts(parse("set $ x;").unwrap_err());
    assert_eq!(message, "expected variable name after '$'");
    assert_eq!((line, col), (1, 6));
    assert_eq!(expected, Some("variable name".to_string()));
    assert_eq!(found, None);
}

#[test]
fn invalid_leading_character_is_a_syntax_error() {
    let (message, line, col, expected, found) = syntax_parts(parse("user x;\n  @home;").unwrap_err());
    assert_eq!(message, "unexpected character '@'");
    assert_eq!((line, col), (2, 3));
    assert_eq!(expected, Some("valid token".to_string()));
    assert_eq!(found, Some("'@'".to_string()));
}

#[test]
fn address_with_port_after_a_number_is_rejected() {
    let (message, _, col, _, _) = syntax_parts(parse("listen 127.0.0.1:8080;").unwrap_err());
    assert_eq!(message, "unexpected character ':'");
    assert_eq!(col, 17);
}

#[test]
fn an_error_leaves_no_partial_tree() {
    assert!(parse("user nginx; worker_processes 4; broken {").is_err());
    assert!(parse("a; b; c").is_err());
    assert!(parse("a; 'x").is_err());
}

fn kinds_counted(text: &str) -> (usize, usize, usize) {
    let tokens = nginx_discovery::parser::Lexer::new(text).tokenize().unwrap();
    let count = |kind: nginx_discovery::parser::TokenKind| -> usize {
        tokens.iter().filter(|t| t.kind == kind).count()
    };
    (
        count(nginx_discovery::parser::TokenKind::Semicolon),
        count(nginx_discovery::parser::TokenKind::LeftBrace),
        count(nginx_discovery::parser::TokenKind::RightBrace),
    )
}

#[test]
fn directives_are_counted_by_semicolons_and_opening_braces() {
    let texts = [
        "",
        "a;",
        "a b c;",
        "a { }",
        "a { b; c { d; e 'f;{' ; } } g;",
        "# x;\nhttp { server { listen 80; # {\n location / { root /var; } } }\nuser www;",
    ];
    let expected = [0, 1, 1, 1, 6, 6];
    for (text, n) in texts.iter().zip(expected.iter()) {
        let config = nginx_discovery::parse(text).unwrap();
        let (semicolons, opened, closed) = kinds_counted(text);
        assert_eq!(config.count_directives(), *n);
        assert_eq!(config.count_directives(), semicolons + opened);
        assert_eq!(opened, closed);
    }
}

fn without_comment_text(text: &str) -> String {
    let mut lexer = nginx_discovery::parser::Lexer::new(text);
    let mut out = String::new();
    let mut kept_to = 0;
    loop {
        match lexer.next_token() {
            Ok(token) => match token.kind {
                nginx_discovery::parser::TokenKind::Eof => break,
                nginx_discovery::parser::TokenKind::Comment(_) => {
                    out.push_str(&text[kept_to..token.span.start]);
                    kept_to = token.span.end;
                }
                _ => {}
            },
            Err(_) => break,
        }
    }
    out.push_str(&text[kept_to..]);
    out
}

#[test]
fn a_text_parses_as_it_does_without_the_text_of_its_comments() {
    let texts = [
        "# only a comment",
        "a b; # c d;\ne f;",
        "a#b\n c;",
        "http { # {\n server { listen 80; } # }\n}\n#",
        "a 'b # c' d; # e\n",
        "a { b; # }\n",
        "a b # ;\n",
        "# x\na ? b; # y",
        "a 'b\n # c",
        "a ${b # c",
        "$x#y\n $z;",
        "12#3\n.4;",
    ];
    let bare = [
        "",
        "a b; \ne f;",
        "a\n c;",
        "http { \n server { listen 80; } \n}\n",
        "a 'b # c' d; \n",
        "a { b; \n",
        "a b \n",
        "\na ? b; # y",
        "a 'b\n # c",
        "a ${b # c",
        "$x\n $z;",
        "12\n.4;",
    ];
    for (text, expected) in texts.iter().zip(bare.iter()) {
        let stripped = without_comment_text(text);
        assert_eq!(&stripped, expected);
        match (parse(text), parse(&stripped)) {
            (Ok(a), Ok(b)) => assert_eq!(format!("{:?}", a), format!("{:?}", b)),
            (Err(_), Err(_)) => {}
            (a, b) => panic!("{:?} parses to {:?}, without comments to {:?}", text, a, b),
        }
    }
}

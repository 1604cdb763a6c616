use nginx_discovery::parser::Parser;

#[test]
fn test_parse_simple_directive() {
    let input = "user nginx;";
    let mut parser = Parser::new(input).unwrap();
    let config = parser.parse().unwrap();

    assert_eq!(config.directives.len(), 1);
    assert_eq!(config.directives[0].name(), "user");
    assert_eq!(config.directives[0].args().len(), 1);
}

#[test]
fn test_parse_multiple_directives() {
    let input = "user nginx;\nworker_processes auto;";
    let mut parser = Parser::new(input).unwrap();
    let config = parser.parse().unwrap();

    assert_eq!(config.directives.len(), 2);
    assert_eq!(config.directives[0].name(), "user");
    assert_eq!(config.directives[1].name(), "worker_processes");
}

#[test]
fn test_parse_block_directive() {
    let input = "server { listen 80; }";
    let mut parser = Parser::new(input).unwrap();
    let config = parser.parse().unwrap();

    assert_eq!(config.directives.len(), 1);
    assert!(config.directives[0].is_block());
    assert_eq!(config.directives[0].children().unwrap().len(), 1);
}

#[test]
fn test_parse_nested_blocks() {
    let input = r"
http {
server {
    listen 80;
    location / {
        root /var/www;
    }
}
}
";
    let mut parser = Parser::new(input).unwrap();
    let config = parser.parse().unwrap();

    assert_eq!(config.directives.len(), 1);

    let http = &config.directives[0];
    assert_eq!(http.name(), "http");
    assert_eq!(http.children().unwrap().len(), 1);

    let server = &http.children().unwrap()[0];
    assert_eq!(server.name(), "server");
    assert_eq!(server.children().unwrap().len(), 2); // listen + location
}

#[test]
fn test_parse_with_comments() {
    let input = r"
# Main config
user nginx;  # Run as nginx
";
    let mut parser = Parser::new(input).unwrap();
    let config = parser.parse().unwrap();

    // Comments should be skipped
    assert_eq!(config.directives.len(), 1);
    assert_eq!(config.directives[0].name(), "user");
}

#[test]
fn test_parse_strings() {
    let input = r#"root "/var/www/html";"#;
    let mut parser = Parser::new(input).unwrap();
    let config = parser.parse().unwrap();

    assert_eq!(config.directives.len(), 1);
    assert_eq!(config.directives[0].args().len(), 1);
}

#[test]
fn test_parse_variables() {
    let input = "set $host localhost;";
    let mut parser = Parser::new(input).unwrap();
    let config = parser.parse().unwrap();

    assert_eq!(config.directives.len(), 1);
    assert!(config.directives[0].args()[0].is_variable());
}

use nginx_discovery::ast::{Directive, Span, Value};

#[test]
fn test_simple_directive() {
    let directive = Directive::simple("user", vec!["nginx".to_string()]);
    assert_eq!(directive.name(), "user");
    assert_eq!(directive.args().len(), 1);
    assert!(directive.is_simple());
    assert!(!directive.is_block());
    assert_eq!(directive.first_arg(), Some("nginx".to_string()));
}

#[test]
fn test_simple_directive_with_span() {
    let span = Span::new(0, 10, 1, 1);
    let directive = Directive::simple_with_span("listen", vec!["80".to_string()], span);
    assert_eq!(directive.span, span);
    assert_eq!(directive.name(), "listen");
}

#[test]
fn test_block_directive() {
    let directive = Directive::block("server", vec![], vec![]);
    assert_eq!(directive.name(), "server");
    assert!(directive.is_block());
    assert!(!directive.is_simple());
    assert_eq!(directive.children().unwrap().len(), 0);
}

#[test]
fn test_block_with_children() {
    let children = vec![
        Directive::simple("listen", vec!["80".to_string()]),
        Directive::simple("server_name", vec!["example.com".to_string()]),
    ];
    let server = Directive::block("server", vec![], children);

    assert_eq!(server.children().unwrap().len(), 2);
    assert_eq!(server.children().unwrap()[0].name(), "listen");
}

#[test]
fn test_find_children() {
    let children = vec![
        Directive::simple("listen", vec!["80".to_string()]),
        Directive::simple("server_name", vec!["example.com".to_string()]),
        Directive::simple("listen", vec!["443".to_string()]),
    ];
    let server = Directive::block("server", vec![], children);

    let listen_dirs = server.find_children("listen");
    assert_eq!(listen_dirs.len(), 2);
    assert_eq!(listen_dirs[0].first_arg(), Some("80".to_string()));
    assert_eq!(listen_dirs[1].first_arg(), Some("443".to_string()));
}

#[test]
fn test_args_as_strings() {
    let directive = Directive::simple(
        "server_name",
        vec!["example.com".to_string(), "www.example.com".to_string()],
    );
    let args = directive.args_as_strings();
    assert_eq!(args, vec!["example.com", "www.example.com"]);
}

#[test]
fn test_find_recursive() {
    // Build nested structure:
    // http {
    //   server {
    //     location / {
    //       access_log /var/log/1.log;
    //     }
    //   }
    //   access_log /var/log/2.log;
    // }
    let location = Directive::block(
        "location",
        vec!["/".to_string()],
        vec![Directive::simple(
            "access_log",
            vec!["/var/log/1.log".to_string()],
        )],
    );
    let server = Directive::block("server", vec![], vec![location]);
    let http = Directive::block(
        "http",
        vec![],
        vec![
            server,
            Directive::simple("access_log", vec!["/var/log/2.log".to_string()]),
        ],
    );

    let access_logs = http.find_recursive("access_log");
    assert_eq!(access_logs.len(), 2);
}

#[test]
fn test_simple_directive_with_values() {
    let args = vec![Value::literal("combined"), Value::variable("remote_addr")];
    let directive = Directive::simple_with_values("log_format", args);

    assert_eq!(directive.args().len(), 2);
    assert!(directive.args()[1].is_variable());
}

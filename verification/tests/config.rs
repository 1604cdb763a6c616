use nginx_discovery::ast::{Config, Directive};

#[test]
fn test_config_new() {
    let config = Config::new();
    assert!(config.directives.is_empty());
    assert!(config.is_empty());
}

#[test]
fn test_config_with_directives() {
    let directives = vec![
        Directive::simple("user", vec!["nginx".to_string()]),
        Directive::simple("worker_processes", vec!["auto".to_string()]),
    ];
    let config = Config::with_directives(directives);
    assert_eq!(config.directives.len(), 2);
    assert!(!config.is_empty());
}

#[test]
fn test_config_add_directive() {
    let mut config = Config::new();
    config.add_directive(Directive::simple("user", vec!["nginx".to_string()]));
    assert_eq!(config.directives.len(), 1);
}

#[test]
fn test_find_directives() {
    let config = Config::with_directives(vec![
        Directive::simple("user", vec!["nginx".to_string()]),
        Directive::simple("worker_processes", vec!["auto".to_string()]),
        Directive::simple("user", vec!["www-data".to_string()]),
    ]);

    let users = config.find_directives("user");
    assert_eq!(users.len(), 2);
}

#[test]
fn test_find_directives_recursive() {
    let location = Directive::block(
        "location",
        vec!["/".to_string()],
        vec![Directive::simple(
            "access_log",
            vec!["/var/log/1.log".to_string()],
        )],
    );

    let server = Directive::block("server", vec![], vec![location]);

    let config = Config::with_directives(vec![
        Directive::simple("access_log", vec!["/var/log/main.log".to_string()]),
        server,
    ]);

    let logs = config.find_directives_recursive("access_log");
    assert_eq!(logs.len(), 2);
}

#[test]
fn test_count_directives() {
    let location = Directive::block(
        "location",
        vec!["/".to_string()],
        vec![Directive::simple(
            "proxy_pass",
            vec!["http://backend".to_string()],
        )],
    );

    let server = Directive::block("server", vec![], vec![location]);

    let config = Config::with_directives(vec![
        Directive::simple("user", vec!["nginx".to_string()]),
        server,
    ]);

    // user + server + location + proxy_pass = 4
    assert_eq!(config.count_directives(), 4);
}

#[test]
fn test_config_default() {
    let config = Config::default();
    assert!(config.is_empty());
}

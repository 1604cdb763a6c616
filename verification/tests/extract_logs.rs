use nginx_discovery::extract::{access_logs, log_formats};
use nginx_discovery::parse;
use nginx_discovery::types::LogContext;

#[test]
fn test_extract_log_formats() {
    let config = r"
log_format combined '$remote_addr - $remote_user [$time_local]';
log_format main '$remote_addr $request';
";

    let parsed = parse(config).unwrap();
    let formats = log_formats(&parsed).unwrap();

    assert_eq!(formats.len(), 2);
    assert_eq!(formats[0].name, "combined");
    assert_eq!(formats[1].name, "main");
}

#[test]
fn test_extract_access_logs() {
    let config = r"
access_log /var/log/nginx/access.log combined;
access_log /var/log/nginx/main.log main buffer=32k;
";

    let parsed = parse(config).unwrap();
    let logs = access_logs(&parsed).unwrap();

    assert_eq!(logs.len(), 2);
    assert_eq!(logs[0].path, "/var/log/nginx/access.log".to_string());
    assert_eq!(logs[0].format_name, Some("combined".to_string()));
    assert_eq!(logs[1].format_name, Some("main".to_string()));
    assert_eq!(logs[1].options.get("buffer"), Some(&"32k".to_string()));
}

#[test]
fn test_extract_logs_from_server() {
    let config = r"
server {
server_name example.com;
access_log /var/log/nginx/example.log;
}
";

    let parsed = parse(config).unwrap();
    let logs = access_logs(&parsed).unwrap();

    assert_eq!(logs.len(), 1);
    assert_eq!(logs[0].path, "/var/log/nginx/example.log".to_string());
    assert!(matches!(logs[0].context, LogContext::Server(_)));
}

#[test]
fn test_skip_disabled_logs() {
    let config = r"
access_log off;
access_log /var/log/nginx/access.log;
";

    let parsed = parse(config).unwrap();
    let logs = access_logs(&parsed).unwrap();

    // Should only have one log (the enabled one)
    assert_eq!(logs.len(), 1);
}

#[test]
fn test_extract_logs_from_location() {
    let config = r"
server {
location /api {
    access_log /var/log/nginx/api.log;
}
}
";

    let parsed = parse(config).unwrap();
    let logs = access_logs(&parsed).unwrap();

    assert_eq!(logs.len(), 1);
    assert!(matches!(logs[0].context, LogContext::Location(_)));
}

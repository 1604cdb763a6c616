use nginx_discovery::analysis::{
    is_sensitive_path, security_issues, ssl_issues, Severity,
};
use nginx_discovery::NginxDiscovery;

const TEXT: &str = "
server {
    listen 443 ssl;
    server_name plain.example.com;
    location /a { proxy_pass http://one; }
    location /b { proxy_pass https://two; }
    location /c { proxy_pass http:/three; }
}
server {
    listen 443 ssl http2;
    location /d { proxy_pass http://four; }
}
";

#[test]
fn ssl_issues_server_by_server() {
    let servers = NginxDiscovery::from_config_text(TEXT).unwrap().ssl_servers();
    let issues = ssl_issues(&servers, true, false);
    let seen: Vec<(Severity, &str, &str)> =
        issues.iter().map(|i| (i.severity, i.server.as_str(), i.issue.as_str())).collect();
    assert_eq!(
        seen,
        vec![
            (Severity::Info, "plain.example.com", "SSL/TLS protocol configuration not explicitly checked"),
            (Severity::Warning, "plain.example.com", "HTTP/2 not enabled on SSL listener"),
            (Severity::Info, "plain.example.com", "Certificate file validation not implemented"),
            (Severity::Warning, "plain.example.com", "Location /a proxies to HTTP upstream (mixed content risk)"),
            (Severity::Info, "_", "SSL/TLS protocol configuration not explicitly checked"),
            (Severity::Info, "_", "Certificate file validation not implemented"),
            (Severity::Warning, "_", "Location /d proxies to HTTP upstream (mixed content risk)"),
        ]
    );
    assert_eq!(issues[3].recommendation, "Consider using HTTPS for upstream: http://one");
    assert_eq!(
        issues[1].recommendation,
        "Add 'http2' parameter to listen directive: listen 443 ssl http2;"
    );
}

#[test]
fn ssl_issues_can_leave_the_notes_out() {
    let servers = NginxDiscovery::from_config_text(TEXT).unwrap().ssl_servers();
    let all = ssl_issues(&servers, false, false);
    assert_eq!(all.len(), 5);
    let warnings = ssl_issues(&servers, true, true);
    assert_eq!(warnings.len(), 3);
    assert!(warnings.iter().all(|i| i.severity == Severity::Warning));
    assert!(ssl_issues(&[], true, false).is_empty());
}

#[test]
fn sensitive_paths_begin_with_a_guarded_word() {
    assert!(is_sensitive_path("/admin"));
    assert!(is_sensitive_path("/administrator/x"));
    assert!(is_sensitive_path("/login"));
    assert!(is_sensitive_path("/api/v1"));
    assert!(is_sensitive_path("/auth"));
    assert!(is_sensitive_path("/dashboard/"));
    assert!(!is_sensitive_path("/"));
    assert!(!is_sensitive_path("/ap"));
    assert!(!is_sensitive_path("/x/admin"));
    assert!(!is_sensitive_path("admin"));
    assert!(!is_sensitive_path(""));
}

const SECURITY: &str = "
server {
    listen 80 default_server;
    location /login { }
    location /public { }
}
server {
    listen 80 default;
    server_name a _;
}
server {
    listen 443 ssl default_server;
    server_name named;
    location /admin { }
}
";

#[test]
fn security_issues_server_by_server() {
    let servers = NginxDiscovery::from_config_text(SECURITY).unwrap().servers();
    let issues = security_issues(&servers, Severity::Info);
    let seen: Vec<(Severity, &str, &str)> =
        issues.iter().map(|i| (i.severity, i.server.as_str(), i.issue.as_str())).collect();
    assert_eq!(
        seen,
        vec![
            (Severity::Warning, "_", "Default server without explicit server_name"),
            (Severity::Critical, "_", "Sensitive path '/login' served over HTTP"),
            (Severity::Info, "_", "Server tokens directive not checked"),
            (Severity::Warning, "a", "Default server without explicit server_name"),
            (Severity::Info, "a", "Server tokens directive not checked"),
            (Severity::Info, "named", "Server tokens directive not checked"),
        ]
    );
    assert_eq!(issues[1].category, "SSL/TLS");
    assert_eq!(issues[0].category, "Configuration");
    assert_eq!(issues[2].category, "Information Disclosure");
    assert_eq!(issues[2].fix, "Add 'server_tokens off;' in http or server block");
}

#[test]
fn security_issues_from_a_level_on() {
    let servers = NginxDiscovery::from_config_text(SECURITY).unwrap().servers();
    assert_eq!(security_issues(&servers, Severity::from_level("WARNING")).len(), 3);
    assert_eq!(security_issues(&servers, Severity::from_level("Critical")).len(), 1);
    assert_eq!(security_issues(&servers, Severity::from_level("anything")).len(), 6);
    assert_eq!(security_issues(&servers, Severity::from_level("")).len(), 6);
}

#[test]
fn severities_are_ranked() {
    assert!(Severity::Critical.reaches(Severity::Critical));
    assert!(Severity::Critical.reaches(Severity::Info));
    assert!(Severity::Warning.reaches(Severity::Warning));
    assert!(!Severity::Warning.reaches(Severity::Critical));
    assert!(!Severity::Info.reaches(Severity::Warning));
    assert!(Severity::Info.reaches(Severity::Info));
    assert_eq!(Severity::Warning.name(), "Warning");
    assert_eq!(Severity::from_lowercase("critical"), Severity::Critical);
    assert_eq!(Severity::from_lowercase("Critical"), Severity::Info);
}

use nginx_discovery::NginxDiscovery;

#[test]
fn test_from_config_text() {
    let config = "user nginx;";
    let discovery = NginxDiscovery::from_config_text(config).unwrap();
    assert_eq!(discovery.config().directives.len(), 1);
}

#[test]
fn test_access_logs() {
    let config = r"
    http {
        access_log /var/log/nginx/access.log;
        server {
            access_log /var/log/nginx/server.log;
        }
    }
    ";

    let discovery = NginxDiscovery::from_config_text(config).unwrap();
    let logs = discovery.access_logs();
    assert_eq!(logs.len(), 2);
}

#[test]
fn test_log_formats() {
    let config = r"
    log_format combined '$remote_addr';
    log_format main '$request';
    ";

    let discovery = NginxDiscovery::from_config_text(config).unwrap();
    let formats = discovery.log_formats();
    assert_eq!(formats.len(), 2);
}

#[test]
fn test_server_names() {
    let config = r"
    server {
        server_name example.com www.example.com;
    }
    server {
        server_name test.com;
    }
    ";

    let discovery = NginxDiscovery::from_config_text(config).unwrap();
    let names = discovery.server_names();
    assert_eq!(names.len(), 3);
    assert!(names.contains(&"example.com".to_string()));
    assert!(names.contains(&"www.example.com".to_string()));
    assert!(names.contains(&"test.com".to_string()));
}

#[test]
fn test_summary() {
    let config = r"
    user nginx;
    access_log /var/log/nginx/access.log;
    server { listen 80; }
    ";

    let discovery = NginxDiscovery::from_config_text(config).unwrap();
    let summary = discovery.summary();
    assert!(summary.contains("directives"));
    assert!(summary.contains("Server blocks: 1"));
}

#[test]
fn test_config_access() {
    let config = "user nginx;";
    let discovery = NginxDiscovery::from_config_text(config).unwrap();
    let ast = discovery.config();
    assert_eq!(ast.directives.len(), 1);
}

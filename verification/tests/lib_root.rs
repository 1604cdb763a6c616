use nginx_discovery::parse;
use nginx_discovery::prelude::NginxDiscovery;

#[test]
fn test_basic_parse() {
    let config = r"
        user nginx;
        worker_processes auto;
    ";

    let result = parse(config);
    assert!(result.is_ok());

    let config = result.unwrap();
    assert_eq!(config.directives.len(), 2);
    assert_eq!(config.directives[0].name(), "user");
    assert_eq!(config.directives[1].name(), "worker_processes");
}

#[test]
fn test_discovery_from_text() {
    let config = "user nginx;";
    let discovery = NginxDiscovery::from_config_text(config);
    assert!(discovery.is_ok());
}

#[test]
fn test_prelude_imports() {
    let config = "user nginx;";
    let discovery = NginxDiscovery::from_config_text(config).unwrap();
    assert_eq!(discovery.config().directives.len(), 1);
}

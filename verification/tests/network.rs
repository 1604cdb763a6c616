use nginx_discovery::network::{CheckSeverity, HealthStatus, NetworkCheckOptions, NetworkCheckResult};

#[test]
fn test_network_check_options_default() {
    let options = NetworkCheckOptions::default();
    assert!(options.check_ports);
    assert!(options.check_dns);
    assert!(options.check_ssl);
    assert!(options.check_upstreams);
}

#[test]
fn test_network_check_result_creation() {
    let result = NetworkCheckResult {
        check_type: "test".to_string(),
        target: "localhost:80".to_string(),
        status: HealthStatus::Healthy,
        message: "OK".to_string(),
        severity: CheckSeverity::Info,
        details: None,
    };

    assert_eq!(result.check_type, "test");
    assert_eq!(result.status, HealthStatus::Healthy);
}

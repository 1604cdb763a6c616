use nginx_discovery::network::HealthStatus;

#[test]
fn test_health_status_display() {
    assert_eq!(HealthStatus::Healthy.to_string(), "HEALTHY");
    assert_eq!(HealthStatus::Unhealthy.to_string(), "UNHEALTHY");
    assert_eq!(HealthStatus::Degraded.to_string(), "DEGRADED");
    assert_eq!(HealthStatus::Error.to_string(), "ERROR");
}

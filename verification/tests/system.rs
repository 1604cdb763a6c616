use nginx_discovery::error::Error;

#[test]
fn test_error_messages() {
    // Test that error messages are helpful
    let err = Error::System("nginx not found".to_string());
    assert!(err.to_string().contains("nginx not found"));
}

use nginx_discovery::ast::Config;
use nginx_discovery::error::Error;
use nginx_discovery::export::{Filter, FilterType};

#[test]
fn test_parse_filter() {
    let filter: Filter = "server_name=*.example.com".parse().unwrap();
    assert_eq!(filter.filter_type, FilterType::ServerName);
    assert_eq!(filter.pattern, "*.example.com");
}

#[test]
fn test_parse_port_filter() {
    let filter: Filter = "port=443".parse().unwrap();
    assert_eq!(filter.filter_type, FilterType::Port);
    assert_eq!(filter.pattern, "443");
}

#[test]
fn test_parse_ssl_filter() {
    let filter: Filter = "ssl_only=true".parse().unwrap();
    assert_eq!(filter.filter_type, FilterType::SslOnly);
}

#[test]
fn test_parse_directive_filter() {
    let filter: Filter = "directive=proxy_pass".parse().unwrap();
    assert_eq!(filter.filter_type, FilterType::Directive);
    assert_eq!(filter.pattern, "proxy_pass");
}

#[test]
fn test_invalid_filter_format() {
    let result: Result<Filter, Error> = "invalid".parse();
    assert!(result.is_err());
}

#[test]
fn test_invalid_filter_type() {
    let result: Result<Filter, Error> = "unknown_type=value".parse();
    assert!(result.is_err());
}

#[test]
fn test_filter_creation() {
    let filter = Filter::new(FilterType::Port, "8080");
    assert_eq!(filter.filter_type, FilterType::Port);
    assert_eq!(filter.pattern, "8080");
}

#[test]
fn test_port_filter_validates_number() {
    let config = Config::default();
    let filter = Filter::new(FilterType::Port, "not_a_number");
    let result = filter.apply(&config);
    assert!(result.is_err());
}

use nginx_discovery::types::{Location, LocationModifier};

#[test]
fn test_location_new() {
    let location = Location::new("/api", LocationModifier::Prefix);
    assert_eq!(location.path, "/api");
    assert_eq!(location.modifier, LocationModifier::Prefix);
    assert!(location.root.is_none());
    assert!(location.proxy_pass.is_none());
    assert!(location.access_logs.is_empty());
}

#[test]
fn test_is_proxy_true() {
    let mut location = Location::new("/api", LocationModifier::Prefix);
    location.proxy_pass = Some("http://backend:8080".to_string());

    assert!(location.is_proxy());
}

#[test]
fn test_is_proxy_false() {
    let location = Location::new("/api", LocationModifier::Prefix);
    assert!(!location.is_proxy());
}

#[test]
fn test_is_static_true() {
    let mut location = Location::new("/static", LocationModifier::Prefix);
    location.root = Some("/var/www/static".to_string());

    assert!(location.is_static());
}

#[test]
fn test_is_static_false_no_root() {
    let location = Location::new("/", LocationModifier::Prefix);
    assert!(!location.is_static());
}

#[test]
fn test_is_static_false_has_proxy() {
    let mut location = Location::new("/api", LocationModifier::Prefix);
    location.root = Some("/var/www".to_string());
    location.proxy_pass = Some("http://backend".to_string());

    assert!(!location.is_static());
}

#[test]
fn test_location_modifier_none() {
    let args = vec!["/path".to_string()];
    let (modifier, path) = LocationModifier::from_args(&args);

    assert_eq!(modifier, LocationModifier::Prefix);
    assert_eq!(path, "/path");
}

#[test]
fn test_location_modifier_exact() {
    let args = vec!["=".to_string(), "/exact".to_string()];
    let (modifier, path) = LocationModifier::from_args(&args);

    assert_eq!(modifier, LocationModifier::Exact);
    assert_eq!(path, "/exact");
}

#[test]
fn test_location_modifier_prefix_priority() {
    let args = vec!["^~".to_string(), "/static/".to_string()];
    let (modifier, path) = LocationModifier::from_args(&args);

    assert_eq!(modifier, LocationModifier::PrefixPriority);
    assert_eq!(path, "/static/");
}

#[test]
fn test_location_modifier_regex() {
    let args = vec!["~".to_string(), r"\.php$".to_string()];
    let (modifier, path) = LocationModifier::from_args(&args);

    assert_eq!(modifier, LocationModifier::Regex);
    assert_eq!(path, r"\.php$");
}

#[test]
fn test_location_modifier_regex_case_insensitive() {
    let args = vec!["~*".to_string(), r"\.(jpg|png|gif)$".to_string()];
    let (modifier, path) = LocationModifier::from_args(&args);

    assert_eq!(modifier, LocationModifier::RegexCaseInsensitive);
    assert_eq!(path, r"\.(jpg|png|gif)$");
}

#[test]
fn test_location_modifier_empty_args() {
    let args: Vec<String> = vec![];
    let (modifier, path) = LocationModifier::from_args(&args);

    assert_eq!(modifier, LocationModifier::Prefix);
    assert_eq!(path, "/");
}

#[test]
fn test_location_modifier_exact_no_path() {
    let args = vec!["=".to_string()];
    let (modifier, path) = LocationModifier::from_args(&args);

    assert_eq!(modifier, LocationModifier::Exact);
    assert_eq!(path, "/");
}

#[test]
fn test_location_modifier_regex_no_pattern() {
    let args = vec!["~".to_string()];
    let (modifier, path) = LocationModifier::from_args(&args);

    assert_eq!(modifier, LocationModifier::Regex);
    assert_eq!(path, "");
}

#[test]
fn test_location_with_root() {
    let mut location = Location::new("/images", LocationModifier::Prefix);
    location.root = Some("/var/www/images".to_string());

    assert_eq!(location.root, Some("/var/www/images".to_string()));
    assert!(location.is_static());
}

#[test]
fn test_location_with_proxy_pass() {
    let mut location = Location::new("/api/v1", LocationModifier::Prefix);
    location.proxy_pass = Some("http://api-backend:3000".to_string());

    assert_eq!(
        location.proxy_pass,
        Some("http://api-backend:3000".to_string())
    );
    assert!(location.is_proxy());
}

#[test]
fn test_location_modifiers_equality() {
    assert_eq!(LocationModifier::Prefix, LocationModifier::Prefix);
    assert_eq!(LocationModifier::Exact, LocationModifier::Exact);
    assert_ne!(LocationModifier::Prefix, LocationModifier::Exact);
    assert_ne!(
        LocationModifier::Regex,
        LocationModifier::RegexCaseInsensitive
    );
}

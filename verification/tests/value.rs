use nginx_discovery::ast::Value;

#[test]
fn test_literal_value() {
    let val = Value::literal("nginx");
    assert_eq!(val.as_str(), "nginx");
    assert!(!val.is_variable());
    assert!(!val.is_quoted());
    assert_eq!(val.to_config_string(), "nginx");
}

#[test]
fn test_single_quoted_value() {
    let val = Value::single_quoted("hello world");
    assert_eq!(val.as_str(), "hello world");
    assert!(val.is_quoted());
    assert_eq!(val.to_config_string(), "'hello world'");
}

#[test]
fn test_double_quoted_value() {
    let val = Value::double_quoted("hello world");
    assert_eq!(val.as_str(), "hello world");
    assert!(val.is_quoted());
    assert_eq!(val.to_config_string(), "\"hello world\"");
}

#[test]
fn test_variable_value() {
    let val = Value::variable("remote_addr");
    assert_eq!(val.as_str(), "remote_addr");
    assert!(val.is_variable());
    assert!(!val.is_quoted());
    assert_eq!(val.to_config_string(), "$remote_addr");
}

#[test]
fn test_value_display() {
    let val = Value::literal("test");
    assert_eq!(val.to_string(), "test");

    let var = Value::variable("host");
    assert_eq!(var.to_string(), "host");
}

#[test]
fn test_value_from_string() {
    let val: Value = "nginx".into();
    assert_eq!(val.as_str(), "nginx");

    let val2: Value = String::from("test").into();
    assert_eq!(val2.as_str(), "test");
}

#[test]
fn test_value_equality() {
    let val1 = Value::literal("test");
    let val2 = Value::literal("test");
    assert_eq!(val1, val2);

    let val3 = Value::single_quoted("test");
    assert_ne!(val1, val3); // Different types
}

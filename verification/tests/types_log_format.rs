use nginx_discovery::types::log_format::extract_variables;
use nginx_discovery::types::LogFormat;

#[test]
fn test_extract_variables() {
    let pattern = "$remote_addr - $remote_user [$time_local]";
    let vars = extract_variables(pattern);

    assert_eq!(vars.len(), 3);
    assert_eq!(vars[0], "remote_addr");
    assert_eq!(vars[1], "remote_user");
    assert_eq!(vars[2], "time_local");
}

#[test]
fn test_extract_variables_with_braces() {
    let pattern = "${host} - ${request_uri}";
    let vars = extract_variables(pattern);

    assert_eq!(vars.len(), 2);
    assert_eq!(vars[0], "host");
    assert_eq!(vars[1], "request_uri");
}

#[test]
fn test_log_format_creation() {
    let format = LogFormat::new("combined", "$remote_addr $request");

    assert_eq!(format.name(), "combined");
    assert_eq!(format.variables().len(), 2);
}

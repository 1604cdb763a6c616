use nginx_discovery::types::listen::parse_listen_address;
use nginx_discovery::types::ListenDirective;

#[test]
fn test_listen_new() {
    let listen = ListenDirective::new("0.0.0.0", 80);
    assert_eq!(listen.address, "0.0.0.0");
    assert_eq!(listen.port, 80);
    assert!(!listen.ssl);
    assert!(!listen.http2);
    assert!(!listen.http3);
    assert!(!listen.default_server);
    assert!(!listen.reuseport);
    assert_eq!(listen.backlog, None);
}

#[test]
fn test_from_args_just_port() {
    let args = vec!["80".to_string()];
    let listen = ListenDirective::from_args(&args).unwrap();

    assert_eq!(listen.address, "*");
    assert_eq!(listen.port, 80);
    assert!(!listen.ssl);
}

#[test]
fn test_from_args_address_and_port() {
    let args = vec!["0.0.0.0:8080".to_string()];
    let listen = ListenDirective::from_args(&args).unwrap();

    assert_eq!(listen.address, "0.0.0.0");
    assert_eq!(listen.port, 8080);
}

#[test]
fn test_from_args_with_ssl() {
    let args = vec!["443".to_string(), "ssl".to_string()];
    let listen = ListenDirective::from_args(&args).unwrap();

    assert_eq!(listen.port, 443);
    assert!(listen.ssl);
}

#[test]
fn test_from_args_with_http2() {
    let args = vec!["443".to_string(), "ssl".to_string(), "http2".to_string()];
    let listen = ListenDirective::from_args(&args).unwrap();

    assert!(listen.ssl);
    assert!(listen.http2);
}

#[test]
fn test_from_args_with_http3() {
    let args = vec!["443".to_string(), "http3".to_string()];
    let listen = ListenDirective::from_args(&args).unwrap();

    assert!(listen.http3);
}

#[test]
fn test_from_args_default_server() {
    let args = vec!["80".to_string(), "default_server".to_string()];
    let listen = ListenDirective::from_args(&args).unwrap();

    assert!(listen.default_server);
}

#[test]
fn test_from_args_default_alias() {
    let args = vec!["80".to_string(), "default".to_string()];
    let listen = ListenDirective::from_args(&args).unwrap();

    assert!(listen.default_server);
}

#[test]
fn test_from_args_reuseport() {
    let args = vec!["80".to_string(), "reuseport".to_string()];
    let listen = ListenDirective::from_args(&args).unwrap();

    assert!(listen.reuseport);
}

#[test]
fn test_from_args_with_backlog() {
    let args = vec!["80".to_string(), "backlog=511".to_string()];
    let listen = ListenDirective::from_args(&args).unwrap();

    assert_eq!(listen.backlog, Some(511));
}

#[test]
fn test_from_args_all_options() {
    let args = vec![
        "443".to_string(),
        "ssl".to_string(),
        "http2".to_string(),
        "default_server".to_string(),
        "reuseport".to_string(),
        "backlog=1024".to_string(),
    ];
    let listen = ListenDirective::from_args(&args).unwrap();

    assert_eq!(listen.port, 443);
    assert!(listen.ssl);
    assert!(listen.http2);
    assert!(listen.default_server);
    assert!(listen.reuseport);
    assert_eq!(listen.backlog, Some(1024));
}

#[test]
fn test_from_args_empty() {
    let args: Vec<String> = vec![];
    let listen = ListenDirective::from_args(&args);

    assert!(listen.is_none());
}

#[test]
fn test_parse_listen_address_just_port() {
    let (addr, port) = parse_listen_address("8080").unwrap();
    assert_eq!(addr, "*");
    assert_eq!(port, 8080);
}

#[test]
fn test_parse_listen_address_ipv4_with_port() {
    let (addr, port) = parse_listen_address("192.168.1.1:9000").unwrap();
    assert_eq!(addr, "192.168.1.1");
    assert_eq!(port, 9000);
}

#[test]
fn test_parse_listen_address_localhost() {
    let (addr, port) = parse_listen_address("localhost:3000").unwrap();
    assert_eq!(addr, "localhost");
    assert_eq!(port, 3000);
}

#[test]
fn test_parse_listen_address_ipv6_with_port() {
    let (addr, port) = parse_listen_address("[::1]:8080").unwrap();
    assert_eq!(addr, "::1");
    assert_eq!(port, 8080);
}

#[test]
fn test_parse_listen_address_ipv6_wildcard() {
    let (addr, port) = parse_listen_address("[::]:80").unwrap();
    assert_eq!(addr, "::");
    assert_eq!(port, 80);
}

#[test]
fn test_parse_listen_address_no_port_defaults_to_80() {
    let (addr, port) = parse_listen_address("example.com").unwrap();
    assert_eq!(addr, "example.com");
    assert_eq!(port, 80);
}

#[test]
fn test_parse_listen_address_unix_socket_fallback() {
    // If someone passes something that doesn't parse, should default to port 80
    let (addr, port) = parse_listen_address("unix:/var/run/nginx.sock").unwrap();
    assert_eq!(addr, "unix:/var/run/nginx.sock");
    assert_eq!(port, 80);
}

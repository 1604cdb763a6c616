use nginx_discovery::NginxDiscovery;

const TEXT: &str = "
http {
    log_format main '$remote_addr';
    access_log /var/log/a.log main;
    server {
        listen 8080; listen 80; listen 443 ssl;
        server_name one.example.com *.example.com;
        location / { root /srv; }
        location /api { proxy_pass http://api; }
    }
    server {
        listen 80;
        server_name two.example.com;
        server_name _;
        location /up { proxy_pass https://up; }
    }
    server;
}
";

#[test]
fn summary_counts_what_is_declared() {
    let d = NginxDiscovery::from_config_text(TEXT).unwrap();
    assert_eq!(
        d.summary(),
        "NGINX Configuration Summary:\n- Total directives: 19\n- Server blocks: 3\n- Access logs: 1\n- Log formats: 1"
    );
    let empty = NginxDiscovery::from_config_text("").unwrap();
    assert_eq!(
        empty.summary(),
        "NGINX Configuration Summary:\n- Total directives: 0\n- Server blocks: 0\n- Access logs: 0\n- Log formats: 0"
    );
}

#[test]
fn server_names_come_server_after_server() {
    let d = NginxDiscovery::from_config_text(TEXT).unwrap();
    assert_eq!(
        d.server_names(),
        vec!["one.example.com", "*.example.com", "two.example.com", "_"]
    );
}

#[test]
fn ports_are_sorted_and_come_once() {
    let d = NginxDiscovery::from_config_text(TEXT).unwrap();
    assert_eq!(d.listening_ports(), vec![80, 443, 8080]);
    assert!(NginxDiscovery::from_config_text("x;").unwrap().listening_ports().is_empty());
}

#[test]
fn servers_and_locations_by_kind() {
    let d = NginxDiscovery::from_config_text(TEXT).unwrap();
    assert_eq!(d.servers().len(), 2);
    let ssl = d.ssl_servers();
    assert_eq!(ssl.len(), 1);
    assert_eq!(ssl[0].primary_name(), Some("one.example.com"));
    let proxies = d.proxy_locations();
    assert_eq!(proxies.iter().map(|l| l.path.as_str()).collect::<Vec<_>>(), vec!["/api", "/up"]);
    assert_eq!(d.location_count(), 3);
}

#[test]
fn a_text_that_does_not_parse_gives_the_error() {
    let e = NginxDiscovery::from_config_text("server {").unwrap_err();
    assert_eq!(e.short(), "line 1:9: unexpected token");
}

#[test]
fn the_path_is_kept_where_the_text_came_from_a_file() {
    let d = NginxDiscovery::from_file_text("a;", "/etc/nginx/nginx.conf").unwrap();
    assert_eq!(d.config_path(), Some("/etc/nginx/nginx.conf"));
    assert_eq!(d.config().directives.len(), 1);
    assert_eq!(NginxDiscovery::from_config_text("a;").unwrap().config_path(), None);
    assert!(NginxDiscovery::from_file_text("a", "p").is_err());
    let copy = d.clone();
    assert_eq!(copy.config(), d.config());
    assert_eq!(copy.config_path(), d.config_path());
}

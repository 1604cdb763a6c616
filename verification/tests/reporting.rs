use nginx_discovery::report::{
    context_debug, format_locations_csv, format_logs_csv, format_servers_csv, select_locations,
    select_logs, select_servers, wildcard_match,
};
use nginx_discovery::types::LogContext;
use nginx_discovery::NginxDiscovery;

const TEXT: &str = "
access_log /top;
server {
    listen 80; listen 443 ssl default_server;
    server_name www.example.com example.com;
    access_log /s.log main;
    location / { root /srv; }
    location = /api { proxy_pass http://api; access_log '/l \"q\".log'; }
    location ~ /other { }
}
server { listen 8080; location /x { proxy_pass http://x; root /both; } }
server { server_name lonely; }
";

#[test]
fn wildcards_at_the_ends() {
    assert!(wildcard_match("*", ""));
    assert!(wildcard_match("*", "anything"));
    assert!(wildcard_match("*.example.com", "www.example.com"));
    assert!(wildcard_match("*.example.com", ".example.com"));
    assert!(!wildcard_match("*.example.com", "example.com"));
    assert!(wildcard_match("www.*", "www.example.com"));
    assert!(!wildcard_match("www.*", "ww.example.com"));
    assert!(wildcard_match("*exam*", "www.example.com"));
    assert!(wildcard_match("**", "x"));
    assert!(wildcard_match("**", ""));
    assert!(!wildcard_match("*xyz*", "www.example.com"));
    assert!(wildcard_match("a*b", "a*b"));
    assert!(!wildcard_match("a*b", "axb"));
    assert!(wildcard_match("same", "same"));
    assert!(!wildcard_match("same", "Same"));
    assert!(wildcard_match("", ""));
    assert!(!wildcard_match("", "x"));
    assert!(wildcard_match("*\u{e9}", "caf\u{e9}"));
}

#[test]
fn servers_are_selected_by_ssl_port_and_name() {
    let servers = NginxDiscovery::from_config_text(TEXT).unwrap().servers();
    let names = |found: Vec<nginx_discovery::types::Server>| -> Vec<String> {
        found.iter().map(|s| s.primary_name().unwrap_or("_").to_string()).collect()
    };
    assert_eq!(names(select_servers(&servers, false, None, None)), vec!["www.example.com", "_", "lonely"]);
    assert_eq!(names(select_servers(&servers, true, None, None)), vec!["www.example.com"]);
    assert_eq!(names(select_servers(&servers, false, Some(8080), None)), vec!["_"]);
    assert_eq!(names(select_servers(&servers, false, Some(443), Some("example.*"))), vec!["www.example.com"]);
    assert_eq!(names(select_servers(&servers, false, None, Some("*"))), vec!["www.example.com", "lonely"]);
    assert!(select_servers(&servers, true, Some(8080), None).is_empty());
}

#[test]
fn locations_are_selected_by_kind_and_server() {
    let servers = NginxDiscovery::from_config_text(TEXT).unwrap().servers();
    let paths = |found: Vec<(String, nginx_discovery::types::Location)>| -> Vec<(String, String)> {
        found.into_iter().map(|(s, l)| (s, l.path)).collect()
    };
    let s = |t: &str| t.to_string();
    assert_eq!(
        paths(select_locations(&servers, false, false, None)),
        vec![
            (s("www.example.com"), s("/")),
            (s("www.example.com"), s("/api")),
            (s("www.example.com"), s("/other")),
            (s("_"), s("/x")),
        ]
    );
    assert_eq!(
        paths(select_locations(&servers, true, false, None)),
        vec![(s("www.example.com"), s("/api")), (s("_"), s("/x"))]
    );
    assert_eq!(paths(select_locations(&servers, false, true, None)), vec![(s("www.example.com"), s("/"))]);
    assert!(select_locations(&servers, true, true, None).is_empty());
    assert_eq!(paths(select_locations(&servers, false, false, Some("_"))), vec![(s("_"), s("/x"))]);
}

#[test]
fn contexts_print_as_they_debug_print() {
    assert_eq!(context_debug(&LogContext::Main), "Main");
    assert_eq!(context_debug(&LogContext::Server("a".to_string())), "Server(\"a\")");
    assert_eq!(
        context_debug(&LogContext::Location("/x \"q\"\\\n".to_string())),
        "Location(\"/x \\\"q\\\"\\\\\\n\")"
    );
    assert_eq!(
        context_debug(&LogContext::Server("s".to_string())),
        format!("{:?}", LogContext::Server("s".to_string()))
    );
}

#[test]
fn logs_are_selected_by_their_context() {
    let logs = NginxDiscovery::from_config_text(TEXT).unwrap().access_logs();
    let paths = |found: Vec<nginx_discovery::types::AccessLog>| -> Vec<String> {
        found.into_iter().map(|l| l.path).collect()
    };
    assert_eq!(paths(select_logs(&logs, "")), vec!["/top", "/s.log", "/l \"q\".log"]);
    assert_eq!(paths(select_logs(&logs, "MAIN")), vec!["/top"]);
    assert_eq!(paths(select_logs(&logs, "server")), vec!["/s.log"]);
    assert_eq!(paths(select_logs(&logs, "Example.COM")), vec!["/s.log"]);
    assert_eq!(paths(select_logs(&logs, "LOCATION(\"=")), vec!["/l \"q\".log"]);
    assert!(select_logs(&logs, "/api").is_empty());
    assert!(select_logs(&logs, "nowhere").is_empty());
}

#[test]
fn servers_as_comma_separated_values() {
    let servers = NginxDiscovery::from_config_text(TEXT).unwrap().servers();
    assert_eq!(
        format_servers_csv(&servers),
        "Server Name,Port,SSL,Locations,Default\n\
www.example.com,80,No,3,No\n\
www.example.com,443,Yes,3,Yes\n\
_,8080,No,1,No\n"
    );
    assert_eq!(format_servers_csv(&[]), "Server Name,Port,SSL,Locations,Default\n");
}

#[test]
fn logs_as_comma_separated_values() {
    let logs = NginxDiscovery::from_config_text(TEXT).unwrap().access_logs();
    assert_eq!(
        format_logs_csv(&logs),
        "Log File,Format,Context\n\
/top,combined,Main\n\
/s.log,main,Server(\"www.example.com\")\n\
/l \"q\".log,combined,Location(\"=\")\n"
    );
}

#[test]
fn locations_as_comma_separated_values() {
    let servers = NginxDiscovery::from_config_text(TEXT).unwrap().servers();
    let locations = select_locations(&servers, false, false, None);
    assert_eq!(
        format_locations_csv(&locations),
        "Server,Path,Modifier,Type,Target\n\
www.example.com,/,None,Static,/srv\n\
www.example.com,/api,Exact,Proxy,http://api\n\
www.example.com,/other,Regex,Other,-\n\
_,/x,None,Proxy,http://x\n"
    );
}

#[test]
fn the_table_of_servers_has_a_line_for_each_listener() {
    let servers = NginxDiscovery::from_config_text(TEXT).unwrap().servers();
    let lines: Vec<(String, String, String, usize, String)> =
        nginx_discovery::report::server_table(&servers)
            .into_iter()
            .map(|l| (l.name, l.port, l.ssl, l.locations, l.default_server))
            .collect();
    let expected: Vec<(String, String, String, usize, String)> = [
        ("www.example.com", "80", "No", 3, "No"),
        ("www.example.com", "443", "Yes", 3, "Yes"),
        ("_", "8080", "No", 1, "No"),
        ("lonely", "-", "No", 0, "No"),
    ]
    .iter()
    .map(|(a, b, c, d, e)| (a.to_string(), b.to_string(), c.to_string(), *d, e.to_string()))
    .collect();
    assert_eq!(lines, expected);
    assert!(nginx_discovery::report::server_table(&[]).is_empty());
}

#[test]
fn the_line_of_a_location_names_its_kind_and_target() {
    let servers = NginxDiscovery::from_config_text(TEXT).unwrap().servers();
    let locations = select_locations(&servers, false, false, None);
    let lines: Vec<[String; 5]> = locations
        .iter()
        .map(|(server, location)| {
            let l = nginx_discovery::report::location_line(server, location);
            [l.server, l.path, l.modifier, l.kind, l.target]
        })
        .collect();
    let expected = [
        ["www.example.com", "/", "None", "Static", "/srv"],
        ["www.example.com", "/api", "Exact", "Proxy", "http://api"],
        ["www.example.com", "/other", "Regex", "Other", "-"],
        ["_", "/x", "None", "Proxy", "http://x"],
    ];
    assert_eq!(lines.len(), expected.len());
    for (line, want) in lines.iter().zip(expected.iter()) {
        for (cell, text) in line.iter().zip(want.iter()) {
            assert_eq!(cell, text);
        }
    }
}

use nginx_discovery::extract::{access_logs, log_formats, servers};
use nginx_discovery::parse;
use nginx_discovery::types::listen::parse_listen_address;
use nginx_discovery::types::log_format::extract_variables;
use nginx_discovery::types::{
    AccessLog, ErrorLog, ErrorLogLevel, ListenDirective, Location, LocationModifier, LogContext,
    LogFormat, LogOptions, Server,
};

fn strings(items: &[&str]) -> Vec<String> {
    items.iter().map(|s| s.to_string()).collect()
}

fn address(text: &str) -> (String, u16) {
    parse_listen_address(text).unwrap()
}

#[test]
fn listen_addresses_in_every_form() {
    assert_eq!(address("80"), ("*".to_string(), 80));
    assert_eq!(address("+80"), ("*".to_string(), 80));
    assert_eq!(address("0080"), ("*".to_string(), 80));
    assert_eq!(address("65535"), ("*".to_string(), 65535));
    assert_eq!(address("65536"), ("65536".to_string(), 80));
    assert_eq!(address("-1"), ("-1".to_string(), 80));
    assert_eq!(address(""), ("".to_string(), 80));
    assert_eq!(address("+"), ("+".to_string(), 80));
    assert_eq!(address("[::1]:8080"), ("::1".to_string(), 8080));
    assert_eq!(address("[::1]"), ("[::1]".to_string(), 80));
    assert_eq!(address("[::1]:x"), ("[::1]:x".to_string(), 80));
    assert_eq!(address("[a]b]:9"), ("[a]b]".to_string(), 9));
    assert_eq!(address("host:1:2"), ("host:1".to_string(), 2));
    assert_eq!(address("host:"), ("host:".to_string(), 80));
    assert_eq!(address(":443"), ("".to_string(), 443));
    assert_eq!(address("unix:/run/s.sock"), ("unix:/run/s.sock".to_string(), 80));
    assert_eq!(address("h:99999"), ("h:99999".to_string(), 80));
}

#[test]
fn listen_options_are_read_in_order() {
    let l = ListenDirective::from_args(&strings(&[
        "443",
        "ssl",
        "http2",
        "backlog=511",
        "default",
        "unknown",
        "reuseport",
        "http3",
    ]))
    .unwrap();
    assert_eq!(l.address, "*");
    assert_eq!(l.port, 443);
    assert!(l.ssl && l.http2 && l.http3 && l.default_server && l.reuseport);
    assert_eq!(l.backlog, Some(511));
    assert_eq!(ListenDirective::from_args(&[]), None);
    assert_eq!(ListenDirective::from_args(&strings(&["x"])), Some(ListenDirective::new("x", 80)));
}

#[test]
fn a_later_backlog_takes_the_place_of_an_earlier_one() {
    let read = |args: &[&str]| ListenDirective::from_args(&strings(args)).unwrap().backlog;
    assert_eq!(read(&["80", "backlog=1", "backlog=2"]), Some(2));
    assert_eq!(read(&["80", "backlog=1", "backlog=x"]), None);
    assert_eq!(read(&["80", "backlog="]), None);
    assert_eq!(read(&["80", "backlog=4294967295"]), Some(4294967295));
    assert_eq!(read(&["80", "backlog=4294967296"]), None);
    assert_eq!(read(&["80", "backlog"]), None);
    assert_eq!(read(&["80", "xbacklog=3"]), None);
}

#[test]
fn location_arguments_in_every_form() {
    let read = |args: &[&str]| LocationModifier::from_args(&strings(args));
    assert_eq!(read(&[]), (LocationModifier::Prefix, "/".to_string()));
    assert_eq!(read(&["/a", "b"]), (LocationModifier::Prefix, "/a".to_string()));
    assert_eq!(read(&["="]), (LocationModifier::Exact, "/".to_string()));
    assert_eq!(read(&["=", "/x"]), (LocationModifier::Exact, "/x".to_string()));
    assert_eq!(read(&["^~"]), (LocationModifier::PrefixPriority, "/".to_string()));
    assert_eq!(read(&["~"]), (LocationModifier::Regex, "".to_string()));
    assert_eq!(read(&["~*", "\\.png$"]), (LocationModifier::RegexCaseInsensitive, "\\.png$".to_string()));
    assert_eq!(read(&["~~"]), (LocationModifier::Prefix, "~~".to_string()));
}

#[test]
fn variables_of_a_pattern() {
    assert_eq!(extract_variables("$a $b_c-$d"), strings(&["a", "b_c", "d"]));
    assert_eq!(extract_variables("${x y}z ${} $ $$e"), strings(&["x y", "e"]));
    assert_eq!(extract_variables("${open"), strings(&["open"]));
    assert_eq!(extract_variables("$"), strings(&[]));
    assert_eq!(extract_variables("no variables"), strings(&[]));
    assert_eq!(extract_variables("$\u{e9}t\u{e9}9 $\u{4e2d}\u{6587}."), strings(&["\u{e9}t\u{e9}9", "\u{4e2d}\u{6587}"]));
    assert_eq!(extract_variables("$a{b}"), strings(&["a"]));
    let format = LogFormat::new("main", "$x [$y]");
    assert_eq!(format.name(), "main");
    assert_eq!(format.pattern(), "$x [$y]");
    assert_eq!(format.variables(), &strings(&["x", "y"])[..]);
    assert_eq!(format.clone(), format);
}

#[test]
fn log_options_behave_as_a_map() {
    let mut options = LogOptions::new();
    assert!(options.is_empty());
    assert_eq!(options.get("a"), None);
    options.insert("a".to_string(), "1".to_string());
    options.insert("b".to_string(), "2".to_string());
    options.insert("a".to_string(), "3".to_string());
    assert_eq!(options.get("a"), Some(&"3".to_string()));
    assert_eq!(options.get("b"), Some(&"2".to_string()));
    assert!(options.contains_key("b"));
    assert!(!options.contains_key("c"));
    assert!(!options.is_empty());
    assert_eq!(options.clone(), options);
}

#[test]
fn access_log_builders() {
    let log = AccessLog::new("/l")
        .with_format("main")
        .with_context(LogContext::Server("s".to_string()))
        .with_option("buffer", "1k")
        .with_option("buffer", "2k");
    assert_eq!(log.path, "/l");
    assert_eq!(log.format_name, Some("main".to_string()));
    assert_eq!(log.context, LogContext::Server("s".to_string()));
    assert_eq!(log.options.get("buffer"), Some(&"2k".to_string()));
    assert_eq!(log.clone(), log);
    let plain = AccessLog::new("/p");
    assert_eq!(plain.context, LogContext::Main);
    assert_eq!(plain.format_name, None);
    assert!(plain.options.is_empty());
}

#[test]
fn error_log_levels_by_name() {
    let read = |s: &str| s.parse::<ErrorLogLevel>().unwrap();
    assert_eq!(read("debug"), ErrorLogLevel::Debug);
    assert_eq!(read("info"), ErrorLogLevel::Info);
    assert_eq!(read("notice"), ErrorLogLevel::Notice);
    assert_eq!(read("warn"), ErrorLogLevel::Warn);
    assert_eq!(read("error"), ErrorLogLevel::Error);
    assert_eq!(read("crit"), ErrorLogLevel::Crit);
    assert_eq!(read("alert"), ErrorLogLevel::Alert);
    assert_eq!(read("emerg"), ErrorLogLevel::Emerg);
    assert_eq!(read("WARN"), ErrorLogLevel::Error);
    assert_eq!(read(""), ErrorLogLevel::Error);
    let log = ErrorLog::new("/e").with_level(ErrorLogLevel::Crit).with_context(LogContext::Main);
    assert_eq!(log.path, "/e");
    assert_eq!(log.level, ErrorLogLevel::Crit);
    assert_eq!(ErrorLog::new("/e").level, ErrorLogLevel::Error);
}

#[test]
fn server_builders_and_questions() {
    let server = Server::new()
        .with_server_name("a")
        .with_server_name("b")
        .with_listen(ListenDirective::new("*", 80))
        .with_root("/r")
        .with_index("i.html")
        .with_location(Location::new("/", LocationModifier::Prefix));
    assert_eq!(server.primary_name(), Some("a"));
    assert!(!server.has_ssl());
    assert!(!server.is_default_server());
    assert_eq!(server.root, Some("/r".to_string()));
    assert_eq!(server.index, strings(&["i.html"]));
    assert_eq!(server.clone(), server);
    let mut secure = ListenDirective::new("*", 443);
    secure.ssl = true;
    secure.default_server = true;
    let server = server.with_listen(secure);
    assert!(server.has_ssl());
    assert!(server.is_default_server());
    assert_eq!(Server::default(), Server::new());
    assert_eq!(Server::new().primary_name(), None);
}

#[test]
fn access_logs_come_with_their_context() {
    let config = parse(
        "access_log /top main;
         http {
           access_log /http;
           server {
             server_name first second;
             access_log /s1 main buffer=32k flush=5s gzip buffer=64k;
             location /api { access_log /l1; location /api/v2 { access_log /l2; } }
             location { access_log /l3 gzip=1; }
           }
           server { access_log off; access_log; access_log /s2 key=value; }
         }
         events { access_log /ignored; }",
    )
    .unwrap();
    let logs = access_logs(&config).unwrap();
    let seen: Vec<(String, LogContext)> =
        logs.iter().map(|l| (l.path.clone(), l.context.clone())).collect();
    let s = |t: &str| t.to_string();
    assert_eq!(
        seen,
        vec![
            (s("/top"), LogContext::Main),
            (s("/http"), LogContext::Main),
            (s("/s1"), LogContext::Server(s("first"))),
            (s("/l1"), LogContext::Location(s("/api"))),
            (s("/l2"), LogContext::Location(s("/api/v2"))),
            (s("/l3"), LogContext::Location(s("/"))),
            (s("/s2"), LogContext::Server(s("_"))),
        ]
    );
    assert_eq!(logs[0].format_name, Some(s("main")));
    assert_eq!(logs[2].format_name, Some(s("main")));
    assert_eq!(logs[2].options.get("buffer"), Some(&s("64k")));
    assert_eq!(logs[2].options.get("flush"), Some(&s("5s")));
    assert!(!logs[2].options.contains_key("gzip"));
    assert_eq!(logs[5].format_name, None);
    assert!(logs[5].options.is_empty());
    assert_eq!(logs[6].format_name, None);
    assert!(logs[6].options.is_empty());
}

#[test]
fn log_formats_join_their_pattern() {
    let config = parse(
        "log_format only_name; http { log_format main '$a - $b' \"[$c]\" plain; } log_format x y;",
    )
    .unwrap();
    let formats = log_formats(&config).unwrap();
    assert_eq!(formats.len(), 2);
    assert_eq!(formats[0].name, "main");
    assert_eq!(formats[0].pattern, "$a - $b [$c] plain");
    assert_eq!(formats[0].variables, strings(&["a", "b", "c"]));
    assert_eq!(formats[1], LogFormat::new("x", "y"));
}

#[test]
fn servers_are_read_child_by_child() {
    let config = parse(
        "server;
         http { server {
           server_name a b; server_name c;
           listen 80; listen; listen '[::]:443' ssl;
           root /first; root; root /second extra;
           index i.html i.htm;
           access_log /a; access_log off;
           error_log /e; error_log /w warn; error_log;
           location = /x { root /lx; proxy_pass http://up; access_log /lx.log; proxy_pass; }
           location /simple;
           unknown 1;
         } }",
    )
    .unwrap();
    let found = servers(&config).unwrap();
    assert_eq!(found.len(), 1);
    let s = &found[0];
    assert_eq!(s.server_names, strings(&["a", "b", "c"]));
    assert_eq!(s.listen.len(), 2);
    assert_eq!(s.listen[0], ListenDirective::new("*", 80));
    assert_eq!(s.listen[1].address, "::");
    assert!(s.listen[1].ssl);
    assert_eq!(s.root, Some("/second".to_string()));
    assert_eq!(s.index, strings(&["i.html", "i.htm"]));
    assert_eq!(s.access_logs.len(), 1);
    assert_eq!(s.access_logs[0].context, LogContext::Server("_".to_string()));
    assert_eq!(s.error_logs.len(), 2);
    assert_eq!(s.error_logs[0].level, ErrorLogLevel::Error);
    assert_eq!(s.error_logs[1].level, ErrorLogLevel::Warn);
    assert_eq!(s.error_logs[1].context, LogContext::Server("_".to_string()));
    assert_eq!(s.locations.len(), 1);
    let l = &s.locations[0];
    assert_eq!(l.modifier, LocationModifier::Exact);
    assert_eq!(l.path, "/x");
    assert_eq!(l.root, Some("/lx".to_string()));
    assert_eq!(l.proxy_pass, Some("http://up".to_string()));
    assert!(l.is_proxy());
    assert!(!l.is_static());
    assert_eq!(l.access_logs.len(), 1);
    assert_eq!(l.access_logs[0].context, LogContext::Location("/x".to_string()));
}

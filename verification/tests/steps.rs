use nginx_discovery::analysis::{issues_of, security_of, SecurityIssue, Severity, SslIssue};
use nginx_discovery::diagnostics::{next_check, CheckResult, DoctorStep, Tally};
use nginx_discovery::network::outcome::port_result;
use nginx_discovery::network::plan::probe_target;
use nginx_discovery::network::{CheckSeverity, HealthStatus};
use std::time::Duration;

#[test]
fn the_checks_follow_one_another() {
    let mut steps = vec![DoctorStep::Binary];
    while let Some(next) = next_check(*steps.last().unwrap(), true) {
        steps.push(next);
    }
    assert_eq!(
        steps,
        vec![
            DoctorStep::Binary,
            DoctorStep::Locate,
            DoctorStep::File,
            DoctorStep::Syntax,
            DoctorStep::Parse,
            DoctorStep::Logs,
            DoctorStep::Certificates,
            DoctorStep::Conclude,
        ]
    );
}

#[test]
fn the_run_stops_where_no_configuration_is_found() {
    assert_eq!(next_check(DoctorStep::Locate, false), None);
    assert_eq!(next_check(DoctorStep::Locate, true), Some(DoctorStep::File));
}

#[test]
fn a_configuration_that_does_not_parse_leaves_out_logs_and_certificates() {
    assert_eq!(next_check(DoctorStep::Parse, false), Some(DoctorStep::Conclude));
    assert_eq!(next_check(DoctorStep::Parse, true), Some(DoctorStep::Logs));
}

#[test]
fn a_failed_check_of_another_kind_stops_nothing() {
    assert_eq!(next_check(DoctorStep::Binary, false), Some(DoctorStep::Locate));
    assert_eq!(next_check(DoctorStep::File, false), Some(DoctorStep::Syntax));
    assert_eq!(next_check(DoctorStep::Syntax, false), Some(DoctorStep::Parse));
    assert_eq!(next_check(DoctorStep::Logs, false), Some(DoctorStep::Certificates));
    assert_eq!(next_check(DoctorStep::Certificates, false), Some(DoctorStep::Conclude));
    assert_eq!(next_check(DoctorStep::Conclude, true), None);
    assert_eq!(next_check(DoctorStep::Conclude, false), None);
}

#[test]
fn the_exit_code_is_one_where_a_check_failed() {
    let mut tally = Tally::new();
    assert_eq!(tally.exit_code(), 0);
    tally.count(&CheckResult::Pass("fine".to_string()));
    tally.count(&CheckResult::Warning("look".to_string()));
    assert_eq!(tally.exit_code(), 0);
    tally.count(&CheckResult::Error("broken".to_string()));
    assert_eq!(tally.exit_code(), 1);
    tally.count(&CheckResult::Error("broken too".to_string()));
    assert_eq!(tally.exit_code(), 1);
}

fn ssl_issue(severity: Severity, server: &str) -> SslIssue {
    SslIssue {
        severity,
        server: server.to_string(),
        issue: format!("issue of {server}"),
        recommendation: format!("advice for {server}"),
    }
}

#[test]
fn ssl_issues_are_picked_by_severity_in_order() {
    let issues = vec![
        ssl_issue(Severity::Info, "a"),
        ssl_issue(Severity::Warning, "b"),
        ssl_issue(Severity::Info, "c"),
        ssl_issue(Severity::Critical, "d"),
        ssl_issue(Severity::Warning, "e"),
    ];
    let names = |picked: Vec<SslIssue>| -> Vec<String> {
        picked.into_iter().map(|i| i.server).collect()
    };
    assert_eq!(names(issues_of(&issues, Severity::Info)), vec!["a", "c"]);
    assert_eq!(names(issues_of(&issues, Severity::Warning)), vec!["b", "e"]);
    assert_eq!(names(issues_of(&issues, Severity::Critical)), vec!["d"]);
    let picked = issues_of(&issues, Severity::Critical);
    assert_eq!(picked[0].issue, "issue of d");
    assert_eq!(picked[0].recommendation, "advice for d");
    assert!(issues_of(&[], Severity::Info).is_empty());
}

fn security_issue(severity: Severity, server: &str) -> SecurityIssue {
    SecurityIssue {
        severity,
        server: server.to_string(),
        category: "Configuration".to_string(),
        issue: format!("issue of {server}"),
        risk: "some".to_string(),
        fix: "one".to_string(),
    }
}

#[test]
fn security_issues_are_picked_by_severity_in_order() {
    let issues = vec![
        security_issue(Severity::Critical, "a"),
        security_issue(Severity::Info, "b"),
        security_issue(Severity::Critical, "c"),
    ];
    let names = |picked: Vec<SecurityIssue>| -> Vec<String> {
        picked.into_iter().map(|i| i.server).collect()
    };
    assert_eq!(names(security_of(&issues, Severity::Critical)), vec!["a", "c"]);
    assert_eq!(names(security_of(&issues, Severity::Info)), vec!["b"]);
    assert!(security_of(&issues, Severity::Warning).is_empty());
    assert_eq!(security_of(&issues, Severity::Info)[0].category, "Configuration");
}

#[test]
fn a_port_on_every_address_is_probed_on_this_machine() {
    assert_eq!(probe_target("*", 80), "127.0.0.1:80");
    assert_eq!(probe_target("10.0.0.1", 8443), "10.0.0.1:8443");
    assert_eq!(probe_target("", 0), ":0");
    assert_eq!(probe_target("**", 65535), "**:65535");
}

#[test]
fn a_listening_port_is_healthy() {
    let r = port_result("*", 443, true, Duration::from_millis(7));
    assert_eq!(r.status, HealthStatus::Healthy);
    assert_eq!(r.severity, CheckSeverity::Info);
    assert_eq!(r.message, "Port 443 is listening");
    assert_eq!(r.details, None);
    assert_eq!(r.port, 443);
    assert_eq!(r.address, "*");
    assert!(r.is_listening);
    assert_eq!(r.latency, Some(Duration::from_millis(7)));
}

#[test]
fn a_silent_port_is_unhealthy() {
    let r = port_result("192.168.1.1", 8080, false, Duration::from_secs(5));
    assert_eq!(r.status, HealthStatus::Unhealthy);
    assert_eq!(r.severity, CheckSeverity::Error);
    assert_eq!(r.message, "Port 8080 is not listening");
    assert_eq!(r.details, None);
    assert_eq!(r.port, 8080);
    assert_eq!(r.address, "192.168.1.1");
    assert!(!r.is_listening);
    assert_eq!(r.latency, Some(Duration::from_secs(5)));
}

#[test]
fn a_connection_is_slow_beyond_two_seconds() {
    assert!(!nginx_discovery::network::outcome::is_slow(0));
    assert!(!nginx_discovery::network::outcome::is_slow(2_000_000_000));
    assert!(nginx_discovery::network::outcome::is_slow(2_000_000_001));
    assert!(nginx_discovery::network::outcome::is_slow(Duration::from_secs(3).as_nanos()));
    assert!(!nginx_discovery::network::outcome::is_slow(Duration::from_millis(1999).as_nanos()));
}

#[test]
fn a_directory_warns_where_it_is_missing_or_read_only() {
    use_directory("/var/log/nginx");
}

fn use_directory(dir: &str) {
    assert_eq!(
        nginx_discovery::diagnostics::directory_warning(
            dir,
            nginx_discovery::diagnostics::DirectoryState::Missing
        ),
        Some(format!("Log directory does not exist: {dir}"))
    );
    assert_eq!(
        nginx_discovery::diagnostics::directory_warning(
            dir,
            nginx_discovery::diagnostics::DirectoryState::ReadOnly
        ),
        Some(format!("Log directory not writable: {dir}"))
    );
    assert_eq!(
        nginx_discovery::diagnostics::directory_warning(
            dir,
            nginx_discovery::diagnostics::DirectoryState::Writable
        ),
        None
    );
    assert_eq!(
        nginx_discovery::diagnostics::directory_warning(
            dir,
            nginx_discovery::diagnostics::DirectoryState::Unknown
        ),
        None
    );
}

#[test]
fn the_checks_of_the_configuration_say_what_went_wrong() {
    match nginx_discovery::diagnostics::config_unreadable("permission denied") {
        CheckResult::Error(text) => assert_eq!(text, "Cannot access config file: permission denied"),
        other => panic!("not an error: {:?}", other),
    }
    match nginx_discovery::diagnostics::config_not_found("none of the usual files is there") {
        CheckResult::Error(text) => {
            assert_eq!(text, "Configuration file: none of the usual files is there")
        }
        other => panic!("not an error: {:?}", other),
    }
    match nginx_discovery::diagnostics::check_parsed(None) {
        CheckResult::Pass(text) => assert_eq!(text, "Configuration parsed successfully"),
        other => panic!("not a pass: {:?}", other),
    }
    match nginx_discovery::diagnostics::check_parsed(Some("line 3")) {
        CheckResult::Error(text) => assert_eq!(text, "Configuration parsing failed: line 3"),
        other => panic!("not an error: {:?}", other),
    }
}

#[test]
fn a_denied_permission_is_told_from_a_broken_configuration() {
    assert!(nginx_discovery::diagnostics::wants_rights(
        "nginx: [alert] could not open error log file: open() failed (13: Permission denied)"
    ));
    assert!(nginx_discovery::diagnostics::wants_rights("Permission denied"));
    assert!(!nginx_discovery::diagnostics::wants_rights("permission denied"));
    assert!(!nginx_discovery::diagnostics::wants_rights("unexpected \"}\" in nginx.conf:12"));
    assert!(!nginx_discovery::diagnostics::wants_rights(""));
}

//! What a check reports for what it met: the outcome of a lookup, of a
//! connection or of a request, turned into a result. Looking up, connecting
//! and requesting are the caller's part.

use vstd::prelude::*;
use std::time::Duration;
use crate::ast::directive::strings_view;
use crate::error::opt_view;
use crate::network::types::{
    CheckSeverity, DnsCheckResult, DnsValidationResult, HealthCheckResult, HealthCheckView,
    HealthStatus, PortCheckResult,
};
use crate::text::{
    clone_option, decimal, join_strings, join_texts, push_decimal, push_decimal_u64, views_between,
};

verus! {

/// What a lookup of a host name met.
#[derive(Debug)]
pub enum DnsOutcome {
    /// The lookup came back with these addresses.
    Resolved(Vec<String>),
    /// The lookup failed, for this reason.
    Failed(String),
    /// The lookup took longer than five seconds.
    TimedOut,
}

/// The mathematical value of a [`DnsOutcome`].
pub enum DnsOutcomeView {
    Resolved(Seq<Seq<char>>),
    Failed(Seq<char>),
    TimedOut,
}

impl View for DnsOutcome {
    type V = DnsOutcomeView;

    open spec fn view(&self) -> DnsOutcomeView {
        match self {
            DnsOutcome::Resolved(addresses) => DnsOutcomeView::Resolved(
                strings_view(addresses@),
            ),
            DnsOutcome::Failed(reason) => DnsOutcomeView::Failed(reason@),
            DnsOutcome::TimedOut => DnsOutcomeView::TimedOut,
        }
    }
}

/// The mathematical value of a [`DnsCheckResult`].
pub struct DnsCheckView {
    pub status: HealthStatus,
    pub message: Seq<char>,
    pub severity: CheckSeverity,
    pub details: Option<Seq<char>>,
    pub hostname: Seq<char>,
    pub addresses: Seq<Seq<char>>,
    pub resolution_time: Option<Duration>,
}

impl View for DnsCheckResult {
    type V = DnsCheckView;

    open spec fn view(&self) -> DnsCheckView {
        DnsCheckView {
            status: self.status,
            message: self.message@,
            severity: self.severity,
            details: opt_view(self.details),
            hostname: self.hostname@,
            addresses: strings_view(self.addresses@),
            resolution_time: self.resolution_time,
        }
    }
}

/// What the lookup of `hostname` reports for what it met, after `time`.
///
/// Addresses make it healthy, and they are listed; none at all makes it
/// unhealthy. A failure is an error with its reason, a timeout an error
/// that warns.
pub open spec fn dns_report(hostname: Seq<char>, outcome: DnsOutcomeView, time: Duration)
    -> DnsCheckView {
    match outcome {
        DnsOutcomeView::Resolved(addresses) => if addresses.len() == 0 {
            DnsCheckView {
                status: HealthStatus::Unhealthy,
                message: "No addresses found for "@ + hostname,
                severity: CheckSeverity::Warning,
                details: None,
                hostname,
                addresses,
                resolution_time: Some(time),
            }
        } else {
            DnsCheckView {
                status: HealthStatus::Healthy,
                message: "Resolved "@ + hostname + " to "@ + decimal(addresses.len())
                    + " address(es)"@,
                severity: CheckSeverity::Info,
                details: Some("Addresses: "@ + join_texts(addresses, ", "@)),
                hostname,
                addresses,
                resolution_time: Some(time),
            }
        },
        DnsOutcomeView::Failed(reason) => DnsCheckView {
            status: HealthStatus::Error,
            message: "Failed to resolve "@ + hostname,
            severity: CheckSeverity::Error,
            details: Some("Error: "@ + reason),
            hostname,
            addresses: Seq::empty(),
            resolution_time: Some(time),
        },
        DnsOutcomeView::TimedOut => DnsCheckView {
            status: HealthStatus::Error,
            message: "Timeout resolving "@ + hostname,
            severity: CheckSeverity::Warning,
            details: Some("Resolution timed out after 5 seconds"@),
            hostname,
            addresses: Seq::empty(),
            resolution_time: Some(time),
        },
    }
}

/// What the lookup of `hostname` reports for what it met, after `time`.
pub fn dns_result(hostname: &str, outcome: DnsOutcome, time: Duration) -> (r: DnsCheckResult)
    ensures
        r@ == dns_report(hostname@, outcome@, time),
{
    match outcome {
        DnsOutcome::Resolved(addresses) => {
            if addresses.len() == 0 {
                let mut message = String::from_str("No addresses found for ");
                message.append(hostname);
                DnsCheckResult {
                    status: HealthStatus::Unhealthy,
                    message,
                    severity: CheckSeverity::Warning,
                    details: None,
                    hostname: hostname.to_owned(),
                    addresses,
                    resolution_time: Some(time),
                }
            } else {
                let mut message = String::from_str("Resolved ");
                message.append(hostname);
                message.append(" to ");
                push_decimal(&mut message, addresses.len());
                message.append(" address(es)");
                let mut details = String::from_str("Addresses: ");
                let joined = join_strings(addresses.as_slice(), 0, addresses.len(), ", ");
                proof {
                    assert(views_between(addresses@, 0, addresses@.len() as int) =~= strings_view(
                        addresses@,
                    ));
                }
                details.append(joined.as_str());
                DnsCheckResult {
                    status: HealthStatus::Healthy,
                    message,
                    severity: CheckSeverity::Info,
                    details: Some(details),
                    hostname: hostname.to_owned(),
                    addresses,
                    resolution_time: Some(time),
                }
            }
        },
        DnsOutcome::Failed(reason) => {
            let mut message = String::from_str("Failed to resolve ");
            message.append(hostname);
            let mut details = String::from_str("Error: ");
            details.append(reason.as_str());
            let r = DnsCheckResult {
                status: HealthStatus::Error,
                message,
                severity: CheckSeverity::Error,
                details: Some(details),
                hostname: hostname.to_owned(),
                addresses: Vec::new(),
                resolution_time: Some(time),
            };
            assert(r@.addresses =~= Seq::<Seq<char>>::empty());
            r
        },
        DnsOutcome::TimedOut => {
            let mut message = String::from_str("Timeout resolving ");
            message.append(hostname);
            let r = DnsCheckResult {
                status: HealthStatus::Error,
                message,
                severity: CheckSeverity::Warning,
                details: Some("Resolution timed out after 5 seconds".to_owned()),
                hostname: hostname.to_owned(),
                addresses: Vec::new(),
                resolution_time: Some(time),
            };
            assert(r@.addresses =~= Seq::<Seq<char>>::empty());
            r
        },
    }
}

/// What the validation of a domain concludes from the lookup of its name:
/// it is valid where the name resolved to an address. Records are not read.
pub fn dns_validation(domain: &str, lookup: &DnsCheckResult) -> (r: DnsValidationResult)
    ensures
        r.domain@ == domain@,
        r.ns_records is None,
        r.soa_record is None,
        r.is_valid == (lookup@.addresses.len() > 0),
{
    DnsValidationResult {
        domain: domain.to_owned(),
        ns_records: None,
        soa_record: None,
        is_valid: lookup.addresses.len() > 0,
    }
}

/// What a connection to a backend met.
#[derive(Debug)]
pub enum ConnectOutcome {
    /// The backend took the connection; `slow` where that took more than
    /// two seconds.
    Connected { slow: bool },
    /// The connection failed, for this reason.
    Refused(String),
    /// The connection took longer than five seconds.
    TimedOut,
}

/// The mathematical value of a [`ConnectOutcome`].
pub enum ConnectOutcomeView {
    Connected { slow: bool },
    Refused(Seq<char>),
    TimedOut,
}

impl View for ConnectOutcome {
    type V = ConnectOutcomeView;

    open spec fn view(&self) -> ConnectOutcomeView {
        match self {
            ConnectOutcome::Connected { slow } => ConnectOutcomeView::Connected { slow: *slow },
            ConnectOutcome::Refused(reason) => ConnectOutcomeView::Refused(reason@),
            ConnectOutcome::TimedOut => ConnectOutcomeView::TimedOut,
        }
    }
}

/// Whether a connection that took `nanos` nanoseconds was slow: it took
/// more than two seconds.
pub open spec fn slow(nanos: u128) -> bool {
    nanos > 2_000_000_000
}

/// Whether a connection that took `nanos` nanoseconds was slow.
pub fn is_slow(nanos: u128) -> (r: bool)
    ensures
        r == slow(nanos),
{
    nanos > 2_000_000_000
}

/// What the check of the backend at `target` reports for what it met;
/// `took` is the text of the time the connection took.
///
/// A backend that answers is healthy, or degraded where it was slow. One
/// that refuses is unhealthy; one that does not answer in time is an error.
pub open spec fn backend_report(
    target: Seq<char>,
    outcome: ConnectOutcomeView,
    took: Seq<char>,
    latency: Duration,
) -> HealthCheckView {
    match outcome {
        ConnectOutcomeView::Connected { slow } => HealthCheckView {
            status: if slow {
                HealthStatus::Degraded
            } else {
                HealthStatus::Healthy
            },
            message: "Backend "@ + target + " is reachable"@,
            severity: if slow {
                CheckSeverity::Warning
            } else {
                CheckSeverity::Info
            },
            details: Some("Response time: "@ + took),
            latency: Some(latency),
        },
        ConnectOutcomeView::Refused(reason) => HealthCheckView {
            status: HealthStatus::Unhealthy,
            message: "Backend "@ + target + " is unreachable"@,
            severity: CheckSeverity::Error,
            details: Some("Connection failed: "@ + reason),
            latency: Some(latency),
        },
        ConnectOutcomeView::TimedOut => HealthCheckView {
            status: HealthStatus::Error,
            message: "Backend "@ + target + " timed out"@,
            severity: CheckSeverity::Critical,
            details: Some("Connection timed out after 5 seconds"@),
            latency: Some(latency),
        },
    }
}

/// What the check of the backend at `target` reports for what it met.
pub fn backend_result(target: &str, outcome: &ConnectOutcome, took: &str, latency: Duration) -> (r:
    HealthCheckResult)
    ensures
        r@ == backend_report(target@, outcome@, took@, latency),
{
    let mut message = String::from_str("Backend ");
    message.append(target);
    match outcome {
        ConnectOutcome::Connected { slow } => {
            message.append(" is reachable");
            let mut details = String::from_str("Response time: ");
            details.append(took);
            HealthCheckResult {
                status: if *slow {
                    HealthStatus::Degraded
                } else {
                    HealthStatus::Healthy
                },
                message,
                severity: if *slow {
                    CheckSeverity::Warning
                } else {
                    CheckSeverity::Info
                },
                details: Some(details),
                latency: Some(latency),
            }
        },
        ConnectOutcome::Refused(reason) => {
            message.append(" is unreachable");
            let mut details = String::from_str("Connection failed: ");
            details.append(reason.as_str());
            HealthCheckResult {
                status: HealthStatus::Unhealthy,
                message,
                severity: CheckSeverity::Error,
                details: Some(details),
                latency: Some(latency),
            }
        },
        ConnectOutcome::TimedOut => {
            message.append(" timed out");
            HealthCheckResult {
                status: HealthStatus::Error,
                message,
                severity: CheckSeverity::Critical,
                details: Some("Connection timed out after 5 seconds".to_owned()),
                latency: Some(latency),
            }
        },
    }
}

/// The state that an HTTP status code stands for: a success is healthy, a
/// server error unhealthy, anything else degraded.
pub open spec fn status_of_code(code: u16) -> HealthStatus {
    if 200 <= code < 300 {
        HealthStatus::Healthy
    } else if 500 <= code < 600 {
        HealthStatus::Unhealthy
    } else {
        HealthStatus::Degraded
    }
}

/// How grave an HTTP status code is: a success is a note, a server error an
/// error, anything else a warning.
pub open spec fn severity_of_code(code: u16) -> CheckSeverity {
    if 200 <= code < 300 {
        CheckSeverity::Info
    } else if 500 <= code < 600 {
        CheckSeverity::Error
    } else {
        CheckSeverity::Warning
    }
}

/// What the HTTP check of a backend reports for the status it got; `status`
/// is the text of the status and `took` that of the time the request took.
pub fn http_result(code: u16, status: &str, took: &str, latency: Duration) -> (r:
    HealthCheckResult)
    ensures
        r@ == (HealthCheckView {
            status: status_of_code(code),
            message: "Backend returned status "@ + status@,
            severity: severity_of_code(code),
            details: Some("Response time: "@ + took@ + ", Status: "@ + status@),
            latency: Some(latency),
        }),
{
    let mut message = String::from_str("Backend returned status ");
    message.append(status);
    let mut details = String::from_str("Response time: ");
    details.append(took);
    details.append(", Status: ");
    details.append(status);
    let (health, severity) = if 200 <= code && code < 300 {
        (HealthStatus::Healthy, CheckSeverity::Info)
    } else if 500 <= code && code < 600 {
        (HealthStatus::Unhealthy, CheckSeverity::Error)
    } else {
        (HealthStatus::Degraded, CheckSeverity::Warning)
    };
    HealthCheckResult { status: health, message, severity, details: Some(details), latency: Some(latency) }
}

/// What the HTTP check of a backend reports where the request to `url`
/// failed, for this reason.
pub fn http_failure(url: &str, reason: &str, latency: Duration) -> (r: HealthCheckResult)
    ensures
        r@ == (HealthCheckView {
            status: HealthStatus::Unhealthy,
            message: "HTTP check failed for "@ + url@,
            severity: CheckSeverity::Error,
            details: Some("Error: "@ + reason@),
            latency: Some(latency),
        }),
{
    let mut message = String::from_str("HTTP check failed for ");
    message.append(url);
    let mut details = String::from_str("Error: ");
    details.append(reason);
    HealthCheckResult {
        status: HealthStatus::Unhealthy,
        message,
        severity: CheckSeverity::Error,
        details: Some(details),
        latency: Some(latency),
    }
}

/// The address that the HTTP check of a backend requests.
pub fn health_check_url(host: &str, port: u16, path: &str) -> (r: String)
    ensures
        r@ == "http://"@ + host@ + ":"@ + decimal(port as nat) + path@,
{
    let mut url = String::from_str("http://");
    url.append(host);
    url.append(":");
    push_decimal(&mut url, port as usize);
    url.append(path);
    assert(url@ =~= "http://"@ + host@ + ":"@ + decimal(port as nat) + path@);
    url
}

/// The result of checking an SSL certificate.
#[derive(Debug)]
pub struct SslCheckResult {
    /// The state found.
    pub status: HealthStatus,
    /// What the check says.
    pub message: String,
    /// How grave the finding is.
    pub severity: CheckSeverity,
    /// More about the certificate, if there is more.
    pub details: Option<String>,
    /// When the certificate expires, in seconds since the epoch, if known.
    pub expires_at: Option<i64>,
    /// How many days are left until then, if known; negative once expired.
    pub days_until_expiry: Option<i64>,
    /// Who issued the certificate, if known.
    pub issuer: Option<String>,
    /// Whom the certificate is for, if known.
    pub subject: Option<String>,
}

/// The mathematical value of an [`SslCheckResult`].
pub struct SslCheckView {
    pub status: HealthStatus,
    pub message: Seq<char>,
    pub severity: CheckSeverity,
    pub details: Option<Seq<char>>,
    pub expires_at: Option<i64>,
    pub days_until_expiry: Option<i64>,
    pub issuer: Option<Seq<char>>,
    pub subject: Option<Seq<char>>,
}

impl View for SslCheckResult {
    type V = SslCheckView;

    open spec fn view(&self) -> SslCheckView {
        SslCheckView {
            status: self.status,
            message: self.message@,
            severity: self.severity,
            details: opt_view(self.details),
            expires_at: self.expires_at,
            days_until_expiry: self.days_until_expiry,
            issuer: opt_view(self.issuer),
            subject: opt_view(self.subject),
        }
    }
}

impl Clone for SslCheckResult {
    fn clone(&self) -> (r: SslCheckResult)
        ensures
            r@ == self@,
    {
        SslCheckResult {
            status: self.status,
            message: self.message.clone(),
            severity: self.severity,
            details: clone_option(&self.details),
            expires_at: self.expires_at,
            days_until_expiry: self.days_until_expiry,
            issuer: clone_option(&self.issuer),
            subject: clone_option(&self.subject),
        }
    }
}

/// A result that holds status, message and severity and nothing else.
pub open spec fn bare_ssl(status: HealthStatus, message: Seq<char>, severity: CheckSeverity)
    -> SslCheckView {
    SslCheckView {
        status,
        message,
        severity,
        details: None,
        expires_at: None,
        days_until_expiry: None,
        issuer: None,
        subject: None,
    }
}

/// The state that the days left until a certificate expires stand for:
/// expired is an error, less than a week unhealthy, less than thirty days
/// degraded, more is healthy; not to know is an error.
pub open spec fn expiry_status(days: Option<i64>) -> HealthStatus {
    match days {
        None => HealthStatus::Error,
        Some(d) => if d < 0 {
            HealthStatus::Error
        } else if d < 7 {
            HealthStatus::Unhealthy
        } else if d < 30 {
            HealthStatus::Degraded
        } else {
            HealthStatus::Healthy
        },
    }
}

/// How grave the days left until a certificate expires are.
pub open spec fn expiry_severity(days: Option<i64>) -> CheckSeverity {
    match days {
        None => CheckSeverity::Error,
        Some(d) => if d < 7 {
            CheckSeverity::Critical
        } else if d < 30 {
            CheckSeverity::Warning
        } else {
            CheckSeverity::Info
        },
    }
}

/// What is said of the days left until a certificate expires.
pub open spec fn expiry_message(days: Option<i64>) -> Seq<char> {
    match days {
        None => "Unable to determine expiry date"@,
        Some(d) => if d < 0 {
            "Certificate expired "@ + decimal((-d) as nat) + " days ago"@
        } else if d < 30 {
            "Certificate expires in "@ + decimal(d as nat) + " days"@
        } else {
            "Certificate valid for "@ + decimal(d as nat) + " days"@
        },
    }
}

/// What the check of a certificate reports for the days that are left
/// until it expires, with what else is known of the certificate.
pub fn certificate_result(
    days: Option<i64>,
    expires_at: Option<i64>,
    issuer: Option<String>,
    subject: Option<String>,
    details: Option<String>,
) -> (r: SslCheckResult)
    requires
        days matches Some(d) ==> d > i64::MIN,
    ensures
        r@ == (SslCheckView {
            status: expiry_status(days),
            message: expiry_message(days),
            severity: expiry_severity(days),
            details: opt_view(details),
            expires_at,
            days_until_expiry: days,
            issuer: opt_view(issuer),
            subject: opt_view(subject),
        }),
{
    let (status, severity, message) = match days {
        None => (
            HealthStatus::Error,
            CheckSeverity::Error,
            "Unable to determine expiry date".to_owned(),
        ),
        Some(d) => {
            if d < 0 {
                let mut message = String::from_str("Certificate expired ");
                push_decimal_u64(&mut message, (-d) as u64);
                message.append(" days ago");
                (HealthStatus::Error, CheckSeverity::Critical, message)
            } else if d < 7 {
                let mut message = String::from_str("Certificate expires in ");
                push_decimal_u64(&mut message, d as u64);
                message.append(" days");
                (HealthStatus::Unhealthy, CheckSeverity::Critical, message)
            } else if d < 30 {
                let mut message = String::from_str("Certificate expires in ");
                push_decimal_u64(&mut message, d as u64);
                message.append(" days");
                (HealthStatus::Degraded, CheckSeverity::Warning, message)
            } else {
                let mut message = String::from_str("Certificate valid for ");
                push_decimal_u64(&mut message, d as u64);
                message.append(" days");
                (HealthStatus::Healthy, CheckSeverity::Info, message)
            }
        },
    };
    SslCheckResult {
        status,
        message,
        severity,
        details,
        expires_at,
        days_until_expiry: days,
        issuer,
        subject,
    }
}

/// What the check of a certificate reports where there is no file at
/// `path`.
pub fn certificate_missing(path: &str) -> (r: SslCheckResult)
    ensures
        r@ == bare_ssl(
            HealthStatus::Error,
            "Certificate file not found: "@ + path@,
            CheckSeverity::Critical,
        ),
{
    let mut message = String::from_str("Certificate file not found: ");
    message.append(path);
    SslCheckResult {
        status: HealthStatus::Error,
        message,
        severity: CheckSeverity::Critical,
        details: None,
        expires_at: None,
        days_until_expiry: None,
        issuer: None,
        subject: None,
    }
}

/// What the check of an address reports where the connection came about.
pub fn connected_result(url: &str) -> (r: SslCheckResult)
    ensures
        r@ == bare_ssl(HealthStatus::Healthy, "Connected to "@ + url@, CheckSeverity::Info),
{
    let mut message = String::from_str("Connected to ");
    message.append(url);
    SslCheckResult {
        status: HealthStatus::Healthy,
        message,
        severity: CheckSeverity::Info,
        details: None,
        expires_at: None,
        days_until_expiry: None,
        issuer: None,
        subject: None,
    }
}

/// The mathematical value of a [`PortCheckResult`].
pub struct PortCheckView {
    pub status: HealthStatus,
    pub message: Seq<char>,
    pub severity: CheckSeverity,
    pub details: Option<Seq<char>>,
    pub port: u16,
    pub address: Seq<char>,
    pub is_listening: bool,
    pub latency: Option<Duration>,
}

impl View for PortCheckResult {
    type V = PortCheckView;

    open spec fn view(&self) -> PortCheckView {
        PortCheckView {
            status: self.status,
            message: self.message@,
            severity: self.severity,
            details: opt_view(self.details),
            port: self.port,
            address: self.address@,
            is_listening: self.is_listening,
            latency: self.latency,
        }
    }
}

/// What the check of `port` at `address` reports, after `latency`: healthy
/// where something listens, unhealthy and an error where nothing does.
pub open spec fn port_report(address: Seq<char>, port: u16, listening: bool, latency: Duration)
    -> PortCheckView {
    PortCheckView {
        status: if listening {
            HealthStatus::Healthy
        } else {
            HealthStatus::Unhealthy
        },
        message: if listening {
            "Port "@ + decimal(port as nat) + " is listening"@
        } else {
            "Port "@ + decimal(port as nat) + " is not listening"@
        },
        severity: if listening {
            CheckSeverity::Info
        } else {
            CheckSeverity::Error
        },
        details: None,
        port,
        address,
        is_listening: listening,
        latency: Some(latency),
    }
}

/// What the check of `port` at `address` reports, after `latency`.
pub fn port_result(address: &str, port: u16, listening: bool, latency: Duration) -> (r:
    PortCheckResult)
    ensures
        r@ == port_report(address@, port, listening, latency),
{
    let mut message = String::from_str("Port ");
    push_decimal(&mut message, port as usize);
    let (status, severity) = if listening {
        message.append(" is listening");
        (HealthStatus::Healthy, CheckSeverity::Info)
    } else {
        message.append(" is not listening");
        (HealthStatus::Unhealthy, CheckSeverity::Error)
    };
    PortCheckResult {
        status,
        message,
        severity,
        details: None,
        port,
        address: address.to_owned(),
        is_listening: listening,
        latency: Some(latency),
    }
}

} // verus!

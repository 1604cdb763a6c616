//! What network checks report, and how they are configured.

use vstd::prelude::*;
use std::time::Duration;
use crate::error::opt_view;
use crate::text::{clone_option, clone_strings};

verus! {

/// The span of time of `secs` whole seconds.
pub uninterp spec fn duration_of_secs(secs: u64) -> Duration;

/// `Duration::from_secs`: the span of time of that many whole seconds.
#[verifier::external_body]
pub(crate) fn duration_from_secs(secs: u64) -> (r: Duration)
    ensures
        r == duration_of_secs(secs),
{
    Duration::from_secs(secs)
}

/// The state of what was checked.
#[derive(Debug, Clone, Copy, PartialEq, Eq, Structural)]
pub enum HealthStatus {
    /// Everything works.
    Healthy,
    /// It works, with warnings.
    Degraded,
    /// It does not work.
    Unhealthy,
    /// The check itself failed.
    Error,
    /// The check does not apply.
    NotApplicable,
}

impl HealthStatus {
    /// The name the status displays as.
    pub open spec fn display_text(self) -> Seq<char> {
        match self {
            HealthStatus::Healthy => "HEALTHY"@,
            HealthStatus::Degraded => "DEGRADED"@,
            HealthStatus::Unhealthy => "UNHEALTHY"@,
            HealthStatus::Error => "ERROR"@,
            HealthStatus::NotApplicable => "N/A"@,
        }
    }

    /// The name the status displays as.
    pub fn to_string(&self) -> (r: String)
        ensures
            r@ == self.display_text(),
    {
        match self {
            HealthStatus::Healthy => "HEALTHY".to_owned(),
            HealthStatus::Degraded => "DEGRADED".to_owned(),
            HealthStatus::Unhealthy => "UNHEALTHY".to_owned(),
            HealthStatus::Error => "ERROR".to_owned(),
            HealthStatus::NotApplicable => "N/A".to_owned(),
        }
    }
}

/// How grave a finding is, from the least to the most.
#[derive(Debug, Clone, Copy, PartialEq, Eq, PartialOrd, Ord, Structural)]
pub enum CheckSeverity {
    Info,
    Warning,
    Error,
    Critical,
}

impl CheckSeverity {
    /// The name the severity displays as.
    pub open spec fn display_text(self) -> Seq<char> {
        match self {
            CheckSeverity::Info => "INFO"@,
            CheckSeverity::Warning => "WARNING"@,
            CheckSeverity::Error => "ERROR"@,
            CheckSeverity::Critical => "CRITICAL"@,
        }
    }

    /// The name the severity displays as.
    pub fn to_string(&self) -> (r: String)
        ensures
            r@ == self.display_text(),
    {
        match self {
            CheckSeverity::Info => "INFO".to_owned(),
            CheckSeverity::Warning => "WARNING".to_owned(),
            CheckSeverity::Error => "ERROR".to_owned(),
            CheckSeverity::Critical => "CRITICAL".to_owned(),
        }
    }
}

/// The result of one health check.
#[derive(Debug)]
pub struct HealthCheckResult {
    /// The state found.
    pub status: HealthStatus,
    /// What the check says.
    pub message: String,
    /// How grave the finding is.
    pub severity: CheckSeverity,
    /// More about the finding, if there is more.
    pub details: Option<String>,
    /// How long the check took, if that was measured.
    pub latency: Option<Duration>,
}

/// The mathematical value of a [`HealthCheckResult`].
pub struct HealthCheckView {
    pub status: HealthStatus,
    pub message: Seq<char>,
    pub severity: CheckSeverity,
    pub details: Option<Seq<char>>,
    pub latency: Option<Duration>,
}

impl View for HealthCheckResult {
    type V = HealthCheckView;

    open spec fn view(&self) -> HealthCheckView {
        HealthCheckView {
            status: self.status,
            message: self.message@,
            severity: self.severity,
            details: opt_view(self.details),
            latency: self.latency,
        }
    }
}

impl Clone for HealthCheckResult {
    fn clone(&self) -> (r: HealthCheckResult)
        ensures
            r@ == self@,
    {
        HealthCheckResult {
            status: self.status,
            message: self.message.clone(),
            severity: self.severity,
            details: clone_option(&self.details),
            latency: self.latency,
        }
    }
}

/// A result with the given status, message and severity and nothing more.
pub open spec fn bare_result(status: HealthStatus, message: Seq<char>, severity: CheckSeverity)
    -> HealthCheckView {
    HealthCheckView { status, message, severity, details: None, latency: None }
}

impl HealthCheckResult {
    /// A healthy result: severity `Info`.
    pub fn healthy(message: &str) -> (r: HealthCheckResult)
        ensures
            r@ == bare_result(HealthStatus::Healthy, message@, CheckSeverity::Info),
    {
        HealthCheckResult {
            status: HealthStatus::Healthy,
            message: message.to_owned(),
            severity: CheckSeverity::Info,
            details: None,
            latency: None,
        }
    }

    /// A degraded result: severity `Warning`.
    pub fn degraded(message: &str) -> (r: HealthCheckResult)
        ensures
            r@ == bare_result(HealthStatus::Degraded, message@, CheckSeverity::Warning),
    {
        HealthCheckResult {
            status: HealthStatus::Degraded,
            message: message.to_owned(),
            severity: CheckSeverity::Warning,
            details: None,
            latency: None,
        }
    }

    /// An unhealthy result: severity `Error`.
    pub fn unhealthy(message: &str) -> (r: HealthCheckResult)
        ensures
            r@ == bare_result(HealthStatus::Unhealthy, message@, CheckSeverity::Error),
    {
        HealthCheckResult {
            status: HealthStatus::Unhealthy,
            message: message.to_owned(),
            severity: CheckSeverity::Error,
            details: None,
            latency: None,
        }
    }

    /// The result of a check that failed: severity `Critical`.
    pub fn error(message: &str) -> (r: HealthCheckResult)
        ensures
            r@ == bare_result(HealthStatus::Error, message@, CheckSeverity::Critical),
    {
        HealthCheckResult {
            status: HealthStatus::Error,
            message: message.to_owned(),
            severity: CheckSeverity::Critical,
            details: None,
            latency: None,
        }
    }

    /// The same result with details.
    pub fn with_details(self, details: &str) -> (r: HealthCheckResult)
        ensures
            r@ == (HealthCheckView { details: Some(details@), ..self@ }),
    {
        let mut result = self;
        result.details = Some(details.to_owned());
        result
    }

    /// The same result with the time the check took.
    pub fn with_latency(self, latency: Duration) -> (r: HealthCheckResult)
        ensures
            r@ == (HealthCheckView { latency: Some(latency), ..self@ }),
    {
        let mut result = self;
        result.latency = Some(latency);
        result
    }
}

/// The views of a sequence of results, element by element.
pub open spec fn results_view(rs: Seq<HealthCheckResult>) -> Seq<HealthCheckView> {
    Seq::new(rs.len(), |i: int| rs[i]@)
}

/// Holds of the results that are healthy.
pub open spec fn is_healthy() -> spec_fn(HealthCheckView) -> bool {
    |r: HealthCheckView| r.status == HealthStatus::Healthy
}

/// How many of the results are healthy.
pub fn count_healthy(results: &[HealthCheckResult]) -> (r: usize)
    ensures
        r == results_view(results@).filter(is_healthy()).len(),
{
    let ghost all = results_view(results@);
    let mut count: usize = 0;
    let mut i: usize = 0;
    proof {
        assert(all.take(0) =~= Seq::<HealthCheckView>::empty());
        Seq::<HealthCheckView>::empty().lemma_filter_len(is_healthy());
    }
    while i < results.len()
        invariant
            i <= results.len(),
            all == results_view(results@),
            count == all.take(i as int).filter(is_healthy()).len(),
            count <= i,
        decreases results.len() - i,
    {
        proof {
            assert(all.take(i + 1) =~= all.take(i as int).push(results@[i as int]@));
            all.take(i as int).lemma_filter_push(results@[i as int]@, is_healthy());
        }
        if let HealthStatus::Healthy = results[i].status {
            count += 1;
        }
        i += 1;
    }
    proof {
        assert(all.take(results@.len() as int) =~= all);
    }
    count
}

/// The result of checking a port.
#[derive(Debug)]
pub struct PortCheckResult {
    /// The state found.
    pub status: HealthStatus,
    /// What the check says.
    pub message: String,
    /// How grave the finding is.
    pub severity: CheckSeverity,
    /// More about the finding, if there is more.
    pub details: Option<String>,
    /// The port that was checked.
    pub port: u16,
    /// The address that was checked.
    pub address: String,
    /// Whether something listens on the port.
    pub is_listening: bool,
    /// How long the connection took, if that was measured.
    pub latency: Option<Duration>,
}

impl Clone for PortCheckResult {
    fn clone(&self) -> (r: PortCheckResult)
        ensures
            r == *self,
    {
        PortCheckResult {
            status: self.status,
            message: self.message.clone(),
            severity: self.severity,
            details: clone_option(&self.details),
            port: self.port,
            address: self.address.clone(),
            is_listening: self.is_listening,
            latency: self.latency,
        }
    }
}

/// The result of resolving a host name.
#[derive(Debug)]
pub struct DnsCheckResult {
    /// The state found.
    pub status: HealthStatus,
    /// What the check says.
    pub message: String,
    /// How grave the finding is.
    pub severity: CheckSeverity,
    /// More about the finding, if there is more.
    pub details: Option<String>,
    /// The host name that was resolved.
    pub hostname: String,
    /// The addresses it resolved to.
    pub addresses: Vec<String>,
    /// How long the resolution took, if that was measured.
    pub resolution_time: Option<Duration>,
}

impl Clone for DnsCheckResult {
    fn clone(&self) -> (r: DnsCheckResult)
        ensures
            r.status == self.status,
            r.message == self.message,
            r.severity == self.severity,
            r.details == self.details,
            r.hostname == self.hostname,
            r.addresses@ == self.addresses@,
            r.resolution_time == self.resolution_time,
    {
        DnsCheckResult {
            status: self.status,
            message: self.message.clone(),
            severity: self.severity,
            details: clone_option(&self.details),
            hostname: self.hostname.clone(),
            addresses: clone_strings(&self.addresses),
            resolution_time: self.resolution_time,
        }
    }
}

/// The result of validating the DNS records of a domain.
#[derive(Debug)]
pub struct DnsValidationResult {
    /// The domain.
    pub domain: String,
    /// Its name server records, if they were found.
    pub ns_records: Option<Vec<String>>,
    /// Its start-of-authority record, if it was found.
    pub soa_record: Option<String>,
    /// Whether the records are valid.
    pub is_valid: bool,
}

impl Clone for DnsValidationResult {
    fn clone(&self) -> (r: DnsValidationResult)
        ensures
            r.domain == self.domain,
            r.soa_record == self.soa_record,
            r.is_valid == self.is_valid,
            match self.ns_records {
                Some(records) => r.ns_records matches Some(copy) && copy@ == records@,
                None => r.ns_records is None,
            },
    {
        DnsValidationResult {
            domain: self.domain.clone(),
            ns_records: match &self.ns_records {
                Some(records) => Some(clone_strings(records)),
                None => None,
            },
            soa_record: clone_option(&self.soa_record),
            is_valid: self.is_valid,
        }
    }
}

/// A backend server of an upstream group.
#[derive(Debug)]
pub struct UpstreamBackend {
    /// The host name or address.
    pub host: String,
    /// The port.
    pub port: u16,
    /// The weight in load balancing, if one is set.
    pub weight: Option<u32>,
    /// The number of failures after which the backend is taken out, if set.
    pub max_fails: Option<u32>,
    /// The time after which a failed backend is tried again, if set.
    pub fail_timeout: Option<Duration>,
}

impl Clone for UpstreamBackend {
    fn clone(&self) -> (r: UpstreamBackend)
        ensures
            r == *self,
    {
        UpstreamBackend {
            host: self.host.clone(),
            port: self.port,
            weight: self.weight,
            max_fails: self.max_fails,
            fail_timeout: self.fail_timeout,
        }
    }
}

/// Which checks are run, and how.
#[derive(Debug)]
pub struct NetworkCheckOptions {
    /// Whether upstreams are checked.
    pub check_upstreams: bool,
    /// Whether SSL certificates are checked.
    pub check_ssl: bool,
    /// Whether ports are checked.
    pub check_ports: bool,
    /// Whether host names are resolved.
    pub check_dns: bool,
    /// How long one check may take.
    pub timeout: Duration,
    /// How often a failed check is tried again.
    pub retries: usize,
    /// Whether checks run side by side.
    pub parallel: bool,
    /// Whether the checks go on after one has failed.
    pub continue_on_error: bool,
}

impl Clone for NetworkCheckOptions {
    fn clone(&self) -> (r: NetworkCheckOptions)
        ensures
            r == *self,
    {
        NetworkCheckOptions {
            check_upstreams: self.check_upstreams,
            check_ssl: self.check_ssl,
            check_ports: self.check_ports,
            check_dns: self.check_dns,
            timeout: self.timeout,
            retries: self.retries,
            parallel: self.parallel,
            continue_on_error: self.continue_on_error,
        }
    }
}

impl NetworkCheckOptions {
    /// Whether the options run the given checks, with everything else at its
    /// default: five seconds, three retries, side by side, going on after an
    /// error.
    pub open spec fn runs(self, upstreams: bool, ssl: bool, ports: bool, dns: bool) -> bool {
        &&& self.check_upstreams == upstreams
        &&& self.check_ssl == ssl
        &&& self.check_ports == ports
        &&& self.check_dns == dns
        &&& self.timeout == duration_of_secs(5)
        &&& self.retries == 3
        &&& self.parallel
        &&& self.continue_on_error
    }

    /// The options that run the given checks within `timeout` each, with
    /// everything else at its default: three retries, side by side, going on
    /// after an error.
    pub fn within(upstreams: bool, ssl: bool, ports: bool, dns: bool, timeout: Duration) -> (r:
        NetworkCheckOptions)
        ensures
            r == (NetworkCheckOptions {
                check_upstreams: upstreams,
                check_ssl: ssl,
                check_ports: ports,
                check_dns: dns,
                timeout,
                retries: 3,
                parallel: true,
                continue_on_error: true,
            }),
    {
        NetworkCheckOptions {
            check_upstreams: upstreams,
            check_ssl: ssl,
            check_ports: ports,
            check_dns: dns,
            timeout,
            retries: 3,
            parallel: true,
            continue_on_error: true,
        }
    }

    fn with_checks(upstreams: bool, ssl: bool, ports: bool, dns: bool) -> (r: NetworkCheckOptions)
        ensures
            r.runs(upstreams, ssl, ports, dns),
    {
        NetworkCheckOptions::within(upstreams, ssl, ports, dns, duration_from_secs(5))
    }

    /// Upstream checks only.
    pub fn upstreams_only() -> (r: NetworkCheckOptions)
        ensures
            r.runs(true, false, false, false),
    {
        NetworkCheckOptions::with_checks(true, false, false, false)
    }

    /// SSL checks only.
    pub fn ssl_only() -> (r: NetworkCheckOptions)
        ensures
            r.runs(false, true, false, false),
    {
        NetworkCheckOptions::with_checks(false, true, false, false)
    }

    /// Port checks only.
    pub fn ports_only() -> (r: NetworkCheckOptions)
        ensures
            r.runs(false, false, true, false),
    {
        NetworkCheckOptions::with_checks(false, false, true, false)
    }

    /// DNS checks only.
    pub fn dns_only() -> (r: NetworkCheckOptions)
        ensures
            r.runs(false, false, false, true),
    {
        NetworkCheckOptions::with_checks(false, false, false, true)
    }
}

impl Default for NetworkCheckOptions {
    fn default() -> (r: NetworkCheckOptions)
        ensures
            r.runs(true, true, true, true),
    {
        NetworkCheckOptions::with_checks(true, true, true, true)
    }
}

} // verus!

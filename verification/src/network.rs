//! Network checks: what is checked, and what the checks report.

pub mod outcome;
pub mod plan;
pub mod types;

pub use outcome::SslCheckResult;
pub use plan::NetworkCheckResult;
pub use types::{
    CheckSeverity, DnsCheckResult, DnsValidationResult, HealthCheckResult, HealthStatus,
    NetworkCheckOptions, PortCheckResult, UpstreamBackend,
};

//! What a configuration declares: logs, servers, locations, listeners.

pub mod access_log;
pub mod error_log;
pub mod listen;
pub mod location;
pub mod log_format;
pub mod server;

pub use access_log::{AccessLog, LogContext, LogOptions};
pub use error_log::{ErrorLog, ErrorLogLevel};
pub use listen::ListenDirective;
pub use location::{Location, LocationModifier};
pub use log_format::LogFormat;
pub use server::Server;

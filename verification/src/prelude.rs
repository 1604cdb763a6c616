//! The names most callers need, in one place.

pub use crate::discovery::NginxDiscovery;
pub use crate::error::Error;
pub use crate::error_builder::ErrorBuilder;
pub use crate::parser::{Lexer, Parser, Token, TokenKind};
pub use crate::types::{
    AccessLog, ErrorLog, ErrorLogLevel, ListenDirective, Location, LocationModifier, LogContext,
    LogFormat, Server,
};

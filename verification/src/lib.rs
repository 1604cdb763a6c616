//! Discovery of structure in NGINX-style configuration text.
//!
//! Configuration text is split into tokens by the [`parser::Lexer`] and
//! turned into a tree of [`ast::Directive`]s by the [`parser::Parser`];
//! [`parse`] does both.

pub mod analysis;
pub mod ast;
pub mod cli;
pub mod diagnostics;
pub mod discovery;
pub mod error;
pub mod error_builder;
pub mod export;
pub mod extract;
pub mod network;
pub mod outline;
pub mod parser;
pub mod prelude;
pub mod report;
pub mod system;
pub mod text;
pub mod types;

pub use discovery::NginxDiscovery;
pub use error::Error;
pub use parser::parse;

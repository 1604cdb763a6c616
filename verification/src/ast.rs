//! The syntax tree of a configuration and the values it is made of.

pub mod config;
pub mod directive;
pub mod span;
pub mod value;

pub use config::Config;
pub use directive::{Directive, DirectiveItem, DirectiveView, ItemView};
pub use span::{Span, Spanned};
pub use value::{Value, ValueView};

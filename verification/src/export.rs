//! Export of a configuration: formats, options, filters, and what is
//! written.

pub mod filter;
pub mod format;
pub mod options;
pub mod render;

pub use filter::{Filter, FilterType};
pub use format::{ExportFormat, Exporter};
pub use options::{ExportOptions, ExportOptionsBuilder};
pub use render::{prepare, render_markdown};

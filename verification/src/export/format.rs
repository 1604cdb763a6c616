//! The formats a configuration can be exported in.

use vstd::prelude::*;
use crate::ast::config::Config;
use crate::error::Error;
use crate::text::{lowercase_of, str_eq, to_lowercase};

verus! {

/// An export format.
#[derive(Debug, Clone, Copy, PartialEq, Eq, Structural)]
pub enum ExportFormat {
    /// JSON.
    Json,
    /// YAML.
    Yaml,
    /// TOML.
    Toml,
    /// A Markdown report.
    Markdown,
}

impl Default for ExportFormat {
    fn default() -> (r: ExportFormat)
        ensures
            r == ExportFormat::Json,
    {
        ExportFormat::Json
    }
}

impl ExportFormat {
    /// The file extension of the format.
    pub open spec fn extension_text(self) -> Seq<char> {
        match self {
            ExportFormat::Json => "json"@,
            ExportFormat::Yaml => "yaml"@,
            ExportFormat::Toml => "toml"@,
            ExportFormat::Markdown => "md"@,
        }
    }

    /// The MIME type of the format.
    pub open spec fn mime_text(self) -> Seq<char> {
        match self {
            ExportFormat::Json => "application/json"@,
            ExportFormat::Yaml => "application/x-yaml"@,
            ExportFormat::Toml => "application/toml"@,
            ExportFormat::Markdown => "text/markdown"@,
        }
    }

    /// The name the format displays as.
    pub open spec fn display_text(self) -> Seq<char> {
        match self {
            ExportFormat::Json => "json"@,
            ExportFormat::Yaml => "yaml"@,
            ExportFormat::Toml => "toml"@,
            ExportFormat::Markdown => "markdown"@,
        }
    }

    /// The format that a lower-case name stands for, if any.
    pub open spec fn named(lower: Seq<char>) -> Option<ExportFormat> {
        if lower == "json"@ {
            Some(ExportFormat::Json)
        } else if lower == "yaml"@ || lower == "yml"@ {
            Some(ExportFormat::Yaml)
        } else if lower == "toml"@ {
            Some(ExportFormat::Toml)
        } else if lower == "markdown"@ || lower == "md"@ {
            Some(ExportFormat::Markdown)
        } else {
            None
        }
    }

    /// What a name that stands for no format is answered with.
    pub open spec fn unknown_text(name: Seq<char>) -> Seq<char> {
        "Unknown format: "@ + name + ". Available: json, yaml, toml, markdown"@
    }

    /// The file extension of the format, without a dot.
    pub fn extension(&self) -> (r: &'static str)
        ensures
            r@ == self.extension_text(),
    {
        match self {
            ExportFormat::Json => "json",
            ExportFormat::Yaml => "yaml",
            ExportFormat::Toml => "toml",
            ExportFormat::Markdown => "md",
        }
    }

    /// The MIME type of the format.
    pub fn mime_type(&self) -> (r: &'static str)
        ensures
            r@ == self.mime_text(),
    {
        match self {
            ExportFormat::Json => "application/json",
            ExportFormat::Yaml => "application/x-yaml",
            ExportFormat::Toml => "application/toml",
            ExportFormat::Markdown => "text/markdown",
        }
    }

    /// Whether the format has a pretty and a compact form. YAML and Markdown
    /// have one form only.
    pub fn supports_pretty(&self) -> (r: bool)
        ensures
            r == (self == ExportFormat::Json || self == ExportFormat::Toml),
    {
        match self {
            ExportFormat::Json => true,
            ExportFormat::Yaml => false,
            ExportFormat::Toml => true,
            ExportFormat::Markdown => false,
        }
    }

    /// All the formats.
    pub fn all() -> (r: Vec<ExportFormat>)
        ensures
            r@ == seq![
                ExportFormat::Json,
                ExportFormat::Yaml,
                ExportFormat::Toml,
                ExportFormat::Markdown,
            ],
    {
        let mut out: Vec<ExportFormat> = Vec::new();
        out.push(ExportFormat::Json);
        out.push(ExportFormat::Yaml);
        out.push(ExportFormat::Toml);
        out.push(ExportFormat::Markdown);
        assert(out@ =~= seq![
            ExportFormat::Json,
            ExportFormat::Yaml,
            ExportFormat::Toml,
            ExportFormat::Markdown,
        ]);
        out
    }

    /// The name the format displays as.
    pub fn to_string(&self) -> (r: String)
        ensures
            r@ == self.display_text(),
    {
        match self {
            ExportFormat::Json => "json".to_owned(),
            ExportFormat::Yaml => "yaml".to_owned(),
            ExportFormat::Toml => "toml".to_owned(),
            ExportFormat::Markdown => "markdown".to_owned(),
        }
    }

    /// The format that `lower` stands for, where `lower` is `name` in lower
    /// case; the answer for an unknown format, which quotes `name`, otherwise.
    pub fn from_lowercase(lower: &str, name: &str) -> (r: Result<ExportFormat, String>)
        ensures
            match r {
                Ok(format) => ExportFormat::named(lower@) == Some(format),
                Err(text) => ExportFormat::named(lower@) is None && text@
                    == ExportFormat::unknown_text(name@),
            },
    {
        if str_eq(lower, "json") {
            Ok(ExportFormat::Json)
        } else if str_eq(lower, "yaml") || str_eq(lower, "yml") {
            Ok(ExportFormat::Yaml)
        } else if str_eq(lower, "toml") {
            Ok(ExportFormat::Toml)
        } else if str_eq(lower, "markdown") || str_eq(lower, "md") {
            Ok(ExportFormat::Markdown)
        } else {
            let mut text = String::from_str("Unknown format: ");
            text.append(name);
            text.append(". Available: json, yaml, toml, markdown");
            Err(text)
        }
    }

    /// The format that `name` stands for, whatever the case of its letters.
    pub fn from_name(name: &str) -> (r: Result<ExportFormat, String>)
        ensures
            match r {
                Ok(format) => ExportFormat::named(lowercase_of(name@)) == Some(format),
                Err(text) => ExportFormat::named(lowercase_of(name@)) is None && text@
                    == ExportFormat::unknown_text(name@),
            },
    {
        let lower = to_lowercase(name);
        ExportFormat::from_lowercase(lower.as_str(), name)
    }
}

impl std::str::FromStr for ExportFormat {
    type Err = String;

    /// The format that `s` names, whatever the case of its letters; the
    /// answer for an unknown format, which quotes `s`, otherwise.
    fn from_str(s: &str) -> (r: Result<ExportFormat, String>)
        ensures
            match r {
                Ok(format) => ExportFormat::named(lowercase_of(s@)) == Some(format),
                Err(text) => ExportFormat::named(lowercase_of(s@)) is None && text@
                    == ExportFormat::unknown_text(s@),
            },
    {
        ExportFormat::from_name(s)
    }
}

/// Something that can write a configuration out in one format.
pub trait Exporter {
    /// The configuration in this exporter's format.
    fn export(&self, config: &Config) -> Result<String, Error>;

    /// The name of the format.
    fn format_name(&self) -> &str;

    /// The file extension of the format.
    fn extension(&self) -> &str;
}

} // verus!

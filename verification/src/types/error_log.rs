//! Error logs and their levels.

use vstd::prelude::*;
use crate::text::str_eq;
use crate::types::access_log::{LogContext, LogContextView};

verus! {

/// The level from which an error log records.
#[derive(Debug, Clone, Copy, PartialEq, Eq, Structural)]
pub enum ErrorLogLevel {
    Debug,
    Info,
    Notice,
    Warn,
    Error,
    Crit,
    Alert,
    Emerg,
}

impl ErrorLogLevel {
    /// The level that `name` stands for; `Error`, the default level, for any
    /// other text.
    pub open spec fn named(name: Seq<char>) -> ErrorLogLevel {
        if name == "debug"@ {
            ErrorLogLevel::Debug
        } else if name == "info"@ {
            ErrorLogLevel::Info
        } else if name == "notice"@ {
            ErrorLogLevel::Notice
        } else if name == "warn"@ {
            ErrorLogLevel::Warn
        } else if name == "crit"@ {
            ErrorLogLevel::Crit
        } else if name == "alert"@ {
            ErrorLogLevel::Alert
        } else if name == "emerg"@ {
            ErrorLogLevel::Emerg
        } else {
            ErrorLogLevel::Error
        }
    }

    /// The level that `name` stands for; `Error` for any other text.
    pub fn from_name(name: &str) -> (r: ErrorLogLevel)
        ensures
            r == ErrorLogLevel::named(name@),
    {
        if str_eq(name, "debug") {
            ErrorLogLevel::Debug
        } else if str_eq(name, "info") {
            ErrorLogLevel::Info
        } else if str_eq(name, "notice") {
            ErrorLogLevel::Notice
        } else if str_eq(name, "warn") {
            ErrorLogLevel::Warn
        } else if str_eq(name, "crit") {
            ErrorLogLevel::Crit
        } else if str_eq(name, "alert") {
            ErrorLogLevel::Alert
        } else if str_eq(name, "emerg") {
            ErrorLogLevel::Emerg
        } else {
            ErrorLogLevel::Error
        }
    }
}

impl std::str::FromStr for ErrorLogLevel {
    type Err = ();

    /// The level that `s` names; `Error` for any other text. Never fails.
    fn from_str(s: &str) -> (r: Result<ErrorLogLevel, ()>)
        ensures
            r == Ok::<ErrorLogLevel, ()>(ErrorLogLevel::named(s@)),
    {
        Ok(ErrorLogLevel::from_name(s))
    }
}

/// An error log: where it is written, and from which level on.
#[derive(Debug, PartialEq, Eq)]
pub struct ErrorLog {
    /// The path of the log file.
    pub path: String,
    /// The level from which the log records.
    pub level: ErrorLogLevel,
    /// Where the log is declared.
    pub context: LogContext,
}

/// The mathematical value of an [`ErrorLog`].
pub struct ErrorLogView {
    pub path: Seq<char>,
    pub level: ErrorLogLevel,
    pub context: LogContextView,
}

impl View for ErrorLog {
    type V = ErrorLogView;

    open spec fn view(&self) -> ErrorLogView {
        ErrorLogView { path: self.path@, level: self.level, context: self.context@ }
    }
}

impl Clone for ErrorLog {
    fn clone(&self) -> (r: ErrorLog)
        ensures
            r@ == self@,
    {
        ErrorLog { path: self.path.clone(), level: self.level, context: self.context.clone() }
    }
}

impl ErrorLog {
    /// An error log at `path`, at the level `Error`, in the main context.
    pub fn new(path: &str) -> (r: ErrorLog)
        ensures
            r@ == (ErrorLogView {
                path: path@,
                level: ErrorLogLevel::Error,
                context: LogContextView::Main,
            }),
    {
        ErrorLog { path: path.to_owned(), level: ErrorLogLevel::Error, context: LogContext::Main }
    }

    /// The same log at another level.
    pub fn with_level(self, level: ErrorLogLevel) -> (r: ErrorLog)
        ensures
            r@ == (ErrorLogView { level, ..self@ }),
    {
        let mut log = self;
        log.level = level;
        log
    }

    /// The same log in another context.
    pub fn with_context(self, context: LogContext) -> (r: ErrorLog)
        ensures
            r@ == (ErrorLogView { context: context@, ..self@ }),
    {
        let mut log = self;
        log.context = context;
        log
    }
}

} // verus!

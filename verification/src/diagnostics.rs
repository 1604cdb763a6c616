//! Diagnostics of an installation: what each check concludes from what was
//! found, and how the checks add up. Finding things out is the caller's
//! part.

use vstd::prelude::*;
use crate::error::opt_view;
use crate::text::{contains_text, decimal, occurs_in, push_decimal};

verus! {

/// What a check concludes.
#[derive(Debug)]
pub enum CheckResult {
    /// All is well, with what was found.
    Pass(String),
    /// Something is worth a look.
    Warning(String),
    /// Something is wrong.
    Error(String),
}

/// The mathematical value of a [`CheckResult`].
pub enum CheckResultView {
    Pass(Seq<char>),
    Warning(Seq<char>),
    Error(Seq<char>),
}

impl View for CheckResult {
    type V = CheckResultView;

    open spec fn view(&self) -> CheckResultView {
        match self {
            CheckResult::Pass(s) => CheckResultView::Pass(s@),
            CheckResult::Warning(s) => CheckResultView::Warning(s@),
            CheckResult::Error(s) => CheckResultView::Error(s@),
        }
    }
}

/// A step in a run of the checks, in the order in which they are made.
#[derive(Debug, Clone, Copy, PartialEq, Eq, Structural)]
pub enum DoctorStep {
    /// Looking for the server's binary.
    Binary,
    /// Looking for the configuration file.
    Locate,
    /// Looking at the configuration file.
    File,
    /// Having the server test the configuration.
    Syntax,
    /// Parsing the configuration.
    Parse,
    /// Looking at the directories of the log files.
    Logs,
    /// Looking at the certificates.
    Certificates,
    /// Summing up, and ending with the exit code.
    Conclude,
}

/// The step that follows `step`, where `ok` says whether the step found
/// what the later ones need.
///
/// The run stops at once where no configuration file is found. Where the
/// configuration does not parse, the checks of log files and certificates
/// are left out. Every other step is followed by the next, whatever it
/// found, and nothing follows the conclusion.
pub open spec fn following(step: DoctorStep, ok: bool) -> Option<DoctorStep> {
    match step {
        DoctorStep::Binary => Some(DoctorStep::Locate),
        DoctorStep::Locate => if ok {
            Some(DoctorStep::File)
        } else {
            None
        },
        DoctorStep::File => Some(DoctorStep::Syntax),
        DoctorStep::Syntax => Some(DoctorStep::Parse),
        DoctorStep::Parse => if ok {
            Some(DoctorStep::Logs)
        } else {
            Some(DoctorStep::Conclude)
        },
        DoctorStep::Logs => Some(DoctorStep::Certificates),
        DoctorStep::Certificates => Some(DoctorStep::Conclude),
        DoctorStep::Conclude => None,
    }
}

/// The step to take after `step`, or `None` where the run is over.
pub fn next_check(step: DoctorStep, ok: bool) -> (r: Option<DoctorStep>)
    ensures
        r == following(step, ok),
{
    match step {
        DoctorStep::Binary => Some(DoctorStep::Locate),
        DoctorStep::Locate => if ok {
            Some(DoctorStep::File)
        } else {
            None
        },
        DoctorStep::File => Some(DoctorStep::Syntax),
        DoctorStep::Syntax => Some(DoctorStep::Parse),
        DoctorStep::Parse => if ok {
            Some(DoctorStep::Logs)
        } else {
            Some(DoctorStep::Conclude)
        },
        DoctorStep::Logs => Some(DoctorStep::Certificates),
        DoctorStep::Certificates => Some(DoctorStep::Conclude),
        DoctorStep::Conclude => None,
    }
}

/// How many checks passed, warned and failed.
#[derive(Debug, Clone, Copy, PartialEq, Eq, Structural)]
pub struct Tally {
    /// The number of checks that passed.
    pub passed: usize,
    /// The number of checks that warned.
    pub warnings: usize,
    /// The number of checks that failed.
    pub errors: usize,
}

/// How a run of checks ended.
#[derive(Debug, Clone, Copy, PartialEq, Eq, Structural)]
pub enum Verdict {
    /// No warning and no error.
    AllPassed,
    /// Warnings, but no error.
    PassedWithWarnings,
    /// At least one error.
    Failed,
}

impl Tally {
    /// The tally before any check.
    pub fn new() -> (r: Tally)
        ensures
            r == (Tally { passed: 0, warnings: 0, errors: 0 }),
    {
        Tally { passed: 0, warnings: 0, errors: 0 }
    }

    /// The tally with one more result counted.
    pub open spec fn counted(self, result: CheckResultView) -> Tally {
        match result {
            CheckResultView::Pass(_) => Tally { passed: (self.passed + 1) as usize, ..self },
            CheckResultView::Warning(_) => Tally { warnings: (self.warnings + 1) as usize, ..self },
            CheckResultView::Error(_) => Tally { errors: (self.errors + 1) as usize, ..self },
        }
    }

    /// Counts one more result.
    pub fn count(&mut self, result: &CheckResult)
        requires
            old(self).passed < usize::MAX,
            old(self).warnings < usize::MAX,
            old(self).errors < usize::MAX,
        ensures
            *final(self) == old(self).counted(result@),
    {
        match result {
            CheckResult::Pass(_) => {
                self.passed += 1;
            },
            CheckResult::Warning(_) => {
                self.warnings += 1;
            },
            CheckResult::Error(_) => {
                self.errors += 1;
            },
        }
    }

    /// The exit code of a run that was carried through: one where a check
    /// failed, zero otherwise.
    pub fn exit_code(&self) -> (r: i32)
        ensures
            r == if self.errors > 0 {
                1int
            } else {
                0int
            },
    {
        if self.errors > 0 {
            1
        } else {
            0
        }
    }

    /// How the run ended.
    pub fn verdict(&self) -> (r: Verdict)
        ensures
            r == if self.errors > 0 {
                Verdict::Failed
            } else if self.warnings > 0 {
                Verdict::PassedWithWarnings
            } else {
                Verdict::AllPassed
            },
    {
        if self.errors > 0 {
            Verdict::Failed
        } else if self.warnings > 0 {
            Verdict::PassedWithWarnings
        } else {
            Verdict::AllPassed
        }
    }
}

/// What the check of the binary concludes from the path and the version
/// that were found.
pub open spec fn binary_result(path: Option<Seq<char>>, version: Option<Seq<char>>)
    -> CheckResultView {
    match path {
        None => CheckResultView::Error("NGINX binary not found in PATH"@),
        Some(p) => match version {
            Some(v) => CheckResultView::Pass("NGINX binary found: "@ + p + " ("@ + v + ")"@),
            None => CheckResultView::Pass("NGINX binary found: "@ + p),
        },
    }
}

/// What the check of the binary concludes: an error where no binary was
/// found, a pass with its path and, where known, its version otherwise.
pub fn check_nginx_binary(path: Option<&str>, version: Option<&str>) -> (r: CheckResult)
    ensures
        r@ == binary_result(
            match path {
                Some(p) => Some(p@),
                None => None,
            },
            match version {
                Some(v) => Some(v@),
                None => None,
            },
        ),
{
    match path {
        None => CheckResult::Error("NGINX binary not found in PATH".to_owned()),
        Some(p) => {
            let mut text = String::from_str("NGINX binary found: ");
            text.append(p);
            if let Some(v) = version {
                text.append(" (");
                text.append(v);
                text.append(")");
            }
            CheckResult::Pass(text)
        },
    }
}

/// What was found at the path of the configuration file.
#[derive(Debug, Clone, Copy, PartialEq, Eq, Structural)]
pub enum FileState {
    /// Nothing is there.
    Missing,
    /// A file is there.
    File,
    /// Something other than a file is there.
    NotAFile,
}

/// What the check of the configuration file concludes.
pub open spec fn config_file_result(path: Seq<char>, state: FileState) -> CheckResultView {
    match state {
        FileState::Missing => CheckResultView::Error("Configuration file not found: "@ + path),
        FileState::File => CheckResultView::Pass("Configuration file: "@ + path),
        FileState::NotAFile => CheckResultView::Error("Path is not a file: "@ + path),
    }
}

/// What the check of the configuration file concludes from what was found
/// at its path.
pub fn check_config_file(path: &str, state: FileState) -> (r: CheckResult)
    ensures
        r@ == config_file_result(path@, state),
{
    match state {
        FileState::Missing => {
            let mut text = String::from_str("Configuration file not found: ");
            text.append(path);
            CheckResult::Error(text)
        },
        FileState::File => {
            let mut text = String::from_str("Configuration file: ");
            text.append(path);
            CheckResult::Pass(text)
        },
        FileState::NotAFile => {
            let mut text = String::from_str("Path is not a file: ");
            text.append(path);
            CheckResult::Error(text)
        },
    }
}

/// What the check of the configuration file concludes where the file
/// cannot be looked at: an error with the reason.
pub fn config_unreadable(reason: &str) -> (r: CheckResult)
    ensures
        r@ == CheckResultView::Error("Cannot access config file: "@ + reason@),
{
    let mut text = String::from_str("Cannot access config file: ");
    text.append(reason);
    CheckResult::Error(text)
}

/// What the search for the configuration file concludes where it found
/// none: an error with the reason.
pub fn config_not_found(reason: &str) -> (r: CheckResult)
    ensures
        r@ == CheckResultView::Error("Configuration file: "@ + reason@),
{
    let mut text = String::from_str("Configuration file: ");
    text.append(reason);
    CheckResult::Error(text)
}

/// What the check of the parse concludes from its outcome: a pass, or an
/// error with the reason.
pub fn check_parsed(failure: Option<&str>) -> (r: CheckResult)
    ensures
        r@ == match failure {
            None => CheckResultView::Pass("Configuration parsed successfully"@),
            Some(e) => CheckResultView::Error("Configuration parsing failed: "@ + e@),
        },
{
    match failure {
        None => CheckResult::Pass("Configuration parsed successfully".to_owned()),
        Some(e) => {
            let mut text = String::from_str("Configuration parsing failed: ");
            text.append(e);
            CheckResult::Error(text)
        },
    }
}

/// What was found of the directory of a log file.
#[derive(Debug, Clone, Copy, PartialEq, Eq, Structural)]
pub enum DirectoryState {
    /// Nothing is there.
    Missing,
    /// The directory is there and cannot be written to.
    ReadOnly,
    /// The directory is there and can be written to.
    Writable,
    /// The directory is there, and no more is known of it.
    Unknown,
}

/// The warning that the directory of a log file gives, if it gives one.
pub open spec fn directory_note(dir: Seq<char>, state: DirectoryState) -> Option<Seq<char>> {
    match state {
        DirectoryState::Missing => Some("Log directory does not exist: "@ + dir),
        DirectoryState::ReadOnly => Some("Log directory not writable: "@ + dir),
        DirectoryState::Writable => None,
        DirectoryState::Unknown => None,
    }
}

/// The warning that the directory of a log file gives: one where it is
/// missing and one where it cannot be written to, none otherwise.
pub fn directory_warning(dir: &str, state: DirectoryState) -> (r: Option<String>)
    ensures
        opt_view(r) == directory_note(dir@, state),
{
    match state {
        DirectoryState::Missing => {
            let mut text = String::from_str("Log directory does not exist: ");
            text.append(dir);
            Some(text)
        },
        DirectoryState::ReadOnly => {
            let mut text = String::from_str("Log directory not writable: ");
            text.append(dir);
            Some(text)
        },
        DirectoryState::Writable => None,
        DirectoryState::Unknown => None,
    }
}

/// Whether a test of the syntax failed for want of rights, not for what
/// the configuration holds: the reason speaks of a permission denied.
pub fn wants_rights(reason: &str) -> (r: bool)
    ensures
        r == occurs_in("Permission denied"@, reason@),
{
    contains_text(reason, "Permission denied")
}

/// What the check of the syntax concludes from the outcome of the test:
/// a pass, or an error with the reason.
pub fn check_config_syntax(failure: Option<&str>) -> (r: CheckResult)
    ensures
        r@ == match failure {
            None => CheckResultView::Pass("Configuration syntax: valid"@),
            Some(e) => CheckResultView::Error("Configuration syntax error: "@ + e@),
        },
{
    match failure {
        None => CheckResult::Pass("Configuration syntax: valid".to_owned()),
        Some(e) => {
            let mut text = String::from_str("Configuration syntax error: ");
            text.append(e);
            CheckResult::Error(text)
        },
    }
}

/// What the check of the log files concludes.
pub open spec fn log_files_result(logs: nat, warnings: Seq<Seq<char>>) -> CheckResultView {
    if logs == 0 {
        CheckResultView::Warning("No log files configured"@)
    } else if warnings.len() > 0 {
        CheckResultView::Warning(
            "Log files: "@ + decimal(warnings.len()) + " warnings ("@ + warnings[0] + ")"@,
        )
    } else {
        CheckResultView::Pass(
            "Log files: "@ + decimal(logs) + " configured, all directories accessible"@,
        )
    }
}

/// What the check of the log files concludes from their number and the
/// warnings on their directories: a warning where there is no log file or
/// where a directory gave a warning, of which the first is quoted; a pass
/// otherwise.
pub fn check_log_files(logs: usize, warnings: &Vec<String>) -> (r: CheckResult)
    ensures
        r@ == log_files_result(logs as nat, crate::ast::directive::strings_view(warnings@)),
{
    if logs == 0 {
        return CheckResult::Warning("No log files configured".to_owned());
    }
    if warnings.len() > 0 {
        let mut text = String::from_str("Log files: ");
        push_decimal(&mut text, warnings.len());
        text.append(" warnings (");
        text.append(warnings[0].as_str());
        text.append(")");
        CheckResult::Warning(text)
    } else {
        let mut text = String::from_str("Log files: ");
        push_decimal(&mut text, logs);
        text.append(" configured, all directories accessible");
        CheckResult::Pass(text)
    }
}

/// What the check of the SSL setup concludes from the number of servers
/// with SSL: a pass either way.
pub fn check_ssl_certificates(ssl_servers: usize) -> (r: CheckResult)
    ensures
        r@ == if ssl_servers == 0 {
            CheckResultView::Pass("No SSL configuration found"@)
        } else {
            CheckResultView::Pass("SSL servers: "@ + decimal(ssl_servers as nat) + " configured"@)
        },
{
    if ssl_servers == 0 {
        CheckResult::Pass("No SSL configuration found".to_owned())
    } else {
        let mut text = String::from_str("SSL servers: ");
        push_decimal(&mut text, ssl_servers);
        text.append(" configured");
        CheckResult::Pass(text)
    }
}

} // verus!

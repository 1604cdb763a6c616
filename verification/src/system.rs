//! The `nginx` binary of the system: what is made of what it says. Finding
//! and running it is the caller's part.

use vstd::prelude::*;
use crate::error::{Error, ErrorView};
use crate::text::{chars_of, lines_of, split_lines};

verus! {

/// The version that `nginx -v` reports: the first line of what it wrote,
/// or `unknown` where it wrote nothing.
pub open spec fn version_of(output: Seq<char>) -> Seq<char> {
    if lines_of(output).len() > 0 {
        lines_of(output)[0]
    } else {
        "unknown"@
    }
}

/// The version that `nginx -v` reports in `output`.
pub fn version_line(output: &str) -> (r: String)
    ensures
        r@ == version_of(output@),
{
    let chars = chars_of(output);
    let lines = split_lines(&chars);
    if lines.len() > 0 {
        lines[0].clone()
    } else {
        "unknown".to_owned()
    }
}

/// The paths at which a configuration file is looked for, in order.
pub fn common_config_paths() -> (r: Vec<&'static str>)
    ensures
        r@.len() == 4,
        r@[0]@ == "/etc/nginx/nginx.conf"@,
        r@[1]@ == "/usr/local/nginx/conf/nginx.conf"@,
        r@[2]@ == "/usr/local/etc/nginx/nginx.conf"@,
        r@[3]@ == "nginx.conf"@,
{
    let mut out: Vec<&'static str> = Vec::new();
    out.push("/etc/nginx/nginx.conf");
    out.push("/usr/local/nginx/conf/nginx.conf");
    out.push("/usr/local/etc/nginx/nginx.conf");
    out.push("nginx.conf");
    out
}

/// The error for a binary that is not on the search path.
pub fn binary_not_found(reason: &str) -> (r: Error)
    ensures
        r@ == ErrorView::System(
            "nginx binary not found in PATH: "@ + reason@
                + ". Please ensure nginx is installed and accessible."@,
        ),
{
    let mut text = String::from_str("nginx binary not found in PATH: ");
    text.append(reason);
    text.append(". Please ensure nginx is installed and accessible.");
    Error::System(text)
}

/// What the binary was asked to do.
#[derive(Debug, Clone, Copy, PartialEq, Eq, Structural)]
pub enum Request {
    /// `nginx -v`: its version.
    Version,
    /// `nginx -T`: the whole configuration.
    Dump,
    /// `nginx -t`: a test of the configuration.
    Test,
}

/// The text of the error for a binary that could not be run.
pub open spec fn not_run_text(request: Request, reason: Seq<char>) -> Seq<char> {
    match request {
        Request::Version => "Failed to execute nginx -v: "@ + reason,
        Request::Dump => "Failed to execute nginx -T: "@ + reason
            + ". You may need to run with sudo or as root."@,
        Request::Test => "Failed to execute nginx -t: "@ + reason,
    }
}

/// The error for a binary that could not be run.
pub fn not_run(request: Request, reason: &str) -> (r: Error)
    ensures
        r@ == ErrorView::System(not_run_text(request, reason@)),
{
    let mut text = String::new();
    match request {
        Request::Version => {
            text.append("Failed to execute nginx -v: ");
            text.append(reason);
        },
        Request::Dump => {
            text.append("Failed to execute nginx -T: ");
            text.append(reason);
            text.append(". You may need to run with sudo or as root.");
        },
        Request::Test => {
            text.append("Failed to execute nginx -t: ");
            text.append(reason);
        },
    }
    assert(text@ =~= not_run_text(request, reason@));
    Error::System(text)
}

/// The error for a dump that ended with a failure; `status` is the text of
/// the status it ended with and `stderr` what it wrote.
pub fn dump_failed(status: &str, stderr: &str) -> (r: Error)
    ensures
        r@ == ErrorView::System(
            "nginx -T failed with status "@ + status@ + ": "@ + stderr@
                + "\nCommon causes:\n- Insufficient permissions (try running with sudo)\n- NGINX is not running\n- Configuration has syntax errors"@,
        ),
{
    let mut text = String::from_str("nginx -T failed with status ");
    text.append(status);
    text.append(": ");
    text.append(stderr);
    text.append(
        "\nCommon causes:\n- Insufficient permissions (try running with sudo)\n- NGINX is not running\n- Configuration has syntax errors",
    );
    Error::System(text)
}

/// The error for a dump that is no valid UTF-8.
pub fn dump_not_text(reason: &str) -> (r: Error)
    ensures
        r@ == ErrorView::System("nginx -T output contains invalid UTF-8: "@ + reason@),
{
    let mut text = String::from_str("nginx -T output contains invalid UTF-8: ");
    text.append(reason);
    Error::System(text)
}

/// The error for a test that the configuration did not pass; `stderr` is
/// what the test wrote.
pub fn test_failed(stderr: &str) -> (r: Error)
    ensures
        r@ == ErrorView::System("Configuration test failed:\n"@ + stderr@),
{
    let mut text = String::from_str("Configuration test failed:\n");
    text.append(stderr);
    Error::System(text)
}

} // verus!

//! Analysis of the servers of a configuration: what is worth a look in their
//! SSL setup and in their security.

use vstd::prelude::*;
use crate::text::{lowercase_of, starts_with, str_eq, to_lowercase};
use crate::types::listen::ListenView;
use crate::types::location::LocationView;
use crate::types::server::{Server, ServerView};

verus! {

/// How grave an issue is.
#[derive(Debug, Clone, Copy, PartialEq, Eq, Structural)]
pub enum Severity {
    /// Worth knowing.
    Info,
    /// Worth a change.
    Warning,
    /// In need of a change.
    Critical,
}

impl Severity {
    /// The name of the severity.
    pub open spec fn name_text(self) -> Seq<char> {
        match self {
            Severity::Info => "Info"@,
            Severity::Warning => "Warning"@,
            Severity::Critical => "Critical"@,
        }
    }

    /// The rank of the severity: the graver, the higher.
    pub open spec fn rank(self) -> int {
        match self {
            Severity::Info => 0,
            Severity::Warning => 1,
            Severity::Critical => 2,
        }
    }

    /// The least severity that a level asks for, where `lower` is the level
    /// in lower case: `critical`, `warning`, or anything else for everything.
    pub open spec fn least(lower: Seq<char>) -> Severity {
        if lower == "critical"@ {
            Severity::Critical
        } else if lower == "warning"@ {
            Severity::Warning
        } else {
            Severity::Info
        }
    }

    /// The name of the severity.
    pub fn name(&self) -> (r: &'static str)
        ensures
            r@ == self.name_text(),
    {
        match self {
            Severity::Info => "Info",
            Severity::Warning => "Warning",
            Severity::Critical => "Critical",
        }
    }

    /// Whether this severity is at least as grave as `least`.
    pub fn reaches(&self, least: Severity) -> (r: bool)
        ensures
            r == (self.rank() >= least.rank()),
    {
        match (*self, least) {
            (Severity::Critical, _) => true,
            (Severity::Warning, Severity::Warning) => true,
            (Severity::Warning, Severity::Info) => true,
            (Severity::Info, Severity::Info) => true,
            _ => false,
        }
    }

    /// The least severity that a level asks for, where `lower` is the level
    /// in lower case.
    pub fn from_lowercase(lower: &str) -> (r: Severity)
        ensures
            r == Severity::least(lower@),
    {
        if str_eq(lower, "critical") {
            Severity::Critical
        } else if str_eq(lower, "warning") {
            Severity::Warning
        } else {
            Severity::Info
        }
    }

    /// The least severity that a level asks for, whatever the case of its
    /// letters.
    pub fn from_level(level: &str) -> (r: Severity)
        ensures
            r == Severity::least(lowercase_of(level@)),
    {
        let lower = to_lowercase(level);
        Severity::from_lowercase(lower.as_str())
    }
}

/// An issue in the SSL setup of a server.
#[derive(Debug)]
pub struct SslIssue {
    /// How grave the issue is.
    pub severity: Severity,
    /// The server, by its first name.
    pub server: String,
    /// What the issue is.
    pub issue: String,
    /// What to do about it.
    pub recommendation: String,
}

/// The mathematical value of an [`SslIssue`].
pub struct SslIssueView {
    pub severity: Severity,
    pub server: Seq<char>,
    pub issue: Seq<char>,
    pub recommendation: Seq<char>,
}

impl View for SslIssue {
    type V = SslIssueView;

    open spec fn view(&self) -> SslIssueView {
        SslIssueView {
            severity: self.severity,
            server: self.server@,
            issue: self.issue@,
            recommendation: self.recommendation@,
        }
    }
}

impl Clone for SslIssue {
    fn clone(&self) -> (r: SslIssue)
        ensures
            r@ == self@,
    {
        SslIssue {
            severity: self.severity,
            server: self.server.clone(),
            issue: self.issue.clone(),
            recommendation: self.recommendation.clone(),
        }
    }
}

/// An issue in the security of a server.
#[derive(Debug)]
pub struct SecurityIssue {
    /// How grave the issue is.
    pub severity: Severity,
    /// The server, by its first name.
    pub server: String,
    /// The kind of issue.
    pub category: String,
    /// What the issue is.
    pub issue: String,
    /// What may come of it.
    pub risk: String,
    /// What to do about it.
    pub fix: String,
}

/// The mathematical value of a [`SecurityIssue`].
pub struct SecurityIssueView {
    pub severity: Severity,
    pub server: Seq<char>,
    pub category: Seq<char>,
    pub issue: Seq<char>,
    pub risk: Seq<char>,
    pub fix: Seq<char>,
}

impl View for SecurityIssue {
    type V = SecurityIssueView;

    open spec fn view(&self) -> SecurityIssueView {
        SecurityIssueView {
            severity: self.severity,
            server: self.server@,
            category: self.category@,
            issue: self.issue@,
            risk: self.risk@,
            fix: self.fix@,
        }
    }
}

impl Clone for SecurityIssue {
    fn clone(&self) -> (r: SecurityIssue)
        ensures
            r@ == self@,
    {
        SecurityIssue {
            severity: self.severity,
            server: self.server.clone(),
            category: self.category.clone(),
            issue: self.issue.clone(),
            risk: self.risk.clone(),
            fix: self.fix.clone(),
        }
    }
}

/// The views of a sequence of SSL issues, element by element.
pub open spec fn ssl_issues_view(issues: Seq<SslIssue>) -> Seq<SslIssueView> {
    Seq::new(issues.len(), |i: int| issues[i]@)
}

/// The views of a sequence of security issues, element by element.
pub open spec fn security_issues_view(issues: Seq<SecurityIssue>) -> Seq<SecurityIssueView> {
    Seq::new(issues.len(), |i: int| issues[i]@)
}

/// The name a server goes by in an analysis: its first name, or `_`.
pub open spec fn display_name(s: ServerView) -> Seq<char> {
    if s.server_names.len() > 0 {
        s.server_names[0]
    } else {
        "_"@
    }
}

/// The reminder that the protocols of a server were not looked at.
pub open spec fn protocols_note(server: Seq<char>) -> SslIssueView {
    SslIssueView {
        severity: Severity::Info,
        server,
        issue: "SSL/TLS protocol configuration not explicitly checked"@,
        recommendation: "Ensure ssl_protocols directive uses TLSv1.2 and TLSv1.3 only"@,
    }
}

/// Whether some listener has both SSL and HTTP/2 on.
pub open spec fn has_http2(listen: Seq<ListenView>) -> bool {
    exists|i: int| 0 <= i < listen.len() && (#[trigger] listen[i]).ssl && listen[i].http2
}

/// The warning that no SSL listener of a server has HTTP/2 on.
pub open spec fn http2_warning(server: Seq<char>) -> SslIssueView {
    SslIssueView {
        severity: Severity::Warning,
        server,
        issue: "HTTP/2 not enabled on SSL listener"@,
        recommendation: "Add 'http2' parameter to listen directive: listen 443 ssl http2;"@,
    }
}

/// The reminder that the certificate files of a server were not looked at.
pub open spec fn certificates_note(server: Seq<char>) -> SslIssueView {
    SslIssueView {
        severity: Severity::Info,
        server,
        issue: "Certificate file validation not implemented"@,
        recommendation: "Manually verify ssl_certificate and ssl_certificate_key files exist"@,
    }
}

/// Whether a location passes requests on over plain HTTP.
pub open spec fn passes_to_http(l: LocationView) -> bool {
    l.proxy_pass is Some && "http://"@.is_prefix_of(l.proxy_pass->0)
}

/// The warning that a location of an SSL server passes requests on over
/// plain HTTP.
pub open spec fn mixed_content_warning(server: Seq<char>, l: LocationView) -> SslIssueView {
    SslIssueView {
        severity: Severity::Warning,
        server,
        issue: "Location "@ + l.path + " proxies to HTTP upstream (mixed content risk)"@,
        recommendation: "Consider using HTTPS for upstream: "@ + l.proxy_pass->0,
    }
}

/// The mixed-content warnings for the locations, in order.
pub open spec fn mixed_content(server: Seq<char>, locations: Seq<LocationView>) -> Seq<
    SslIssueView,
>
    decreases locations.len(),
{
    if locations.len() == 0 {
        Seq::empty()
    } else {
        mixed_content(server, locations.drop_last()) + if passes_to_http(locations.last()) {
            seq![mixed_content_warning(server, locations.last())]
        } else {
            Seq::empty()
        }
    }
}

/// The SSL issues of one server: the note on protocols, the warning on
/// HTTP/2 where it applies, the note on certificates where it was asked
/// for, and the mixed-content warnings.
pub open spec fn ssl_issues_of(s: ServerView, check_certs: bool) -> Seq<SslIssueView> {
    let name = display_name(s);
    seq![protocols_note(name)] + (if has_http2(s.listen) {
        Seq::empty()
    } else {
        seq![http2_warning(name)]
    }) + (if check_certs {
        seq![certificates_note(name)]
    } else {
        Seq::empty()
    }) + mixed_content(name, s.locations)
}

/// The SSL issues of the servers, server after server.
pub open spec fn ssl_issues_in(servers: Seq<ServerView>, check_certs: bool) -> Seq<SslIssueView>
    decreases servers.len(),
{
    if servers.len() == 0 {
        Seq::empty()
    } else {
        ssl_issues_in(servers.drop_last(), check_certs) + ssl_issues_of(
            servers.last(),
            check_certs,
        )
    }
}

/// Holds of the SSL issues that are more than a note.
pub open spec fn above_info() -> spec_fn(SslIssueView) -> bool {
    |i: SslIssueView| i.severity != Severity::Info
}

/// The SSL issues that an analysis reports: all of them, or only those that
/// are more than a note.
pub open spec fn ssl_report(servers: Seq<ServerView>, check_certs: bool, warnings_only: bool)
    -> Seq<SslIssueView> {
    if warnings_only {
        ssl_issues_in(servers, check_certs).filter(above_info())
    } else {
        ssl_issues_in(servers, check_certs)
    }
}

fn server_display_name(server: &Server) -> (r: String)
    ensures
        r@ == display_name(server@),
{
    match server.primary_name() {
        Some(name) => name.to_owned(),
        None => "_".to_owned(),
    }
}

/// Adds the reminder that the protocols of the server were not looked at.
pub fn check_ssl_protocols(server_name: &str, issues: &mut Vec<SslIssue>)
    ensures
        ssl_issues_view(final(issues)@) == ssl_issues_view(old(issues)@).push(
            protocols_note(server_name@),
        ),
{
    issues.push(
        SslIssue {
            severity: Severity::Info,
            server: server_name.to_owned(),
            issue: "SSL/TLS protocol configuration not explicitly checked".to_owned(),
            recommendation: "Ensure ssl_protocols directive uses TLSv1.2 and TLSv1.3 only"
                .to_owned(),
        },
    );
    assert(ssl_issues_view(issues@) =~= ssl_issues_view(old(issues)@).push(
        protocols_note(server_name@),
    ));
}

/// Adds a warning unless some listener of the server has both SSL and
/// HTTP/2 on.
pub fn check_http2_support(server: &Server, server_name: &str, issues: &mut Vec<SslIssue>)
    ensures
        ssl_issues_view(final(issues)@) == ssl_issues_view(old(issues)@) + if has_http2(
            server@.listen,
        ) {
            Seq::<SslIssueView>::empty()
        } else {
            seq![http2_warning(server_name@)]
        },
{
    let mut found = false;
    let mut i: usize = 0;
    while i < server.listen.len()
        invariant
            i <= server.listen.len(),
            found ==> has_http2(server@.listen),
            !found ==> forall|j: int|
                0 <= j < i ==> !((#[trigger] server@.listen[j]).ssl && server@.listen[j].http2),
        decreases server.listen.len() - i,
    {
        if server.listen[i].ssl && server.listen[i].http2 {
            assert(server@.listen[i as int].ssl && server@.listen[i as int].http2);
            found = true;
        }
        i += 1;
    }
    if !found {
        issues.push(
            SslIssue {
                severity: Severity::Warning,
                server: server_name.to_owned(),
                issue: "HTTP/2 not enabled on SSL listener".to_owned(),
                recommendation: "Add 'http2' parameter to listen directive: listen 443 ssl http2;"
                    .to_owned(),
            },
        );
        assert(ssl_issues_view(issues@) =~= ssl_issues_view(old(issues)@) + seq![
            http2_warning(server_name@),
        ]);
    } else {
        assert(ssl_issues_view(issues@) =~= ssl_issues_view(old(issues)@) + Seq::<
            SslIssueView,
        >::empty());
    }
}

/// Looks at the HSTS headers of the server: nothing is checked yet, and no
/// issue is added.
pub fn check_hsts(server_name: &str, issues: &mut Vec<SslIssue>)
    ensures
        *final(issues) == *old(issues),
{
}

/// Adds the reminder that the certificate files of the server were not
/// looked at.
pub fn check_certificate_files(server_name: &str, issues: &mut Vec<SslIssue>)
    ensures
        ssl_issues_view(final(issues)@) == ssl_issues_view(old(issues)@).push(
            certificates_note(server_name@),
        ),
{
    issues.push(
        SslIssue {
            severity: Severity::Info,
            server: server_name.to_owned(),
            issue: "Certificate file validation not implemented".to_owned(),
            recommendation: "Manually verify ssl_certificate and ssl_certificate_key files exist"
                .to_owned(),
        },
    );
    assert(ssl_issues_view(issues@) =~= ssl_issues_view(old(issues)@).push(
        certificates_note(server_name@),
    ));
}

/// Adds a warning for each location of the server that passes requests on
/// over plain HTTP.
pub fn check_mixed_content(server: &Server, server_name: &str, issues: &mut Vec<SslIssue>)
    ensures
        ssl_issues_view(final(issues)@) == ssl_issues_view(old(issues)@) + mixed_content(
            server_name@,
            server@.locations,
        ),
{
    let ghost start = ssl_issues_view(issues@);
    let ghost all = server@.locations;
    let mut i: usize = 0;
    proof {
        assert(all.take(0) =~= Seq::<LocationView>::empty());
        assert(start + Seq::<SslIssueView>::empty() =~= start);
    }
    while i < server.locations.len()
        invariant
            i <= server.locations.len(),
            all == server@.locations,
            ssl_issues_view(issues@) == start + mixed_content(server_name@, all.take(i as int)),
        decreases server.locations.len() - i,
    {
        let ghost before = ssl_issues_view(issues@);
        let location = &server.locations[i];
        proof {
            assert(all.take(i + 1).drop_last() =~= all.take(i as int));
            assert(all.take(i + 1).last() == location@);
        }
        let mut added = false;
        if let Some(proxy_pass) = &location.proxy_pass {
            if starts_with(proxy_pass.as_str(), "http://") {
                let mut issue = String::from_str("Location ");
                issue.append(location.path.as_str());
                issue.append(" proxies to HTTP upstream (mixed content risk)");
                let mut recommendation = String::from_str("Consider using HTTPS for upstream: ");
                recommendation.append(proxy_pass.as_str());
                issues.push(
                    SslIssue {
                        severity: Severity::Warning,
                        server: server_name.to_owned(),
                        issue,
                        recommendation,
                    },
                );
                added = true;
                proof {
                    let w = mixed_content_warning(server_name@, location@);
                    assert(ssl_issues_view(issues@) =~= before.push(w));
                    assert(start + (mixed_content(server_name@, all.take(i as int)) + seq![w])
                        =~= before.push(w));
                }
            }
        }
        proof {
            if !added {
                assert(start + (mixed_content(server_name@, all.take(i as int)) + Seq::<
                    SslIssueView,
                >::empty()) =~= before);
            }
        }
        i += 1;
    }
    proof {
        assert(all.take(all.len() as int) =~= all);
    }
}

/// The views of a sequence of servers, element by element.
pub open spec fn servers_view(ss: Seq<Server>) -> Seq<ServerView> {
    Seq::new(ss.len(), |i: int| ss[i]@)
}

/// The SSL issues of the servers, which are taken to have SSL on: for each
/// server a note on protocols, a warning where HTTP/2 is off, a note on
/// certificates where `check_certs` asks for it, and a warning for each
/// location that passes requests on over plain HTTP. With `warnings_only`
/// the notes are left out.
pub fn ssl_issues(servers: &[Server], check_certs: bool, warnings_only: bool) -> (r: Vec<SslIssue>)
    ensures
        ssl_issues_view(r@) == ssl_report(servers_view(servers@), check_certs, warnings_only),
{
    let ghost all = servers_view(servers@);
    let mut issues: Vec<SslIssue> = Vec::new();
    let mut i: usize = 0;
    proof {
        assert(all.take(0) =~= Seq::<ServerView>::empty());
        assert(ssl_issues_view(issues@) =~= Seq::<SslIssueView>::empty());
    }
    while i < servers.len()
        invariant
            i <= servers.len(),
            all == servers_view(servers@),
            ssl_issues_view(issues@) == ssl_issues_in(all.take(i as int), check_certs),
        decreases servers.len() - i,
    {
        let server = &servers[i];
        let ghost before = ssl_issues_view(issues@);
        proof {
            assert(all.take(i + 1).drop_last() =~= all.take(i as int));
            assert(all.take(i + 1).last() == server@);
        }
        let name = server_display_name(server);
        check_ssl_protocols(name.as_str(), &mut issues);
        check_http2_support(server, name.as_str(), &mut issues);
        check_hsts(name.as_str(), &mut issues);
        if check_certs {
            check_certificate_files(name.as_str(), &mut issues);
        }
        check_mixed_content(server, name.as_str(), &mut issues);
        proof {
            assert(ssl_issues_view(issues@) =~= before + ssl_issues_of(server@, check_certs));
        }
        i += 1;
    }
    proof {
        assert(all.take(all.len() as int) =~= all);
    }
    if !warnings_only {
        return issues;
    }
    let ghost found = ssl_issues_view(issues@);
    let mut kept: Vec<SslIssue> = Vec::new();
    let mut k: usize = 0;
    proof {
        assert(found.take(0) =~= Seq::<SslIssueView>::empty());
        Seq::<SslIssueView>::empty().lemma_filter_len(above_info());
        assert(ssl_issues_view(kept@) =~= found.take(0).filter(above_info()));
    }
    while k < issues.len()
        invariant
            k <= issues.len(),
            found == ssl_issues_view(issues@),
            ssl_issues_view(kept@) == found.take(k as int).filter(above_info()),
        decreases issues.len() - k,
    {
        let ghost seen = ssl_issues_view(kept@);
        proof {
            assert(found.take(k + 1) =~= found.take(k as int).push(issues@[k as int]@));
            found.take(k as int).lemma_filter_push(issues@[k as int]@, above_info());
        }
        match issues[k].severity {
            Severity::Info => {},
            _ => {
                kept.push(issues[k].clone());
                assert(ssl_issues_view(kept@) =~= seen.push(issues@[k as int]@));
            },
        }
        k += 1;
    }
    proof {
        assert(found.take(found.len() as int) =~= found);
    }
    kept
}

/// Holds of the SSL issues of the given severity.
pub open spec fn ssl_of(severity: Severity) -> spec_fn(SslIssueView) -> bool {
    |i: SslIssueView| i.severity == severity
}

/// The SSL issues of the given severity, in the order in which they stand.
pub fn issues_of(issues: &[SslIssue], severity: Severity) -> (r: Vec<SslIssue>)
    ensures
        ssl_issues_view(r@) == ssl_issues_view(issues@).filter(ssl_of(severity)),
{
    let ghost found = ssl_issues_view(issues@);
    let mut kept: Vec<SslIssue> = Vec::new();
    let mut k: usize = 0;
    proof {
        assert(found.take(0) =~= Seq::<SslIssueView>::empty());
        Seq::<SslIssueView>::empty().lemma_filter_len(ssl_of(severity));
        assert(ssl_issues_view(kept@) =~= found.take(0).filter(ssl_of(severity)));
    }
    while k < issues.len()
        invariant
            k <= issues.len(),
            found == ssl_issues_view(issues@),
            ssl_issues_view(kept@) == found.take(k as int).filter(ssl_of(severity)),
        decreases issues.len() - k,
    {
        let ghost seen = ssl_issues_view(kept@);
        proof {
            assert(found.take(k + 1) =~= found.take(k as int).push(issues@[k as int]@));
            found.take(k as int).lemma_filter_push(issues@[k as int]@, ssl_of(severity));
        }
        if issues[k].severity == severity {
            kept.push(issues[k].clone());
            assert(ssl_issues_view(kept@) =~= seen.push(issues@[k as int]@));
        }
        k += 1;
    }
    proof {
        assert(found.take(found.len() as int) =~= found);
    }
    kept
}

/// The row of one SSL issue: severity, server, issue and recommendation.
pub open spec fn ssl_issue_row(i: SslIssueView) -> Seq<char> {
    i.severity.name_text() + ","@ + i.server + ","@ + i.issue + ","@ + i.recommendation + "\n"@
}

/// The rows of the SSL issues, issue after issue.
pub open spec fn ssl_issue_rows(issues: Seq<SslIssueView>) -> Seq<char>
    decreases issues.len(),
{
    if issues.len() == 0 {
        Seq::empty()
    } else {
        ssl_issue_rows(issues.drop_last()) + ssl_issue_row(issues.last())
    }
}

/// The SSL issues as comma-separated values: a header, then a line for each
/// issue.
pub fn ssl_issues_csv(issues: &[SslIssue]) -> (r: String)
    ensures
        r@ == "Severity,Server,Issue,Recommendation\n"@ + ssl_issue_rows(ssl_issues_view(issues@)),
{
    let ghost all = ssl_issues_view(issues@);
    let ghost header = "Severity,Server,Issue,Recommendation\n"@;
    let mut out = String::from_str("Severity,Server,Issue,Recommendation\n");
    let mut i: usize = 0;
    proof {
        assert(all.take(0) =~= Seq::<SslIssueView>::empty());
        assert(out@ =~= header + ssl_issue_rows(all.take(0)));
    }
    while i < issues.len()
        invariant
            i <= issues.len(),
            all == ssl_issues_view(issues@),
            header == "Severity,Server,Issue,Recommendation\n"@,
            out@ == header + ssl_issue_rows(all.take(i as int)),
        decreases issues.len() - i,
    {
        let issue = &issues[i];
        let ghost before = out@;
        proof {
            assert(all.take(i + 1).drop_last() =~= all.take(i as int));
            assert(all.take(i + 1).last() == issue@);
        }
        out.append(issue.severity.name());
        out.append(",");
        out.append(issue.server.as_str());
        out.append(",");
        out.append(issue.issue.as_str());
        out.append(",");
        out.append(issue.recommendation.as_str());
        out.append("\n");
        proof {
            assert(out@ =~= before + ssl_issue_row(issue@));
            assert(out@ =~= header + (ssl_issue_rows(all.take(i as int)) + ssl_issue_row(issue@)));
        }
        i += 1;
    }
    proof {
        assert(all.take(all.len() as int) =~= all);
    }
    out
}

/// Whether a path is one that guards something: it begins with `/admin`,
/// `/login`, `/api`, `/auth` or `/dashboard`.
pub open spec fn sensitive(path: Seq<char>) -> bool {
    ||| "/admin"@.is_prefix_of(path)
    ||| "/login"@.is_prefix_of(path)
    ||| "/api"@.is_prefix_of(path)
    ||| "/auth"@.is_prefix_of(path)
    ||| "/dashboard"@.is_prefix_of(path)
}

/// Whether a path is one that guards something.
pub fn is_sensitive_path(path: &str) -> (r: bool)
    ensures
        r == sensitive(path@),
{
    starts_with(path, "/admin") || starts_with(path, "/login") || starts_with(path, "/api")
        || starts_with(path, "/auth") || starts_with(path, "/dashboard")
}

/// Whether one of the names is the catch-all name `_`.
pub open spec fn has_catch_all(names: Seq<Seq<char>>) -> bool {
    exists|i: int| 0 <= i < names.len() && #[trigger] names[i] == "_"@
}

/// Whether a server is a default server that no name of its own tells
/// apart: it has no name, or the catch-all name among its names, and some
/// listener marks it as the default.
pub open spec fn unnamed_default(s: ServerView) -> bool {
    (s.server_names.len() == 0 || has_catch_all(s.server_names)) && s.is_default_server()
}

/// The warning for a default server without a name of its own.
pub open spec fn unnamed_default_warning(server: Seq<char>) -> SecurityIssueView {
    SecurityIssueView {
        severity: Severity::Warning,
        server,
        category: "Configuration"@,
        issue: "Default server without explicit server_name"@,
        risk: "May respond to requests for unintended hostnames"@,
        fix: "Add explicit server_name directive or use server_name _;"@,
    }
}

/// The issue of a sensitive path that is served without SSL.
pub open spec fn plaintext_issue(server: Seq<char>, path: Seq<char>) -> SecurityIssueView {
    SecurityIssueView {
        severity: Severity::Critical,
        server,
        category: "SSL/TLS"@,
        issue: "Sensitive path '"@ + path + "' served over HTTP"@,
        risk: "Credentials or sensitive data may be transmitted in plaintext"@,
        fix: "Enable SSL for this server or redirect to HTTPS"@,
    }
}

/// The reminder that the server tokens of a server were not looked at.
pub open spec fn tokens_note(server: Seq<char>) -> SecurityIssueView {
    SecurityIssueView {
        severity: Severity::Info,
        server,
        category: "Information Disclosure"@,
        issue: "Server tokens directive not checked"@,
        risk: "NGINX version may be disclosed in headers"@,
        fix: "Add 'server_tokens off;' in http or server block"@,
    }
}

/// The issues of the sensitive paths among the locations, in order.
pub open spec fn plaintext_issues(server: Seq<char>, locations: Seq<LocationView>) -> Seq<
    SecurityIssueView,
>
    decreases locations.len(),
{
    if locations.len() == 0 {
        Seq::empty()
    } else {
        plaintext_issues(server, locations.drop_last()) + if sensitive(locations.last().path) {
            seq![plaintext_issue(server, locations.last().path)]
        } else {
            Seq::empty()
        }
    }
}

/// The security issues of one server: the warning for a default server
/// without a name, the issues of sensitive paths where the server has no
/// SSL, and the note on server tokens.
pub open spec fn security_issues_of(s: ServerView) -> Seq<SecurityIssueView> {
    let name = display_name(s);
    (if unnamed_default(s) {
        seq![unnamed_default_warning(name)]
    } else {
        Seq::empty()
    }) + (if s.has_ssl() {
        Seq::empty()
    } else {
        plaintext_issues(name, s.locations)
    }) + seq![tokens_note(name)]
}

/// The security issues of the servers, server after server.
pub open spec fn security_issues_in(servers: Seq<ServerView>) -> Seq<SecurityIssueView>
    decreases servers.len(),
{
    if servers.len() == 0 {
        Seq::empty()
    } else {
        security_issues_in(servers.drop_last()) + security_issues_of(servers.last())
    }
}

/// Holds of the security issues that are at least as grave as `least`.
pub open spec fn at_least(least: Severity) -> spec_fn(SecurityIssueView) -> bool {
    |i: SecurityIssueView| i.severity.rank() >= least.rank()
}

/// Adds the reminder that the server tokens of the server were not looked
/// at.
pub fn check_server_tokens(server_name: &str, issues: &mut Vec<SecurityIssue>)
    ensures
        security_issues_view(final(issues)@) == security_issues_view(old(issues)@).push(
            tokens_note(server_name@),
        ),
{
    issues.push(
        SecurityIssue {
            severity: Severity::Info,
            server: server_name.to_owned(),
            category: "Information Disclosure".to_owned(),
            issue: "Server tokens directive not checked".to_owned(),
            risk: "NGINX version may be disclosed in headers".to_owned(),
            fix: "Add 'server_tokens off;' in http or server block".to_owned(),
        },
    );
    assert(security_issues_view(issues@) =~= security_issues_view(old(issues)@).push(
        tokens_note(server_name@),
    ));
}

fn contains_catch_all(names: &Vec<String>) -> (r: bool)
    ensures
        r == has_catch_all(crate::ast::directive::strings_view(names@)),
{
    let mut i: usize = 0;
    while i < names.len()
        invariant
            i <= names.len(),
            forall|j: int| 0 <= j < i ==> (#[trigger] names@[j])@ != "_"@,
        decreases names.len() - i,
    {
        if str_eq(names[i].as_str(), "_") {
            assert(crate::ast::directive::strings_view(names@)[i as int] == "_"@);
            return true;
        }
        i += 1;
    }
    assert forall|j: int| 0 <= j < names@.len() implies #[trigger] crate::ast::directive::strings_view(
        names@,
    )[j] != "_"@ by {
        assert(crate::ast::directive::strings_view(names@)[j] == names@[j]@);
    }
    false
}

fn push_plaintext_issues(server: &Server, server_name: &str, issues: &mut Vec<SecurityIssue>)
    ensures
        security_issues_view(final(issues)@) == security_issues_view(old(issues)@)
            + plaintext_issues(server_name@, server@.locations),
{
    let ghost start = security_issues_view(issues@);
    let ghost all = server@.locations;
    let mut i: usize = 0;
    proof {
        assert(all.take(0) =~= Seq::<LocationView>::empty());
        assert(start + Seq::<SecurityIssueView>::empty() =~= start);
    }
    while i < server.locations.len()
        invariant
            i <= server.locations.len(),
            all == server@.locations,
            security_issues_view(issues@) == start + plaintext_issues(
                server_name@,
                all.take(i as int),
            ),
        decreases server.locations.len() - i,
    {
        let ghost before = security_issues_view(issues@);
        let location = &server.locations[i];
        proof {
            assert(all.take(i + 1).drop_last() =~= all.take(i as int));
            assert(all.take(i + 1).last() == location@);
        }
        if is_sensitive_path(location.path.as_str()) {
            let mut issue = String::from_str("Sensitive path '");
            issue.append(location.path.as_str());
            issue.append("' served over HTTP");
            issues.push(
                SecurityIssue {
                    severity: Severity::Critical,
                    server: server_name.to_owned(),
                    category: "SSL/TLS".to_owned(),
                    issue,
                    risk: "Credentials or sensitive data may be transmitted in plaintext"
                        .to_owned(),
                    fix: "Enable SSL for this server or redirect to HTTPS".to_owned(),
                },
            );
            proof {
                let w = plaintext_issue(server_name@, location@.path);
                assert(security_issues_view(issues@) =~= before.push(w));
                assert(start + (plaintext_issues(server_name@, all.take(i as int)) + seq![w])
                    =~= before.push(w));
            }
        } else {
            proof {
                assert(start + (plaintext_issues(server_name@, all.take(i as int)) + Seq::<
                    SecurityIssueView,
                >::empty()) =~= before);
            }
        }
        i += 1;
    }
    proof {
        assert(all.take(all.len() as int) =~= all);
    }
}

/// The security issues of the servers that are at least as grave as
/// `least`: for each server a warning where it is a default server without
/// a name of its own, a critical issue for each sensitive path where it has
/// no SSL, and a note on server tokens.
pub fn security_issues(servers: &[Server], least: Severity) -> (r: Vec<SecurityIssue>)
    ensures
        security_issues_view(r@) == security_issues_in(servers_view(servers@)).filter(
            at_least(least),
        ),
{
    let ghost all = servers_view(servers@);
    let mut issues: Vec<SecurityIssue> = Vec::new();
    let mut i: usize = 0;
    proof {
        assert(all.take(0) =~= Seq::<ServerView>::empty());
        assert(security_issues_view(issues@) =~= Seq::<SecurityIssueView>::empty());
    }
    while i < servers.len()
        invariant
            i <= servers.len(),
            all == servers_view(servers@),
            security_issues_view(issues@) == security_issues_in(all.take(i as int)),
        decreases servers.len() - i,
    {
        let server = &servers[i];
        let ghost before = security_issues_view(issues@);
        proof {
            assert(all.take(i + 1).drop_last() =~= all.take(i as int));
            assert(all.take(i + 1).last() == server@);
        }
        let name = server_display_name(server);
        if (server.server_names.len() == 0 || contains_catch_all(&server.server_names))
            && server.is_default_server() {
            issues.push(
                SecurityIssue {
                    severity: Severity::Warning,
                    server: name.clone(),
                    category: "Configuration".to_owned(),
                    issue: "Default server without explicit server_name".to_owned(),
                    risk: "May respond to requests for unintended hostnames".to_owned(),
                    fix: "Add explicit server_name directive or use server_name _;".to_owned(),
                },
            );
            assert(security_issues_view(issues@) =~= before + seq![
                unnamed_default_warning(name@),
            ]);
        } else {
            assert(security_issues_view(issues@) =~= before + Seq::<SecurityIssueView>::empty());
        }
        let ghost first = security_issues_view(issues@);
        if !server.has_ssl() {
            push_plaintext_issues(server, name.as_str(), &mut issues);
        } else {
            assert(first + Seq::<SecurityIssueView>::empty() =~= first);
        }
        let ghost second = security_issues_view(issues@);
        check_server_tokens(name.as_str(), &mut issues);
        proof {
            assert(security_issues_view(issues@) =~= before + security_issues_of(server@));
        }
        i += 1;
    }
    proof {
        assert(all.take(all.len() as int) =~= all);
    }
    let ghost found = security_issues_view(issues@);
    let mut kept: Vec<SecurityIssue> = Vec::new();
    proof {
        assert(found.take(0) =~= Seq::<SecurityIssueView>::empty());
        Seq::<SecurityIssueView>::empty().lemma_filter_len(at_least(least));
        assert(security_issues_view(kept@) =~= found.take(0).filter(at_least(least)));
    }
    let mut k: usize = 0;
    while k < issues.len()
        invariant
            k <= issues.len(),
            found == security_issues_view(issues@),
            security_issues_view(kept@) == found.take(k as int).filter(at_least(least)),
        decreases issues.len() - k,
    {
        let ghost seen = security_issues_view(kept@);
        proof {
            assert(found.take(k + 1) =~= found.take(k as int).push(issues@[k as int]@));
            found.take(k as int).lemma_filter_push(issues@[k as int]@, at_least(least));
        }
        if issues[k].severity.reaches(least) {
            kept.push(issues[k].clone());
            assert(security_issues_view(kept@) =~= seen.push(issues@[k as int]@));
        }
        k += 1;
    }
    proof {
        assert(found.take(found.len() as int) =~= found);
    }
    kept
}

/// Holds of the security issues of the given severity.
pub open spec fn security_with(severity: Severity) -> spec_fn(SecurityIssueView) -> bool {
    |i: SecurityIssueView| i.severity == severity
}

/// The security issues of the given severity, in the order in which they
/// stand.
pub fn security_of(issues: &[SecurityIssue], severity: Severity) -> (r: Vec<SecurityIssue>)
    ensures
        security_issues_view(r@) == security_issues_view(issues@).filter(security_with(severity)),
{
    let ghost found = security_issues_view(issues@);
    let mut kept: Vec<SecurityIssue> = Vec::new();
    let mut k: usize = 0;
    proof {
        assert(found.take(0) =~= Seq::<SecurityIssueView>::empty());
        Seq::<SecurityIssueView>::empty().lemma_filter_len(security_with(severity));
        assert(security_issues_view(kept@) =~= found.take(0).filter(security_with(severity)));
    }
    while k < issues.len()
        invariant
            k <= issues.len(),
            found == security_issues_view(issues@),
            security_issues_view(kept@) == found.take(k as int).filter(security_with(severity)),
        decreases issues.len() - k,
    {
        let ghost seen = security_issues_view(kept@);
        proof {
            assert(found.take(k + 1) =~= found.take(k as int).push(issues@[k as int]@));
            found.take(k as int).lemma_filter_push(issues@[k as int]@, security_with(severity));
        }
        if issues[k].severity == severity {
            kept.push(issues[k].clone());
            assert(security_issues_view(kept@) =~= seen.push(issues@[k as int]@));
        }
        k += 1;
    }
    proof {
        assert(found.take(found.len() as int) =~= found);
    }
    kept
}

} // verus!

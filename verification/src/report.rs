//! Reports on what a configuration declares: which servers, logs and
//! locations to show, and their rendering as comma-separated values.

use vstd::prelude::*;
use crate::ast::directive::strings_view;
use crate::text::{
    chars_of, contains_text, debug_of, debug_text, decimal, ends_with, join_strings, join_texts,
    lowercase_of, occurs_in, push_decimal, starts_with, str_eq, string_of, to_lowercase,
    views_between,
};
use crate::types::access_log::{AccessLog, AccessLogView, LogContext, LogContextView};
use crate::types::listen::{ListenDirective, ListenView};
use crate::types::location::{access_logs_view, Location, LocationModifier, LocationView};
use crate::types::server::{Server, ServerView};

verus! {

/// Whether a text matches a pattern with `*` at its ends.
///
/// `*` matches everything. `*x*` matches what holds `x`, `*x` what ends
/// with `x`, `x*` what begins with `x`; a pattern without `*` at either end
/// matches itself alone.
pub open spec fn wildcard_matches(pattern: Seq<char>, text: Seq<char>) -> bool {
    if pattern == "*"@ {
        true
    } else if pattern.len() >= 2 && pattern[0] == '*' && pattern.last() == '*' {
        occurs_in(pattern.subrange(1, pattern.len() - 1), text)
    } else if pattern.len() >= 1 && pattern[0] == '*' {
        pattern.skip(1).is_suffix_of(text)
    } else if pattern.len() >= 1 && pattern.last() == '*' {
        pattern.drop_last().is_prefix_of(text)
    } else {
        pattern == text
    }
}

/// Whether `text` matches `pattern`, in which `*` at either end stands for
/// anything.
pub fn wildcard_match(pattern: &str, text: &str) -> (r: bool)
    ensures
        r == wildcard_matches(pattern@, text@),
{
    if str_eq(pattern, "*") {
        return true;
    }
    let p = chars_of(pattern);
    let n = p.len();
    proof {
        reveal_strlit("*");
    }
    if n >= 2 && p[0] == '*' && p[n - 1] == '*' {
        let middle = string_of(&p, 1, n - 1);
        return contains_text(text, middle.as_str());
    }
    if n >= 1 && p[0] == '*' {
        let suffix = string_of(&p, 1, n);
        assert(p@.subrange(1, n as int) =~= p@.skip(1));
        return ends_with(text, suffix.as_str());
    }
    if n >= 1 && p[n - 1] == '*' {
        let prefix = string_of(&p, 0, n - 1);
        assert(p@.subrange(0, n - 1) =~= p@.drop_last());
        return starts_with(text, prefix.as_str());
    }
    str_eq(pattern, text)
}

/// Whether some listener listens on `port`.
pub open spec fn listens_on(listen: Seq<ListenView>, port: u16) -> bool {
    exists|i: int| 0 <= i < listen.len() && (#[trigger] listen[i]).port == port
}

/// Whether some name matches `pattern`.
pub open spec fn some_name_matches(names: Seq<Seq<char>>, pattern: Seq<char>) -> bool {
    exists|i: int| 0 <= i < names.len() && wildcard_matches(pattern, #[trigger] names[i])
}

/// Whether a server is one to show: it has SSL where only those are asked
/// for, listens on the port where one is given, and has a name that matches
/// the pattern where one is given.
pub open spec fn server_selected(
    s: ServerView,
    ssl_only: bool,
    port: Option<u16>,
    pattern: Option<Seq<char>>,
) -> bool {
    &&& ssl_only ==> s.has_ssl()
    &&& port matches Some(p) ==> listens_on(s.listen, p)
    &&& pattern matches Some(pat) ==> some_name_matches(s.server_names, pat)
}

/// Holds of the servers to show.
pub open spec fn selecting(ssl_only: bool, port: Option<u16>, pattern: Option<Seq<char>>)
    -> spec_fn(ServerView) -> bool {
    |s: ServerView| server_selected(s, ssl_only, port, pattern)
}

/// The views of a sequence of servers, element by element.
pub open spec fn servers_view(ss: Seq<Server>) -> Seq<ServerView> {
    Seq::new(ss.len(), |i: int| ss[i]@)
}

/// The characters of an optional text.
pub open spec fn opt_text(o: Option<&str>) -> Option<Seq<char>> {
    match o {
        Some(s) => Some(s@),
        None => None,
    }
}

fn has_port(server: &Server, port: u16) -> (r: bool)
    ensures
        r == listens_on(server@.listen, port),
{
    let mut i: usize = 0;
    while i < server.listen.len()
        invariant
            i <= server.listen.len(),
            forall|j: int| 0 <= j < i ==> (#[trigger] server@.listen[j]).port != port,
        decreases server.listen.len() - i,
    {
        if server.listen[i].port == port {
            assert(server@.listen[i as int].port == port);
            return true;
        }
        i += 1;
    }
    false
}

fn has_matching_name(server: &Server, pattern: &str) -> (r: bool)
    ensures
        r == some_name_matches(server@.server_names, pattern@),
{
    let mut i: usize = 0;
    while i < server.server_names.len()
        invariant
            i <= server.server_names.len(),
            forall|j: int|
                0 <= j < i ==> !wildcard_matches(pattern@, #[trigger] server@.server_names[j]),
        decreases server.server_names.len() - i,
    {
        if wildcard_match(pattern, server.server_names[i].as_str()) {
            assert(wildcard_matches(pattern@, server@.server_names[i as int]));
            return true;
        }
        i += 1;
    }
    false
}

/// The servers to show, in their order: those with SSL where `ssl_only`
/// asks for it, that listen on `port` where one is given, and that have a
/// name matching `pattern` where one is given.
pub fn select_servers(
    servers: &[Server],
    ssl_only: bool,
    port: Option<u16>,
    pattern: Option<&str>,
) -> (r: Vec<Server>)
    ensures
        servers_view(r@) == servers_view(servers@).filter(
            selecting(ssl_only, port, opt_text(pattern)),
        ),
{
    let ghost all = servers_view(servers@);
    let ghost keep = selecting(ssl_only, port, opt_text(pattern));
    let mut out: Vec<Server> = Vec::new();
    let mut i: usize = 0;
    proof {
        assert(all.take(0) =~= Seq::<ServerView>::empty());
        Seq::<ServerView>::empty().lemma_filter_len(keep);
        assert(servers_view(out@) =~= all.take(0).filter(keep));
    }
    while i < servers.len()
        invariant
            i <= servers.len(),
            all == servers_view(servers@),
            keep == selecting(ssl_only, port, opt_text(pattern)),
            servers_view(out@) == all.take(i as int).filter(keep),
        decreases servers.len() - i,
    {
        let ghost seen = servers_view(out@);
        let server = &servers[i];
        proof {
            assert(all.take(i + 1) =~= all.take(i as int).push(server@));
            all.take(i as int).lemma_filter_push(server@, keep);
        }
        let by_ssl = !ssl_only || server.has_ssl();
        let by_port = match port {
            Some(p) => has_port(server, p),
            None => true,
        };
        let by_name = match pattern {
            Some(pat) => has_matching_name(server, pat),
            None => true,
        };
        if by_ssl && by_port && by_name {
            out.push(server.clone());
            assert(servers_view(out@) =~= seen.push(server@));
        }
        i += 1;
    }
    proof {
        assert(all.take(all.len() as int) =~= all);
    }
    out
}

/// The text that a context debug-prints as.
pub open spec fn context_text(c: LogContextView) -> Seq<char> {
    match c {
        LogContextView::Main => "Main"@,
        LogContextView::Server(s) => "Server("@ + debug_of(s) + ")"@,
        LogContextView::Location(s) => "Location("@ + debug_of(s) + ")"@,
    }
}

/// The text that a context with a name debug-prints as, given the kind of
/// context and what the name debug-prints as: the name in brackets behind
/// the kind.
pub fn context_with(kind: &str, name: &str) -> (r: String)
    ensures
        r@ == kind@ + "("@ + name@ + ")"@,
{
    let mut out = String::from_str(kind);
    out.append("(");
    out.append(name);
    out.append(")");
    out
}

/// The text that a context debug-prints as.
pub fn context_debug(context: &LogContext) -> (r: String)
    ensures
        r@ == context_text(context@),
{
    match context {
        LogContext::Main => "Main".to_owned(),
        LogContext::Server(s) => {
            let r = context_with("Server", debug_text(s.as_str()).as_str());
            proof {
                reveal_strlit("Server");
                reveal_strlit("Server(");
                reveal_strlit("(");
                assert("Server"@ + "("@ =~= "Server("@);
            }
            r
        },
        LogContext::Location(s) => {
            let r = context_with("Location", debug_text(s.as_str()).as_str());
            proof {
                reveal_strlit("Location");
                reveal_strlit("Location(");
                reveal_strlit("(");
                assert("Location"@ + "("@ =~= "Location("@);
            }
            r
        },
    }
}

/// Whether a log is one to show for a filter on its context: the filter,
/// in lower case, stands in the debug text of the context, in lower case.
pub open spec fn log_selected(log: AccessLogView, filter: Seq<char>) -> bool {
    occurs_in(lowercase_of(filter), lowercase_of(context_text(log.context)))
}

/// Holds of the logs to show for a filter on their context.
pub open spec fn in_context(filter: Seq<char>) -> spec_fn(AccessLogView) -> bool {
    |log: AccessLogView| log_selected(log, filter)
}

/// Whether a context is one to show, where `needle` is the filter in lower
/// case and `lower` the debug text of the context in lower case.
pub fn context_matches(lower: &str, needle: &str) -> (r: bool)
    ensures
        r == occurs_in(needle@, lower@),
{
    contains_text(lower, needle)
}

/// The logs to show for a filter on their context, in their order.
pub fn select_logs(logs: &[AccessLog], filter: &str) -> (r: Vec<AccessLog>)
    ensures
        access_logs_view(r@) == access_logs_view(logs@).filter(in_context(filter@)),
{
    let ghost all = access_logs_view(logs@);
    let ghost keep = in_context(filter@);
    let needle = to_lowercase(filter);
    let mut out: Vec<AccessLog> = Vec::new();
    let mut i: usize = 0;
    proof {
        assert(all.take(0) =~= Seq::<AccessLogView>::empty());
        Seq::<AccessLogView>::empty().lemma_filter_len(keep);
        assert(access_logs_view(out@) =~= all.take(0).filter(keep));
    }
    while i < logs.len()
        invariant
            i <= logs.len(),
            all == access_logs_view(logs@),
            keep == in_context(filter@),
            needle@ == lowercase_of(filter@),
            access_logs_view(out@) == all.take(i as int).filter(keep),
        decreases logs.len() - i,
    {
        let ghost seen = access_logs_view(out@);
        let log = &logs[i];
        proof {
            assert(all.take(i + 1) =~= all.take(i as int).push(log@));
            all.take(i as int).lemma_filter_push(log@, keep);
        }
        let text = context_debug(&log.context);
        let lower = to_lowercase(text.as_str());
        if context_matches(lower.as_str(), needle.as_str()) {
            out.push(log.clone());
            assert(access_logs_view(out@) =~= seen.push(log@));
        }
        i += 1;
    }
    proof {
        assert(all.take(all.len() as int) =~= all);
    }
    out
}

/// The name a server goes by in a report: its first name, or `_`.
pub open spec fn report_name(s: ServerView) -> Seq<char> {
    if s.server_names.len() > 0 {
        s.server_names[0]
    } else {
        "_"@
    }
}

/// Whether a location is one to show: it passes requests on where only
/// those are asked for, and serves files where only those are asked for.
pub open spec fn location_selected(l: LocationView, proxy_only: bool, static_only: bool) -> bool {
    &&& proxy_only ==> l.proxy_pass is Some
    &&& static_only ==> (l.root is Some && l.proxy_pass is None)
}

/// The locations to show among `ls`, each with the name of its server.
pub open spec fn located(name: Seq<char>, ls: Seq<LocationView>, proxy_only: bool, static_only: bool)
    -> Seq<(Seq<char>, LocationView)>
    decreases ls.len(),
{
    if ls.len() == 0 {
        Seq::empty()
    } else {
        located(name, ls.drop_last(), proxy_only, static_only) + if location_selected(
            ls.last(),
            proxy_only,
            static_only,
        ) {
            seq![(name, ls.last())]
        } else {
            Seq::empty()
        }
    }
}

/// The locations to show of the servers whose name in the report matches
/// the pattern, where one is given; server after server.
pub open spec fn locations_shown(
    servers: Seq<ServerView>,
    proxy_only: bool,
    static_only: bool,
    pattern: Option<Seq<char>>,
) -> Seq<(Seq<char>, LocationView)>
    decreases servers.len(),
{
    if servers.len() == 0 {
        Seq::empty()
    } else {
        let s = servers.last();
        locations_shown(servers.drop_last(), proxy_only, static_only, pattern) + if (
        pattern matches Some(pat) ==> wildcard_matches(pat, report_name(s))) {
            located(report_name(s), s.locations, proxy_only, static_only)
        } else {
            Seq::empty()
        }
    }
}

/// The views of pairs of server name and location, element by element.
pub open spec fn pairs_view(ps: Seq<(String, Location)>) -> Seq<(Seq<char>, LocationView)> {
    Seq::new(ps.len(), |i: int| (ps[i].0@, ps[i].1@))
}

/// The locations to show, each with the name of its server: those of the
/// servers whose name matches `pattern` where one is given, those that pass
/// requests on where `proxy_only` asks for it, and those that serve files
/// where `static_only` asks for it.
pub fn select_locations(
    servers: &[Server],
    proxy_only: bool,
    static_only: bool,
    pattern: Option<&str>,
) -> (r: Vec<(String, Location)>)
    ensures
        pairs_view(r@) == locations_shown(
            servers_view(servers@),
            proxy_only,
            static_only,
            opt_text(pattern),
        ),
{
    let ghost all = servers_view(servers@);
    let ghost pat = opt_text(pattern);
    let mut out: Vec<(String, Location)> = Vec::new();
    let mut i: usize = 0;
    proof {
        assert(all.take(0) =~= Seq::<ServerView>::empty());
        assert(pairs_view(out@) =~= Seq::<(Seq<char>, LocationView)>::empty());
    }
    while i < servers.len()
        invariant
            i <= servers.len(),
            all == servers_view(servers@),
            pat == opt_text(pattern),
            pairs_view(out@) == locations_shown(all.take(i as int), proxy_only, static_only, pat),
        decreases servers.len() - i,
    {
        let server = &servers[i];
        let ghost before = pairs_view(out@);
        proof {
            assert(all.take(i + 1).drop_last() =~= all.take(i as int));
            assert(all.take(i + 1).last() == server@);
        }
        let name = match server.primary_name() {
            Some(name) => name.to_owned(),
            None => "_".to_owned(),
        };
        let shown = match pattern {
            Some(p) => wildcard_match(p, name.as_str()),
            None => true,
        };
        if shown {
            let ghost ls = server@.locations;
            let mut k: usize = 0;
            proof {
                assert(ls.take(0) =~= Seq::<LocationView>::empty());
                assert(before + located(name@, ls.take(0), proxy_only, static_only) =~= before);
            }
            while k < server.locations.len()
                invariant
                    k <= server.locations.len(),
                    ls == server@.locations,
                    pairs_view(out@) == before + located(
                        name@,
                        ls.take(k as int),
                        proxy_only,
                        static_only,
                    ),
                decreases server.locations.len() - k,
            {
                let ghost seen = pairs_view(out@);
                let location = &server.locations[k];
                proof {
                    assert(ls.take(k + 1).drop_last() =~= ls.take(k as int));
                    assert(ls.take(k + 1).last() == location@);
                }
                if (!proxy_only || location.is_proxy()) && (!static_only || location.is_static()) {
                    out.push((name.clone(), location.clone()));
                    proof {
                        assert(pairs_view(out@) =~= seen.push((name@, location@)));
                        assert(before + (located(name@, ls.take(k as int), proxy_only, static_only)
                            + seq![(name@, location@)]) =~= seen.push((name@, location@)));
                    }
                } else {
                    proof {
                        assert(before + (located(name@, ls.take(k as int), proxy_only, static_only)
                            + Seq::<(Seq<char>, LocationView)>::empty()) =~= seen);
                    }
                }
                k += 1;
            }
            proof {
                assert(ls.take(ls.len() as int) =~= ls);
            }
        } else {
            proof {
                assert(before + Seq::<(Seq<char>, LocationView)>::empty() =~= before);
            }
        }
        i += 1;
    }
    proof {
        assert(all.take(all.len() as int) =~= all);
    }
    out
}

/// `Yes` or `No`.
pub open spec fn yes_no(b: bool) -> Seq<char> {
    if b {
        "Yes"@
    } else {
        "No"@
    }
}

/// The row of one listener of a server: the server's name, the port,
/// whether SSL is on, the number of locations of the server, and whether
/// the listener marks the default server.
pub open spec fn server_row(name: Seq<char>, l: ListenView, locations: nat) -> Seq<char> {
    name + ","@ + decimal(l.port as nat) + ","@ + yes_no(l.ssl) + ","@ + decimal(locations) + ","@
        + yes_no(l.default_server) + "\n"@
}

/// The rows of the first `upto` listeners of one server.
pub open spec fn server_rows(s: ServerView, upto: int) -> Seq<char>
    decreases upto,
{
    if upto <= 0 {
        Seq::empty()
    } else {
        server_rows(s, upto - 1) + server_row(report_name(s), s.listen[upto - 1], s.locations.len())
    }
}

fn push_server_row(out: &mut String, name: &str, listen: &ListenDirective, locations: usize)
    ensures
        final(out)@ == old(out)@ + server_row(name@, listen@, locations as nat),
{
    out.append(name);
    out.append(",");
    push_decimal(out, listen.port as usize);
    out.append(",");
    out.append(if listen.ssl {
        "Yes"
    } else {
        "No"
    });
    out.append(",");
    push_decimal(out, locations);
    out.append(",");
    out.append(if listen.default_server {
        "Yes"
    } else {
        "No"
    });
    out.append("\n");
    assert(out@ =~= old(out)@ + server_row(name@, listen@, locations as nat));
}

/// The rows of the servers, server after server.
pub open spec fn servers_rows(servers: Seq<ServerView>) -> Seq<char>
    decreases servers.len(),
{
    if servers.len() == 0 {
        Seq::empty()
    } else {
        servers_rows(servers.drop_last()) + server_rows(
            servers.last(),
            servers.last().listen.len() as int,
        )
    }
}

/// The servers as comma-separated values: a header, then a line for each
/// listener of each server with the server's name, the port, whether SSL is
/// on, the number of locations, and whether it is the default server.
pub fn format_servers_csv(servers: &[Server]) -> (r: String)
    ensures
        r@ == "Server Name,Port,SSL,Locations,Default\n"@ + servers_rows(servers_view(servers@)),
{
    let ghost all = servers_view(servers@);
    let ghost header = "Server Name,Port,SSL,Locations,Default\n"@;
    let mut out = String::from_str("Server Name,Port,SSL,Locations,Default\n");
    let mut i: usize = 0;
    proof {
        assert(all.take(0) =~= Seq::<ServerView>::empty());
        assert(out@ =~= header + servers_rows(all.take(0)));
    }
    while i < servers.len()
        invariant
            i <= servers.len(),
            all == servers_view(servers@),
            header == "Server Name,Port,SSL,Locations,Default\n"@,
            out@ == header + servers_rows(all.take(i as int)),
        decreases servers.len() - i,
    {
        let server = &servers[i];
        let ghost before = out@;
        proof {
            assert(all.take(i + 1).drop_last() =~= all.take(i as int));
            assert(all.take(i + 1).last() == server@);
        }
        let name: &str = match server.primary_name() {
            Some(name) => name,
            None => "_",
        };
        let mut k: usize = 0;
        proof {
            assert(before + server_rows(server@, 0) =~= before);
        }
        while k < server.listen.len()
            invariant
                k <= server.listen.len(),
                name@ == report_name(server@),
                out@ == before + server_rows(server@, k as int),
            decreases server.listen.len() - k,
        {
            let ghost seen = out@;
            push_server_row(&mut out, name, &server.listen[k], server.locations.len());
            proof {
                assert(out@ =~= before + (server_rows(server@, k as int) + server_row(
                    report_name(server@),
                    server@.listen[k as int],
                    server@.locations.len(),
                )));
            }
            k += 1;
        }
        proof {
            assert(out@ =~= header + (servers_rows(all.take(i as int)) + server_rows(
                server@,
                server@.listen.len() as int,
            )));
        }
        i += 1;
    }
    proof {
        assert(all.take(all.len() as int) =~= all);
    }
    out
}

/// The row of one log: its path, its format, `combined` where none is
/// named, and its context.
pub open spec fn log_row(log: AccessLogView) -> Seq<char> {
    log.path + ","@ + (match log.format_name {
        Some(f) => f,
        None => "combined"@,
    }) + ","@ + context_text(log.context) + "\n"@
}

/// The rows of the logs, log after log.
pub open spec fn logs_rows(logs: Seq<AccessLogView>) -> Seq<char>
    decreases logs.len(),
{
    if logs.len() == 0 {
        Seq::empty()
    } else {
        logs_rows(logs.drop_last()) + log_row(logs.last())
    }
}

/// The logs as comma-separated values: a header, then a line for each log.
pub fn format_logs_csv(logs: &[AccessLog]) -> (r: String)
    ensures
        r@ == "Log File,Format,Context\n"@ + logs_rows(access_logs_view(logs@)),
{
    let ghost all = access_logs_view(logs@);
    let ghost header = "Log File,Format,Context\n"@;
    let mut out = String::from_str("Log File,Format,Context\n");
    let mut i: usize = 0;
    proof {
        assert(all.take(0) =~= Seq::<AccessLogView>::empty());
        assert(out@ =~= header + logs_rows(all.take(0)));
    }
    while i < logs.len()
        invariant
            i <= logs.len(),
            all == access_logs_view(logs@),
            header == "Log File,Format,Context\n"@,
            out@ == header + logs_rows(all.take(i as int)),
        decreases logs.len() - i,
    {
        let log = &logs[i];
        let ghost before = out@;
        proof {
            assert(all.take(i + 1).drop_last() =~= all.take(i as int));
            assert(all.take(i + 1).last() == log@);
        }
        out.append(log.path.as_str());
        out.append(",");
        match &log.format_name {
            Some(f) => {
                out.append(f.as_str());
            },
            None => {
                out.append("combined");
            },
        }
        out.append(",");
        out.append(context_debug(&log.context).as_str());
        out.append("\n");
        proof {
            assert(out@ =~= before + log_row(log@));
            assert(out@ =~= header + (logs_rows(all.take(i as int)) + log_row(log@)));
        }
        i += 1;
    }
    proof {
        assert(all.take(all.len() as int) =~= all);
    }
    out
}

/// The name a modifier debug-prints as.
pub open spec fn modifier_text(m: LocationModifier) -> Seq<char> {
    match m {
        LocationModifier::Prefix => "None"@,
        LocationModifier::Exact => "Exact"@,
        LocationModifier::PrefixPriority => "PrefixPriority"@,
        LocationModifier::Regex => "Regex"@,
        LocationModifier::RegexCaseInsensitive => "RegexCaseInsensitive"@,
    }
}

/// The kind of a location in a report.
pub open spec fn kind_text(l: LocationView) -> Seq<char> {
    if l.proxy_pass is Some {
        "Proxy"@
    } else if l.root is Some {
        "Static"@
    } else {
        "Other"@
    }
}

/// What a location points to in a report: the upstream of a proxy, the root
/// of a static location, `-` for any other.
pub open spec fn target_text(l: LocationView) -> Seq<char> {
    if l.proxy_pass is Some {
        l.proxy_pass->0
    } else if l.root is Some {
        l.root->0
    } else {
        "-"@
    }
}

/// The row of one location: its server, its path, its modifier, its kind
/// and what it points to.
pub open spec fn location_row(server: Seq<char>, l: LocationView) -> Seq<char> {
    server + ","@ + l.path + ","@ + modifier_text(l.modifier) + ","@ + kind_text(l) + ","@
        + target_text(l) + "\n"@
}

/// The rows of the locations, location after location.
pub open spec fn locations_rows(ls: Seq<(Seq<char>, LocationView)>) -> Seq<char>
    decreases ls.len(),
{
    if ls.len() == 0 {
        Seq::empty()
    } else {
        locations_rows(ls.drop_last()) + location_row(ls.last().0, ls.last().1)
    }
}

fn modifier_name(m: LocationModifier) -> (r: &'static str)
    ensures
        r@ == modifier_text(m),
{
    match m {
        LocationModifier::Prefix => "None",
        LocationModifier::Exact => "Exact",
        LocationModifier::PrefixPriority => "PrefixPriority",
        LocationModifier::Regex => "Regex",
        LocationModifier::RegexCaseInsensitive => "RegexCaseInsensitive",
    }
}

/// The locations as comma-separated values: a header, then a line for each
/// location.
pub fn format_locations_csv(locations: &[(String, Location)]) -> (r: String)
    ensures
        r@ == "Server,Path,Modifier,Type,Target\n"@ + locations_rows(pairs_view(locations@)),
{
    let ghost all = pairs_view(locations@);
    let ghost header = "Server,Path,Modifier,Type,Target\n"@;
    let mut out = String::from_str("Server,Path,Modifier,Type,Target\n");
    let mut i: usize = 0;
    proof {
        assert(all.take(0) =~= Seq::<(Seq<char>, LocationView)>::empty());
        assert(out@ =~= header + locations_rows(all.take(0)));
    }
    while i < locations.len()
        invariant
            i <= locations.len(),
            all == pairs_view(locations@),
            header == "Server,Path,Modifier,Type,Target\n"@,
            out@ == header + locations_rows(all.take(i as int)),
        decreases locations.len() - i,
    {
        let server = &locations[i].0;
        let location = &locations[i].1;
        let ghost before = out@;
        proof {
            assert(all.take(i + 1).drop_last() =~= all.take(i as int));
            assert(all.take(i + 1).last() == (server@, location@));
        }
        out.append(server.as_str());
        out.append(",");
        out.append(location.path.as_str());
        out.append(",");
        out.append(modifier_name(location.modifier));
        out.append(",");
        match (&location.proxy_pass, &location.root) {
            (Some(upstream), _) => {
                out.append("Proxy");
                out.append(",");
                out.append(upstream.as_str());
            },
            (None, Some(root)) => {
                out.append("Static");
                out.append(",");
                out.append(root.as_str());
            },
            (None, None) => {
                out.append("Other");
                out.append(",");
                out.append("-");
            },
        }
        out.append("\n");
        proof {
            assert(out@ =~= before + location_row(server@, location@));
            assert(out@ =~= header + (locations_rows(all.take(i as int)) + location_row(
                server@,
                location@,
            )));
        }
        i += 1;
    }
    proof {
        assert(all.take(all.len() as int) =~= all);
    }
    out
}

/// The marks of a listener in a listing: ` (SSL, HTTP/2, default)` with
/// those that apply, nothing where none does.
pub open spec fn flags_text(l: ListenView) -> Seq<char> {
    let marks = (if l.ssl {
        seq!["SSL"@]
    } else {
        Seq::empty()
    }) + (if l.http2 {
        seq!["HTTP/2"@]
    } else {
        Seq::empty()
    }) + (if l.default_server {
        seq!["default"@]
    } else {
        Seq::empty()
    });
    if marks.len() == 0 {
        Seq::empty()
    } else {
        " ("@ + join_texts(marks, ", "@) + ")"@
    }
}

/// A listener in a listing: `address:port`, then its marks.
pub fn listen_line(listen: &ListenDirective) -> (r: String)
    ensures
        r@ == listen@.address + ":"@ + decimal(listen.port as nat) + flags_text(listen@),
{
    let mut marks: Vec<String> = Vec::new();
    if listen.ssl {
        marks.push("SSL".to_owned());
    }
    if listen.http2 {
        marks.push("HTTP/2".to_owned());
    }
    if listen.default_server {
        marks.push("default".to_owned());
    }
    let mut out = String::new();
    out.append(listen.address.as_str());
    out.append(":");
    push_decimal(&mut out, listen.port as usize);
    let ghost head = out@;
    if marks.len() > 0 {
        let joined = join_strings(marks.as_slice(), 0, marks.len(), ", ");
        proof {
            let l = listen@;
            let spec_marks = (if l.ssl {
                seq!["SSL"@]
            } else {
                Seq::empty()
            }) + (if l.http2 {
                seq!["HTTP/2"@]
            } else {
                Seq::empty()
            }) + (if l.default_server {
                seq!["default"@]
            } else {
                Seq::empty()
            });
            assert(views_between(marks@, 0, marks@.len() as int) =~= spec_marks);
        }
        out.append(" (");
        out.append(joined.as_str());
        out.append(")");
        assert(out@ =~= head + flags_text(listen@));
    } else {
        assert(out@ =~= head + flags_text(listen@));
    }
    out
}

/// What an SSL listener offers: its port, then `HTTP/2` and `HTTP/3` where
/// they are on.
pub open spec fn features_text(l: ListenView) -> Seq<char> {
    "Port "@ + decimal(l.port as nat) + (if l.http2 {
        ", HTTP/2"@
    } else {
        Seq::empty()
    }) + (if l.http3 {
        ", HTTP/3"@
    } else {
        Seq::empty()
    })
}

/// What an SSL listener offers.
pub fn ssl_features(listen: &ListenDirective) -> (r: String)
    ensures
        r@ == features_text(listen@),
{
    let mut out = String::from_str("Port ");
    push_decimal(&mut out, listen.port as usize);
    if listen.http2 {
        out.append(", HTTP/2");
    }
    if listen.http3 {
        out.append(", HTTP/3");
    }
    assert(out@ =~= features_text(listen@));
    out
}

/// Whether a path is one that a quick look takes for guarded: it holds
/// `/admin` or `/login`.
pub open spec fn looks_guarded(path: Seq<char>) -> bool {
    occurs_in("/admin"@, path) || occurs_in("/login"@, path)
}

/// What a quick look finds at the locations of a server without SSL.
pub open spec fn guarded_findings(name: Seq<char>, ls: Seq<LocationView>) -> Seq<Seq<char>>
    decreases ls.len(),
{
    if ls.len() == 0 {
        Seq::empty()
    } else {
        guarded_findings(name, ls.drop_last()) + if looks_guarded(ls.last().path) {
            seq!["Sensitive path '"@ + ls.last().path + "' on HTTP server: "@ + name]
        } else {
            Seq::empty()
        }
    }
}

/// The default servers without a name among the servers: one finding each.
pub open spec fn unnamed_findings(servers: Seq<ServerView>) -> Seq<Seq<char>>
    decreases servers.len(),
{
    if servers.len() == 0 {
        Seq::empty()
    } else {
        unnamed_findings(servers.drop_last()) + if servers.last().server_names.len() == 0
            && servers.last().is_default_server() {
            seq!["Default server without server_name"@]
        } else {
            Seq::empty()
        }
    }
}

/// The guarded paths on servers without SSL, server after server.
pub open spec fn plain_findings(servers: Seq<ServerView>) -> Seq<Seq<char>>
    decreases servers.len(),
{
    if servers.len() == 0 {
        Seq::empty()
    } else {
        plain_findings(servers.drop_last()) + if servers.last().has_ssl() {
            Seq::empty()
        } else {
            guarded_findings(report_name(servers.last()), servers.last().locations)
        }
    }
}

/// What a quick look at the security of the servers finds: first the
/// default servers without a name, then the guarded paths on servers
/// without SSL.
pub fn quick_findings(servers: &[Server]) -> (r: Vec<String>)
    ensures
        strings_view(r@) == unnamed_findings(servers_view(servers@)) + plain_findings(
            servers_view(servers@),
        ),
{
    let ghost all = servers_view(servers@);
    let mut out: Vec<String> = Vec::new();
    let mut i: usize = 0;
    proof {
        assert(all.take(0) =~= Seq::<ServerView>::empty());
        assert(strings_view(out@) =~= Seq::<Seq<char>>::empty());
    }
    while i < servers.len()
        invariant
            i <= servers.len(),
            all == servers_view(servers@),
            strings_view(out@) == unnamed_findings(all.take(i as int)),
        decreases servers.len() - i,
    {
        let ghost seen = strings_view(out@);
        proof {
            assert(all.take(i + 1).drop_last() =~= all.take(i as int));
            assert(all.take(i + 1).last() == servers@[i as int]@);
        }
        if servers[i].server_names.len() == 0 && servers[i].is_default_server() {
            out.push("Default server without server_name".to_owned());
            assert(strings_view(out@) =~= seen + seq!["Default server without server_name"@]);
        } else {
            assert(seen + Seq::<Seq<char>>::empty() =~= seen);
        }
        i += 1;
    }
    proof {
        assert(all.take(all.len() as int) =~= all);
    }
    let ghost first = strings_view(out@);
    let mut i: usize = 0;
    proof {
        assert(first + plain_findings(all.take(0)) =~= first);
    }
    while i < servers.len()
        invariant
            i <= servers.len(),
            all == servers_view(servers@),
            strings_view(out@) == first + plain_findings(all.take(i as int)),
        decreases servers.len() - i,
    {
        let server = &servers[i];
        let ghost before = strings_view(out@);
        proof {
            assert(all.take(i + 1).drop_last() =~= all.take(i as int));
            assert(all.take(i + 1).last() == server@);
        }
        if !server.has_ssl() {
            let name: &str = match server.primary_name() {
                Some(name) => name,
                None => "_",
            };
            let ghost ls = server@.locations;
            let mut k: usize = 0;
            proof {
                assert(ls.take(0) =~= Seq::<LocationView>::empty());
                assert(before + guarded_findings(name@, ls.take(0)) =~= before);
            }
            while k < server.locations.len()
                invariant
                    k <= server.locations.len(),
                    ls == server@.locations,
                    strings_view(out@) == before + guarded_findings(name@, ls.take(k as int)),
                decreases server.locations.len() - k,
            {
                let ghost seen = strings_view(out@);
                let location = &server.locations[k];
                proof {
                    assert(ls.take(k + 1).drop_last() =~= ls.take(k as int));
                    assert(ls.take(k + 1).last() == location@);
                }
                let path = location.path.as_str();
                if contains_text(path, "/admin") || contains_text(path, "/login") {
                    let mut text = String::from_str("Sensitive path '");
                    text.append(path);
                    text.append("' on HTTP server: ");
                    text.append(name);
                    let ghost finding = text@;
                    out.push(text);
                    proof {
                        assert(strings_view(out@) =~= seen.push(finding));
                        assert(before + (guarded_findings(name@, ls.take(k as int)) + seq![
                            finding,
                        ]) =~= seen.push(finding));
                    }
                } else {
                    proof {
                        assert(before + (guarded_findings(name@, ls.take(k as int)) + Seq::<
                            Seq<char>,
                        >::empty()) =~= seen);
                    }
                }
                k += 1;
            }
            proof {
                assert(ls.take(ls.len() as int) =~= ls);
                assert(strings_view(out@) =~= first + (plain_findings(all.take(i as int))
                    + guarded_findings(name@, ls)));
            }
        } else {
            proof {
                assert(first + (plain_findings(all.take(i as int)) + Seq::<Seq<char>>::empty())
                    =~= before);
            }
        }
        i += 1;
    }
    proof {
        assert(all.take(all.len() as int) =~= all);
    }
    out
}

/// One line of the table of servers.
#[derive(Debug)]
pub struct ServerLine {
    /// The server, by its first name.
    pub name: String,
    /// The port of the listener, `-` where the server has none.
    pub port: String,
    /// `Yes` where SSL is on.
    pub ssl: String,
    /// The number of locations of the server.
    pub locations: usize,
    /// `Yes` where the listener marks the default server.
    pub default_server: String,
}

/// The mathematical value of a [`ServerLine`].
pub struct ServerLineView {
    pub name: Seq<char>,
    pub port: Seq<char>,
    pub ssl: Seq<char>,
    pub locations: nat,
    pub default_server: Seq<char>,
}

impl View for ServerLine {
    type V = ServerLineView;

    open spec fn view(&self) -> ServerLineView {
        ServerLineView {
            name: self.name@,
            port: self.port@,
            ssl: self.ssl@,
            locations: self.locations as nat,
            default_server: self.default_server@,
        }
    }
}

/// The views of a sequence of lines, element by element.
pub open spec fn server_lines_view(ls: Seq<ServerLine>) -> Seq<ServerLineView> {
    Seq::new(ls.len(), |i: int| ls[i]@)
}

/// The line of one listener of a server.
pub open spec fn listener_line(name: Seq<char>, l: ListenView, locations: nat) -> ServerLineView {
    ServerLineView {
        name,
        port: decimal(l.port as nat),
        ssl: yes_no(l.ssl),
        locations,
        default_server: yes_no(l.default_server),
    }
}

/// The line of a server that listens nowhere.
pub open spec fn silent_line(name: Seq<char>, locations: nat) -> ServerLineView {
    ServerLineView { name, port: "-"@, ssl: "No"@, locations, default_server: "No"@ }
}

/// The lines of the first `upto` listeners of one server.
pub open spec fn listener_lines(s: ServerView, upto: int) -> Seq<ServerLineView>
    decreases upto,
{
    if upto <= 0 {
        Seq::empty()
    } else {
        listener_lines(s, upto - 1).push(
            listener_line(report_name(s), s.listen[upto - 1], s.locations.len()),
        )
    }
}

/// The lines of one server: one for each listener, or a single line where
/// it has none.
pub open spec fn server_lines(s: ServerView) -> Seq<ServerLineView> {
    if s.listen.len() == 0 {
        seq![silent_line(report_name(s), s.locations.len())]
    } else {
        listener_lines(s, s.listen.len() as int)
    }
}

/// The lines of the servers, server after server.
pub open spec fn servers_lines(servers: Seq<ServerView>) -> Seq<ServerLineView>
    decreases servers.len(),
{
    if servers.len() == 0 {
        Seq::empty()
    } else {
        servers_lines(servers.drop_last()) + server_lines(servers.last())
    }
}

fn yes_or_no(b: bool) -> (r: String)
    ensures
        r@ == yes_no(b),
{
    if b {
        "Yes".to_owned()
    } else {
        "No".to_owned()
    }
}

/// The lines of the table of servers: for each server a line for each of
/// its listeners, with the server's name, the port, whether SSL is on, the
/// number of locations and whether it is the default server; for a server
/// without a listener one line with `-` for the port.
pub fn server_table(servers: &[Server]) -> (r: Vec<ServerLine>)
    ensures
        server_lines_view(r@) == servers_lines(servers_view(servers@)),
{
    let ghost all = servers_view(servers@);
    let mut lines: Vec<ServerLine> = Vec::new();
    let mut i: usize = 0;
    proof {
        assert(all.take(0) =~= Seq::<ServerView>::empty());
        assert(server_lines_view(lines@) =~= servers_lines(all.take(0)));
    }
    while i < servers.len()
        invariant
            i <= servers.len(),
            all == servers_view(servers@),
            server_lines_view(lines@) == servers_lines(all.take(i as int)),
        decreases servers.len() - i,
    {
        let server = &servers[i];
        let ghost before = server_lines_view(lines@);
        proof {
            assert(all.take(i + 1).drop_last() =~= all.take(i as int));
            assert(all.take(i + 1).last() == server@);
        }
        let name: &str = match server.primary_name() {
            Some(name) => name,
            None => "_",
        };
        if server.listen.len() == 0 {
            lines.push(
                ServerLine {
                    name: name.to_owned(),
                    port: "-".to_owned(),
                    ssl: "No".to_owned(),
                    locations: server.locations.len(),
                    default_server: "No".to_owned(),
                },
            );
            assert(server_lines_view(lines@) =~= before + server_lines(server@));
        } else {
            let mut k: usize = 0;
            proof {
                assert(before + listener_lines(server@, 0) =~= before);
            }
            while k < server.listen.len()
                invariant
                    k <= server.listen.len(),
                    name@ == report_name(server@),
                    server_lines_view(lines@) == before + listener_lines(server@, k as int),
                decreases server.listen.len() - k,
            {
                let listen = &server.listen[k];
                let ghost seen = server_lines_view(lines@);
                let mut port = String::new();
                push_decimal(&mut port, listen.port as usize);
                lines.push(
                    ServerLine {
                        name: name.to_owned(),
                        port,
                        ssl: yes_or_no(listen.ssl),
                        locations: server.locations.len(),
                        default_server: yes_or_no(listen.default_server),
                    },
                );
                proof {
                    assert(server_lines_view(lines@) =~= seen.push(
                        listener_line(
                            report_name(server@),
                            server@.listen[k as int],
                            server@.locations.len(),
                        ),
                    ));
                    assert(server_lines_view(lines@) =~= before + listener_lines(
                        server@,
                        k + 1,
                    ));
                }
                k += 1;
            }
        }
        i += 1;
    }
    proof {
        assert(all.take(all.len() as int) =~= all);
    }
    lines
}

/// One line of the table of locations.
#[derive(Debug)]
pub struct LocationLine {
    /// The server of the location.
    pub server: String,
    /// The path of the location.
    pub path: String,
    /// How the path is matched.
    pub modifier: String,
    /// `Proxy`, `Static` or `Other`.
    pub kind: String,
    /// What the location points to, `-` where it points to nothing.
    pub target: String,
}

/// The mathematical value of a [`LocationLine`].
pub struct LocationLineView {
    pub server: Seq<char>,
    pub path: Seq<char>,
    pub modifier: Seq<char>,
    pub kind: Seq<char>,
    pub target: Seq<char>,
}

impl View for LocationLine {
    type V = LocationLineView;

    open spec fn view(&self) -> LocationLineView {
        LocationLineView {
            server: self.server@,
            path: self.path@,
            modifier: self.modifier@,
            kind: self.kind@,
            target: self.target@,
        }
    }
}

/// The line of one location: its server, its path, its modifier, its kind
/// and what it points to.
pub fn location_line(server: &str, location: &Location) -> (r: LocationLine)
    ensures
        r@ == (LocationLineView {
            server: server@,
            path: location@.path,
            modifier: modifier_text(location@.modifier),
            kind: kind_text(location@),
            target: target_text(location@),
        }),
{
    let (kind, target) = match (&location.proxy_pass, &location.root) {
        (Some(upstream), _) => ("Proxy".to_owned(), upstream.clone()),
        (None, Some(root)) => ("Static".to_owned(), root.clone()),
        (None, None) => ("Other".to_owned(), "-".to_owned()),
    };
    LocationLine {
        server: server.to_owned(),
        path: location.path.clone(),
        modifier: modifier_name(location.modifier).to_owned(),
        kind,
        target,
    }
}

} // verus!

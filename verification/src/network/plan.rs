//! What the checks of a configuration are run against, and how their
//! outcomes are reported. The checks themselves are run by the caller.

use vstd::prelude::*;
use crate::error::opt_view;
use crate::network::types::{CheckSeverity, DnsCheckResult, HealthStatus, PortCheckResult};
use crate::text::{
    chars_of, clone_option, decimal, find_char, first_where, is_char, push_decimal, str_eq,
};
use crate::types::listen::ListenView;
use crate::types::server::{Server, ServerView};

verus! {

/// The result of one check, whatever kind of check it was.
#[derive(Debug)]
pub struct NetworkCheckResult {
    /// The kind of check: `port`, `dns`, ...
    pub check_type: String,
    /// What was checked.
    pub target: String,
    /// The state found.
    pub status: HealthStatus,
    /// What the check says.
    pub message: String,
    /// How grave the finding is.
    pub severity: CheckSeverity,
    /// More about the finding, if there is more.
    pub details: Option<String>,
}

/// The mathematical value of a [`NetworkCheckResult`].
pub struct NetworkCheckView {
    pub check_type: Seq<char>,
    pub target: Seq<char>,
    pub status: HealthStatus,
    pub message: Seq<char>,
    pub severity: CheckSeverity,
    pub details: Option<Seq<char>>,
}

impl View for NetworkCheckResult {
    type V = NetworkCheckView;

    open spec fn view(&self) -> NetworkCheckView {
        NetworkCheckView {
            check_type: self.check_type@,
            target: self.target@,
            status: self.status,
            message: self.message@,
            severity: self.severity,
            details: opt_view(self.details),
        }
    }
}

impl Clone for NetworkCheckResult {
    fn clone(&self) -> (r: NetworkCheckResult)
        ensures
            r@ == self@,
    {
        NetworkCheckResult {
            check_type: self.check_type.clone(),
            target: self.target.clone(),
            status: self.status,
            message: self.message.clone(),
            severity: self.severity,
            details: clone_option(&self.details),
        }
    }
}

/// The text `address:port`.
pub open spec fn target_of(address: Seq<char>, port: u16) -> Seq<char> {
    address + ":"@ + decimal(port as nat)
}

/// The text `address:port` by which a port check names its target.
pub fn target_text(address: &str, port: u16) -> (r: String)
    ensures
        r@ == target_of(address@, port),
{
    let mut out = String::new();
    out.append(address);
    out.append(":");
    push_decimal(&mut out, port as usize);
    assert(out@ =~= target_of(address@, port));
    out
}

/// The host that a check of a port connects to: this machine where the
/// address is `*`, the address itself otherwise.
pub open spec fn probe_host(address: Seq<char>) -> Seq<char> {
    if address == "*"@ {
        "127.0.0.1"@
    } else {
        address
    }
}

/// The text `host:port` that a check of `port` at `address` connects to.
pub fn probe_target(address: &str, port: u16) -> (r: String)
    ensures
        r@ == target_of(probe_host(address@), port),
{
    if str_eq(address, "*") {
        target_text("127.0.0.1", port)
    } else {
        target_text(address, port)
    }
}

/// Address and port of each listener, in order.
pub open spec fn listeners(ls: Seq<ListenView>) -> Seq<(Seq<char>, u16)> {
    Seq::new(ls.len(), |i: int| (ls[i].address, ls[i].port))
}

/// What the port checks are run against: address and port of each listener
/// of each server, server after server.
pub open spec fn ports_of(servers: Seq<ServerView>) -> Seq<(Seq<char>, u16)>
    decreases servers.len(),
{
    if servers.len() == 0 {
        Seq::empty()
    } else {
        ports_of(servers.drop_last()) + listeners(servers.last().listen)
    }
}

/// Whether a server name is one to resolve: not the catch-all name `_`, not
/// `localhost`, and without a wildcard.
pub open spec fn resolvable(name: Seq<char>) -> bool {
    name != "_"@ && name != "localhost"@ && first_where(name, 0, is_char('*')) >= name.len()
}

/// Holds of the names to resolve.
pub open spec fn is_resolvable() -> spec_fn(Seq<char>) -> bool {
    |name: Seq<char>| resolvable(name)
}

/// What the DNS checks are run against: the names to resolve of each
/// server, server after server.
pub open spec fn hosts_of(servers: Seq<ServerView>) -> Seq<Seq<char>>
    decreases servers.len(),
{
    if servers.len() == 0 {
        Seq::empty()
    } else {
        hosts_of(servers.drop_last()) + servers.last().server_names.filter(is_resolvable())
    }
}

/// The views of a sequence of servers, element by element.
pub open spec fn servers_view(ss: Seq<Server>) -> Seq<ServerView> {
    Seq::new(ss.len(), |i: int| ss[i]@)
}

/// The views of pairs of address and port, element by element.
pub open spec fn pairs_view(ps: Seq<(String, u16)>) -> Seq<(Seq<char>, u16)> {
    Seq::new(ps.len(), |i: int| (ps[i].0@, ps[i].1))
}

/// The views of a sequence of strings, element by element.
pub open spec fn names_view(ss: Seq<String>) -> Seq<Seq<char>> {
    Seq::new(ss.len(), |i: int| ss[i]@)
}

/// Address and port of every listener of the servers: what the port checks
/// are run against.
pub fn port_targets(servers: &[Server]) -> (r: Vec<(String, u16)>)
    ensures
        pairs_view(r@) == ports_of(servers_view(servers@)),
{
    let ghost all = servers_view(servers@);
    let mut out: Vec<(String, u16)> = Vec::new();
    let mut i: usize = 0;
    proof {
        assert(all.take(0) =~= Seq::<ServerView>::empty());
        assert(pairs_view(out@) =~= Seq::<(Seq<char>, u16)>::empty());
    }
    while i < servers.len()
        invariant
            i <= servers.len(),
            all == servers_view(servers@),
            pairs_view(out@) == ports_of(all.take(i as int)),
        decreases servers.len() - i,
    {
        let server = &servers[i];
        let ghost before = pairs_view(out@);
        let ghost ls = server@.listen;
        let mut k: usize = 0;
        proof {
            assert(all.take(i + 1).drop_last() =~= all.take(i as int));
            assert(all.take(i + 1).last() == server@);
            assert(before + listeners(ls).take(0) =~= before);
        }
        while k < server.listen.len()
            invariant
                k <= server.listen.len(),
                ls == server@.listen,
                pairs_view(out@) == before + listeners(ls).take(k as int),
            decreases server.listen.len() - k,
        {
            let ghost seen = pairs_view(out@);
            out.push((server.listen[k].address.clone(), server.listen[k].port));
            proof {
                assert(pairs_view(out@) =~= seen.push((ls[k as int].address, ls[k as int].port)));
                assert(before + listeners(ls).take(k + 1) =~= seen.push(
                    (ls[k as int].address, ls[k as int].port),
                ));
            }
            k += 1;
        }
        proof {
            assert(listeners(ls).take(ls.len() as int) =~= listeners(ls));
        }
        i += 1;
    }
    proof {
        assert(all.take(servers@.len() as int) =~= all);
    }
    out
}

/// Whether a server name is one to resolve.
pub fn is_resolvable_name(name: &str) -> (r: bool)
    ensures
        r == resolvable(name@),
{
    if str_eq(name, "_") || str_eq(name, "localhost") {
        return false;
    }
    let v = chars_of(name);
    find_char(&v, '*', 0) >= v.len()
}

/// The server names to resolve: what the DNS checks are run against.
pub fn dns_targets(servers: &[Server]) -> (r: Vec<String>)
    ensures
        names_view(r@) == hosts_of(servers_view(servers@)),
{
    let ghost all = servers_view(servers@);
    let mut out: Vec<String> = Vec::new();
    let mut i: usize = 0;
    proof {
        assert(all.take(0) =~= Seq::<ServerView>::empty());
        assert(names_view(out@) =~= Seq::<Seq<char>>::empty());
    }
    while i < servers.len()
        invariant
            i <= servers.len(),
            all == servers_view(servers@),
            names_view(out@) == hosts_of(all.take(i as int)),
        decreases servers.len() - i,
    {
        let server = &servers[i];
        let ghost before = names_view(out@);
        let ghost names = server@.server_names;
        let mut k: usize = 0;
        proof {
            assert(all.take(i + 1).drop_last() =~= all.take(i as int));
            assert(all.take(i + 1).last() == server@);
            assert(names.take(0) =~= Seq::<Seq<char>>::empty());
            Seq::<Seq<char>>::empty().lemma_filter_len(is_resolvable());
            assert(before + names.take(0).filter(is_resolvable()) =~= before);
        }
        while k < server.server_names.len()
            invariant
                k <= server.server_names.len(),
                names == server@.server_names,
                names_view(out@) == before + names.take(k as int).filter(is_resolvable()),
            decreases server.server_names.len() - k,
        {
            let ghost seen = names_view(out@);
            let ghost name = names[k as int];
            proof {
                assert(names.take(k + 1) =~= names.take(k as int).push(name));
                names.take(k as int).lemma_filter_push(name, is_resolvable());
            }
            if is_resolvable_name(server.server_names[k].as_str()) {
                out.push(server.server_names[k].clone());
                proof {
                    assert(names_view(out@) =~= seen.push(name));
                    assert(before + names.take(k as int).filter(is_resolvable()).push(name)
                        =~= seen.push(name));
                }
            }
            k += 1;
        }
        proof {
            assert(names.take(names.len() as int) =~= names);
        }
        i += 1;
    }
    proof {
        assert(all.take(servers@.len() as int) =~= all);
    }
    out
}

impl NetworkCheckResult {
    /// The report of a port check that was run.
    pub fn from_port_check(target: String, check: PortCheckResult) -> (r: NetworkCheckResult)
        ensures
            r@ == (NetworkCheckView {
                check_type: "port"@,
                target: target@,
                status: check.status,
                message: check.message@,
                severity: check.severity,
                details: opt_view(check.details),
            }),
    {
        NetworkCheckResult {
            check_type: "port".to_owned(),
            target,
            status: check.status,
            message: check.message,
            severity: check.severity,
            details: check.details,
        }
    }

    /// The report of a port check that could not be run, with the reason.
    pub fn port_failure(target: String, reason: &str) -> (r: NetworkCheckResult)
        ensures
            r@ == (NetworkCheckView {
                check_type: "port"@,
                target: target@,
                status: HealthStatus::Error,
                message: "Port check failed: "@ + reason@,
                severity: CheckSeverity::Error,
                details: None,
            }),
    {
        let mut message = String::from_str("Port check failed: ");
        message.append(reason);
        NetworkCheckResult {
            check_type: "port".to_owned(),
            target,
            status: HealthStatus::Error,
            message,
            severity: CheckSeverity::Error,
            details: None,
        }
    }

    /// The report of a DNS check that was run.
    pub fn from_dns_check(target: String, check: DnsCheckResult) -> (r: NetworkCheckResult)
        ensures
            r@ == (NetworkCheckView {
                check_type: "dns"@,
                target: target@,
                status: check.status,
                message: check.message@,
                severity: check.severity,
                details: opt_view(check.details),
            }),
    {
        NetworkCheckResult {
            check_type: "dns".to_owned(),
            target,
            status: check.status,
            message: check.message,
            severity: check.severity,
            details: check.details,
        }
    }

    /// The report of a DNS check that could not be run, with the reason.
    pub fn dns_failure(target: String, reason: &str) -> (r: NetworkCheckResult)
        ensures
            r@ == (NetworkCheckView {
                check_type: "dns"@,
                target: target@,
                status: HealthStatus::Error,
                message: "DNS resolution failed: "@ + reason@,
                severity: CheckSeverity::Warning,
                details: None,
            }),
    {
        let mut message = String::from_str("DNS resolution failed: ");
        message.append(reason);
        NetworkCheckResult {
            check_type: "dns".to_owned(),
            target,
            status: HealthStatus::Error,
            message,
            severity: CheckSeverity::Warning,
            details: None,
        }
    }
}

} // verus!

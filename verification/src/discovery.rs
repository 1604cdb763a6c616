//! The high-level entry point: a parsed configuration and what it declares.

use vstd::prelude::*;
use crate::ast::config::Config;
use crate::ast::directive::{
    forest_size, named, named_in_forest, refs_view, strings_view, texts, Directive, DirectiveView,
};
use crate::error::{opt_view, Error, ErrorView};
use crate::extract::logs::{
    access_logs, access_logs_of, formats_in, formats_view, lemma_refs_take, lemma_refs_take_all,
    log_formats,
};
use crate::parser::parse::{parse, parse_text};
use crate::text::{decimal, push_decimal};
use crate::extract::servers::{servers, servers_in, servers_view};
use crate::types::access_log::AccessLog;
use crate::types::listen::ListenView;
use crate::types::location::{access_logs_view, Location, LocationView};
use crate::types::log_format::LogFormat;
use crate::types::server::{locations_view, Server, ServerView};

verus! {

/// A parsed configuration, with the path of its file where it came from one.
#[derive(Debug)]
pub struct NginxDiscovery {
    /// The parsed configuration.
    config: Config,
    /// The path of the configuration file, if it was read from one.
    config_path: Option<String>,
}

/// The arguments of the directives `ds`, directive after directive.
pub open spec fn arguments_of(ds: Seq<DirectiveView>) -> Seq<Seq<char>>
    decreases ds.len(),
{
    if ds.len() == 0 {
        Seq::empty()
    } else {
        arguments_of(ds.drop_last()) + texts(ds.last().args())
    }
}

/// The names that the servers declare: the arguments of the `server_name`
/// directives directly in each of them, server after server.
pub open spec fn names_of_servers(servers: Seq<DirectiveView>) -> Seq<Seq<char>>
    decreases servers.len(),
{
    if servers.len() == 0 {
        Seq::empty()
    } else {
        names_of_servers(servers.drop_last()) + arguments_of(
            named(servers.last().children(), "server_name"@),
        )
    }
}

/// The text of the summary of a configuration with the given counts.
pub open spec fn summary_text(directives: nat, servers: nat, logs: nat, formats: nat) -> Seq<char> {
    "NGINX Configuration Summary:\n- Total directives: "@ + decimal(directives)
        + "\n- Server blocks: "@ + decimal(servers) + "\n- Access logs: "@ + decimal(logs)
        + "\n- Log formats: "@ + decimal(formats)
}

fn push_arguments(found: &Vec<&Directive>, names: &mut Vec<String>)
    ensures
        strings_view(final(names)@) == strings_view(old(names)@) + arguments_of(refs_view(found@)),
{
    let ghost start = strings_view(names@);
    let ghost all = refs_view(found@);
    let mut i: usize = 0;
    proof {
        lemma_refs_take_all(found@);
        assert(start + Seq::<Seq<char>>::empty() =~= start);
    }
    while i < found.len()
        invariant
            i <= found.len(),
            all == refs_view(found@),
            strings_view(names@) == start + arguments_of(all.take(i as int)),
        decreases found.len() - i,
    {
        let ghost before = strings_view(names@);
        proof {
            lemma_refs_take(found@, i as int);
        }
        let mut args = found[i].args_as_strings();
        let ghost added = strings_view(args@);
        names.append(&mut args);
        proof {
            assert(strings_view(names@) =~= before + added);
            assert(start + (arguments_of(all.take(i as int)) + added) =~= before + added);
        }
        i += 1;
    }
    proof {
        lemma_refs_take_all(found@);
    }
}

impl NginxDiscovery {
    /// The tree of the configuration.
    pub closed spec fn tree(&self) -> Seq<DirectiveView> {
        self.config@
    }

    /// The path of the configuration file, if any.
    pub closed spec fn path(&self) -> Option<Seq<char>> {
        opt_view(self.config_path)
    }

    /// A discovery over the configuration that `text` holds. Fails where the
    /// text does not parse.
    pub fn from_config_text(text: &str) -> (r: Result<NginxDiscovery, Error>)
        requires
            text@.len() < usize::MAX,
        ensures
            match r {
                Ok(d) => parse_text(text@) == Ok::<Seq<DirectiveView>, ErrorView>(d.tree())
                    && d.path() is None,
                Err(e) => parse_text(text@) == Err::<Seq<DirectiveView>, ErrorView>(e@),
            },
    {
        match parse(text) {
            Ok(config) => Ok(NginxDiscovery { config, config_path: None }),
            Err(e) => Err(e),
        }
    }

    /// A discovery over the configuration that `text` holds, which was read
    /// from the file at `path`. Fails where the text does not parse.
    pub fn from_file_text(text: &str, path: &str) -> (r: Result<NginxDiscovery, Error>)
        requires
            text@.len() < usize::MAX,
        ensures
            match r {
                Ok(d) => parse_text(text@) == Ok::<Seq<DirectiveView>, ErrorView>(d.tree())
                    && d.path() == Some(path@),
                Err(e) => parse_text(text@) == Err::<Seq<DirectiveView>, ErrorView>(e@),
            },
    {
        match parse(text) {
            Ok(config) => Ok(NginxDiscovery { config, config_path: Some(path.to_owned()) }),
            Err(e) => Err(e),
        }
    }

    /// The access logs that the configuration declares.
    pub fn access_logs(&self) -> (r: Vec<AccessLog>)
        ensures
            access_logs_view(r@) == access_logs_of(self.tree()),
    {
        match access_logs(&self.config) {
            Ok(logs) => logs,
            Err(_) => Vec::new(),
        }
    }

    /// The log formats that the configuration declares.
    pub fn log_formats(&self) -> (r: Vec<LogFormat>)
        ensures
            formats_view(r@) == formats_in(named_in_forest(self.tree(), "log_format"@)),
    {
        match log_formats(&self.config) {
            Ok(formats) => formats,
            Err(_) => Vec::new(),
        }
    }

    /// The names of all servers: the arguments of the `server_name`
    /// directives directly in each `server` block, at any depth.
    pub fn server_names(&self) -> (r: Vec<String>)
        ensures
            strings_view(r@) == names_of_servers(named_in_forest(self.tree(), "server"@)),
    {
        let mut names: Vec<String> = Vec::new();
        let servers = self.config.find_directives_recursive("server");
        let ghost all = refs_view(servers@);
        let mut i: usize = 0;
        proof {
            lemma_refs_take_all(servers@);
            assert(strings_view(names@) =~= Seq::<Seq<char>>::empty());
        }
        while i < servers.len()
            invariant
                i <= servers.len(),
                all == refs_view(servers@),
                strings_view(names@) == names_of_servers(all.take(i as int)),
            decreases servers.len() - i,
        {
            proof {
                lemma_refs_take(servers@, i as int);
            }
            let found = servers[i].find_children("server_name");
            push_arguments(&found, &mut names);
            i += 1;
        }
        proof {
            lemma_refs_take_all(servers@);
        }
        names
    }

    /// The parsed configuration.
    pub fn config(&self) -> (r: &Config)
        ensures
            r@ == self.tree(),
    {
        &self.config
    }

    /// The path of the configuration file, if the configuration was read
    /// from one.
    pub fn config_path(&self) -> (r: Option<&str>)
        ensures
            match r {
                Some(p) => self.path() == Some(p@),
                None => self.path() is None,
            },
    {
        match &self.config_path {
            Some(p) => Some(p.as_str()),
            None => None,
        }
    }

    /// A summary of the configuration: how many directives, server blocks,
    /// access logs and log formats it holds.
    pub fn summary(&self) -> (r: String)
        requires
            forest_size(self.tree()) <= usize::MAX,
        ensures
            r@ == summary_text(
                forest_size(self.tree()),
                named_in_forest(self.tree(), "server"@).len(),
                access_logs_of(self.tree()).len(),
                formats_in(named_in_forest(self.tree(), "log_format"@)).len(),
            ),
    {
        let directive_count = self.config.count_directives();
        let servers = self.config.find_directives_recursive("server");
        let server_count = servers.len();
        let logs = self.access_logs();
        let access_log_count = logs.len();
        let formats = self.log_formats();
        let format_count = formats.len();
        proof {
            assert(refs_view(servers@).len() == servers@.len());
            assert(access_logs_view(logs@).len() == logs@.len());
            assert(formats_view(formats@).len() == formats@.len());
        }
        let mut out = String::new();
        out.append("NGINX Configuration Summary:\n- Total directives: ");
        push_decimal(&mut out, directive_count);
        out.append("\n- Server blocks: ");
        push_decimal(&mut out, server_count);
        out.append("\n- Access logs: ");
        push_decimal(&mut out, access_log_count);
        out.append("\n- Log formats: ");
        push_decimal(&mut out, format_count);
        assert(out@ =~= summary_text(
            directive_count as nat,
            server_count as nat,
            access_log_count as nat,
            format_count as nat,
        ));
        out
    }
}

/// Whether each element is less than the next: sorted, and nothing twice.
pub open spec fn strictly_increasing(s: Seq<u16>) -> bool {
    forall|i: int, j: int| 0 <= i < j < s.len() ==> s[i] < s[j]
}

/// The ports of the listeners, in order.
pub open spec fn ports_of_listeners(ls: Seq<ListenView>) -> Seq<u16> {
    Seq::new(ls.len(), |i: int| ls[i].port)
}

/// The ports that the servers listen on, listener after listener.
pub open spec fn ports_in(servers: Seq<ServerView>) -> Seq<u16>
    decreases servers.len(),
{
    if servers.len() == 0 {
        Seq::empty()
    } else {
        ports_in(servers.drop_last()) + ports_of_listeners(servers.last().listen)
    }
}

/// Holds of the servers that have SSL on some listener.
pub open spec fn with_ssl() -> spec_fn(ServerView) -> bool {
    |s: ServerView| s.has_ssl()
}

/// Holds of the locations that pass requests to an upstream.
pub open spec fn passing_on() -> spec_fn(LocationView) -> bool {
    |l: LocationView| l.proxy_pass is Some
}

/// The locations of the servers that pass requests to an upstream, server
/// after server.
pub open spec fn proxies_in(servers: Seq<ServerView>) -> Seq<LocationView>
    decreases servers.len(),
{
    if servers.len() == 0 {
        Seq::empty()
    } else {
        proxies_in(servers.drop_last()) + servers.last().locations.filter(passing_on())
    }
}

/// The number of locations of the servers.
pub open spec fn locations_in(servers: Seq<ServerView>) -> nat
    decreases servers.len(),
{
    if servers.len() == 0 {
        0
    } else {
        locations_in(servers.drop_last()) + servers.last().locations.len()
    }
}

/// No leading part of the servers has more locations than all of them.
pub proof fn lemma_locations_in_take(servers: Seq<ServerView>, i: int)
    requires
        0 <= i <= servers.len(),
    ensures
        locations_in(servers.take(i)) <= locations_in(servers),
    decreases servers.len(),
{
    if i == servers.len() {
        assert(servers.take(i) =~= servers);
    } else {
        lemma_locations_in_take(servers.drop_last(), i);
        assert(servers.drop_last().take(i) =~= servers.take(i));
    }
}

/// Puts `port` in its place among the sorted `ports`, unless it is there.
fn insert_port(ports: &mut Vec<u16>, port: u16)
    requires
        strictly_increasing(old(ports)@),
    ensures
        strictly_increasing(final(ports)@),
        forall|p: u16| final(ports)@.contains(p) <==> (old(ports)@.contains(p) || p == port),
{
    let mut i: usize = 0;
    while i < ports.len() && ports[i] < port
        invariant
            i <= ports.len(),
            ports@ == old(ports)@,
            forall|j: int| 0 <= j < i ==> ports@[j] < port,
        decreases ports.len() - i,
    {
        i += 1;
    }
    if i < ports.len() && ports[i] == port {
        assert(ports@.contains(port));
        return ;
    }
    let ghost before = ports@;
    ports.insert(i, port);
    proof {
        let after = ports@;
        assert(after =~= before.insert(i as int, port));
        assert forall|a: int, b: int| 0 <= a < b < after.len() implies after[a] < after[b] by {
            if a < i && b > i {
                assert(after[a] == before[a]);
                assert(after[b] == before[b - 1]);
            } else if a == i {
                assert(after[b] == before[b - 1]);
            } else if b == i {
                assert(after[a] == before[a]);
            } else if b < i {
                assert(after[a] == before[a]);
                assert(after[b] == before[b]);
            } else {
                assert(after[a] == before[a - 1]);
                assert(after[b] == before[b - 1]);
            }
        }
        assert forall|p: u16| after.contains(p) <==> (before.contains(p) || p == port) by {
            if after.contains(p) {
                let k = choose|k: int| 0 <= k < after.len() && after[k] == p;
                if k < i {
                    assert(before[k] == p);
                } else if k > i {
                    assert(before[k - 1] == p);
                }
            }
            if before.contains(p) {
                let k = choose|k: int| 0 <= k < before.len() && before[k] == p;
                if k < i {
                    assert(after[k] == p);
                } else {
                    assert(after[k + 1] == p);
                }
            }
            if p == port {
                assert(after[i as int] == p);
            }
        }
    }
}

impl NginxDiscovery {
    /// The servers that the configuration declares.
    pub fn servers(&self) -> (r: Vec<Server>)
        ensures
            servers_view(r@) == servers_in(named_in_forest(self.tree(), "server"@)),
    {
        match servers(&self.config) {
            Ok(found) => found,
            Err(_) => Vec::new(),
        }
    }

    /// The servers that have SSL on some listener, in order.
    pub fn ssl_servers(&self) -> (r: Vec<Server>)
        ensures
            servers_view(r@) == servers_in(named_in_forest(self.tree(), "server"@)).filter(
                with_ssl(),
            ),
    {
        let all = self.servers();
        let ghost views = servers_view(all@);
        let mut out: Vec<Server> = Vec::new();
        let mut i: usize = 0;
        proof {
            assert(views.take(0) =~= Seq::<ServerView>::empty());
            Seq::<ServerView>::empty().lemma_filter_len(with_ssl());
            assert(servers_view(out@) =~= views.take(0).filter(with_ssl()));
        }
        while i < all.len()
            invariant
                i <= all.len(),
                views == servers_view(all@),
                servers_view(out@) == views.take(i as int).filter(with_ssl()),
            decreases all.len() - i,
        {
            let ghost seen = servers_view(out@);
            proof {
                assert(views.take(i + 1) =~= views.take(i as int).push(all@[i as int]@));
                views.take(i as int).lemma_filter_push(all@[i as int]@, with_ssl());
            }
            if all[i].has_ssl() {
                out.push(all[i].clone());
                assert(servers_view(out@) =~= seen.push(all@[i as int]@));
            }
            i += 1;
        }
        proof {
            assert(views.take(all@.len() as int) =~= views);
        }
        out
    }

    /// The ports that the servers listen on, each once, in rising order.
    pub fn listening_ports(&self) -> (r: Vec<u16>)
        ensures
            strictly_increasing(r@),
            forall|p: u16|
                r@.contains(p) <==> ports_in(
                    servers_in(named_in_forest(self.tree(), "server"@)),
                ).contains(p),
    {
        let all = self.servers();
        let ghost views = servers_view(all@);
        let mut ports: Vec<u16> = Vec::new();
        let mut i: usize = 0;
        proof {
            assert(views.take(0) =~= Seq::<ServerView>::empty());
        }
        while i < all.len()
            invariant
                i <= all.len(),
                views == servers_view(all@),
                strictly_increasing(ports@),
                forall|p: u16| ports@.contains(p) <==> ports_in(views.take(i as int)).contains(p),
            decreases all.len() - i,
        {
            let server = &all[i];
            let ghost done = ports_in(views.take(i as int));
            let ghost own = ports_of_listeners(server@.listen);
            let mut k: usize = 0;
            proof {
                assert(views.take(i + 1).drop_last() =~= views.take(i as int));
                assert(views.take(i + 1).last() == server@);
                assert(done + own.take(0) =~= done);
            }
            while k < server.listen.len()
                invariant
                    k <= server.listen.len(),
                    own == ports_of_listeners(server@.listen),
                    strictly_increasing(ports@),
                    forall|p: u16| ports@.contains(p) <==> (done + own.take(k as int)).contains(p),
                decreases server.listen.len() - k,
            {
                let ghost before = ports@;
                let port = server.listen[k].port;
                insert_port(&mut ports, port);
                proof {
                    let old_all = done + own.take(k as int);
                    let new_all = done + own.take(k + 1);
                    assert(new_all =~= old_all.push(port));
                    assert forall|p: u16| ports@.contains(p) <==> new_all.contains(p) by {
                        if new_all.contains(p) {
                            let j = choose|j: int| 0 <= j < new_all.len() && new_all[j] == p;
                            if j < old_all.len() {
                                assert(old_all[j] == p);
                            }
                        }
                        if old_all.contains(p) {
                            let j = choose|j: int| 0 <= j < old_all.len() && old_all[j] == p;
                            assert(new_all[j] == p);
                        }
                        if p == port {
                            assert(new_all[old_all.len() as int] == p);
                        }
                    }
                }
                k += 1;
            }
            proof {
                assert(own.take(own.len() as int) =~= own);
            }
            i += 1;
        }
        proof {
            assert(views.take(all@.len() as int) =~= views);
        }
        ports
    }

    /// The locations that pass requests to an upstream, in order.
    pub fn proxy_locations(&self) -> (r: Vec<Location>)
        ensures
            locations_view(r@) == proxies_in(servers_in(named_in_forest(self.tree(), "server"@))),
    {
        let all = self.servers();
        let ghost views = servers_view(all@);
        let mut out: Vec<Location> = Vec::new();
        let mut i: usize = 0;
        proof {
            assert(views.take(0) =~= Seq::<ServerView>::empty());
            assert(locations_view(out@) =~= Seq::<LocationView>::empty());
        }
        while i < all.len()
            invariant
                i <= all.len(),
                views == servers_view(all@),
                locations_view(out@) == proxies_in(views.take(i as int)),
            decreases all.len() - i,
        {
            let server = &all[i];
            let ghost before = locations_view(out@);
            let ghost own = server@.locations;
            let mut k: usize = 0;
            proof {
                assert(views.take(i + 1).drop_last() =~= views.take(i as int));
                assert(views.take(i + 1).last() == server@);
                assert(own.take(0) =~= Seq::<LocationView>::empty());
                Seq::<LocationView>::empty().lemma_filter_len(passing_on());
                assert(before + own.take(0).filter(passing_on()) =~= before);
            }
            while k < server.locations.len()
                invariant
                    k <= server.locations.len(),
                    own == server@.locations,
                    locations_view(out@) == before + own.take(k as int).filter(passing_on()),
                decreases server.locations.len() - k,
            {
                let ghost seen = locations_view(out@);
                let ghost view = own[k as int];
                proof {
                    assert(own.take(k + 1) =~= own.take(k as int).push(view));
                    own.take(k as int).lemma_filter_push(view, passing_on());
                }
                if server.locations[k].is_proxy() {
                    out.push(server.locations[k].clone());
                    proof {
                        assert(locations_view(out@) =~= seen.push(view));
                        assert(before + own.take(k as int).filter(passing_on()).push(view)
                            =~= seen.push(view));
                    }
                }
                k += 1;
            }
            proof {
                assert(own.take(own.len() as int) =~= own);
            }
            i += 1;
        }
        proof {
            assert(views.take(all@.len() as int) =~= views);
        }
        out
    }

    /// The number of locations of all servers.
    pub fn location_count(&self) -> (r: usize)
        requires
            locations_in(servers_in(named_in_forest(self.tree(), "server"@))) <= usize::MAX,
        ensures
            r == locations_in(servers_in(named_in_forest(self.tree(), "server"@))),
    {
        let all = self.servers();
        let ghost views = servers_view(all@);
        let mut count: usize = 0;
        let mut i: usize = 0;
        proof {
            assert(views.take(0) =~= Seq::<ServerView>::empty());
        }
        while i < all.len()
            invariant
                i <= all.len(),
                views == servers_view(all@),
                locations_in(views) <= usize::MAX,
                count == locations_in(views.take(i as int)),
            decreases all.len() - i,
        {
            proof {
                assert(views.take(i + 1).drop_last() =~= views.take(i as int));
                assert(views.take(i + 1).last() == all@[i as int]@);
                lemma_locations_in_take(views, i + 1);
            }
            count = count + all[i].locations.len();
            i += 1;
        }
        proof {
            assert(views.take(all@.len() as int) =~= views);
        }
        count
    }
}

impl Clone for NginxDiscovery {
    fn clone(&self) -> (r: NginxDiscovery)
        ensures
            r.tree() == self.tree(),
            r.path() == self.path(),
    {
        NginxDiscovery {
            config: self.config.clone(),
            config_path: match &self.config_path {
                Some(p) => Some(p.clone()),
                None => None,
            },
        }
    }
}

} // verus!

//! The servers that a configuration declares.

use vstd::prelude::*;
use crate::ast::config::Config;
use crate::ast::directive::{
    directives_view, named_in_forest, refs_view, strings_view, texts, Directive, DirectiveView,
};
use crate::error::Error;
use crate::extract::logs::{
    access_log_of, lemma_refs_take, lemma_refs_take_all, parse_access_log, some_as_seq,
};
use crate::text::str_eq;
use crate::types::access_log::{AccessLogView, LogContext, LogContextView};
use crate::types::error_log::{ErrorLog, ErrorLogLevel, ErrorLogView};
use crate::types::listen::{listen_of, ListenDirective, ListenView};
use crate::types::location::{location_of, Location, LocationModifier, LocationView};
use crate::types::server::{Server, ServerView};

verus! {

/// The text of the first argument of a directive, if it has one.
pub open spec fn first_text(d: DirectiveView) -> Option<Seq<char>> {
    if d.args().len() > 0 {
        Some(d.args()[0].text())
    } else {
        None
    }
}

/// The error log that an `error_log` directive of a server declares: the
/// first argument is the path, the second, if any, names the level. Nothing
/// without arguments.
pub open spec fn error_log_of(d: DirectiveView) -> Option<ErrorLogView> {
    let args = texts(d.args());
    if args.len() == 0 {
        None
    } else {
        Some(
            ErrorLogView {
                path: args[0],
                level: if args.len() > 1 {
                    ErrorLogLevel::named(args[1])
                } else {
                    ErrorLogLevel::Error
                },
                context: LogContextView::Server("_"@),
            },
        )
    }
}

/// The location after one more of its directives has been read: `root` and
/// `proxy_pass` set what their first argument says, `access_log` adds a log
/// in the context of the location, anything else changes nothing.
pub open spec fn location_with(l: LocationView, child: DirectiveView) -> LocationView {
    if child.name() == "root"@ {
        match first_text(child) {
            Some(root) => LocationView { root: Some(root), ..l },
            None => l,
        }
    } else if child.name() == "proxy_pass"@ {
        match first_text(child) {
            Some(upstream) => LocationView { proxy_pass: Some(upstream), ..l },
            None => l,
        }
    } else if child.name() == "access_log"@ {
        LocationView {
            access_logs: l.access_logs + some_as_seq(
                access_log_of(child, LogContextView::Location(l.path)),
            ),
            ..l
        }
    } else {
        l
    }
}

/// The location after the directives `children` have been read, in order.
pub open spec fn location_after(l: LocationView, children: Seq<DirectiveView>) -> LocationView
    decreases children.len(),
{
    if children.len() == 0 {
        l
    } else {
        location_with(location_after(l, children.drop_last()), children.last())
    }
}

/// The location that a `location` directive declares; nothing where the
/// directive is no block.
pub open spec fn location_of_directive(d: DirectiveView) -> Option<LocationView> {
    if !d.is_block() {
        None
    } else {
        let (modifier, path) = location_of(texts(d.args()));
        Some(
            location_after(
                LocationView {
                    path,
                    modifier,
                    root: None,
                    proxy_pass: None,
                    access_logs: Seq::empty(),
                },
                d.children(),
            ),
        )
    }
}

/// The server after one more of its directives has been read.
///
/// `server_name` and `index` add their arguments, `listen` adds a listener,
/// `root` sets the root, `access_log` and `error_log` add a log in the
/// context of the server `_`, `location` adds a location; anything else
/// changes nothing.
pub open spec fn server_with(s: ServerView, child: DirectiveView) -> ServerView {
    if child.name() == "server_name"@ {
        ServerView { server_names: s.server_names + texts(child.args()), ..s }
    } else if child.name() == "listen"@ {
        ServerView { listen: s.listen + some_as_seq(listen_of(texts(child.args()))), ..s }
    } else if child.name() == "root"@ {
        match first_text(child) {
            Some(root) => ServerView { root: Some(root), ..s },
            None => s,
        }
    } else if child.name() == "index"@ {
        ServerView { index: s.index + texts(child.args()), ..s }
    } else if child.name() == "access_log"@ {
        ServerView {
            access_logs: s.access_logs + some_as_seq(
                access_log_of(child, LogContextView::Server("_"@)),
            ),
            ..s
        }
    } else if child.name() == "error_log"@ {
        ServerView { error_logs: s.error_logs + some_as_seq(error_log_of(child)), ..s }
    } else if child.name() == "location"@ {
        ServerView { locations: s.locations + some_as_seq(location_of_directive(child)), ..s }
    } else {
        s
    }
}

/// The server after the directives `children` have been read, in order.
pub open spec fn server_after(s: ServerView, children: Seq<DirectiveView>) -> ServerView
    decreases children.len(),
{
    if children.len() == 0 {
        s
    } else {
        server_with(server_after(s, children.drop_last()), children.last())
    }
}

/// The server that a `server` directive declares; nothing where the
/// directive is no block.
pub open spec fn server_of(d: DirectiveView) -> Option<ServerView> {
    if !d.is_block() {
        None
    } else {
        Some(server_after(ServerView::empty(), d.children()))
    }
}

/// The servers that the directives `ds` declare, in order.
pub open spec fn servers_in(ds: Seq<DirectiveView>) -> Seq<ServerView>
    decreases ds.len(),
{
    if ds.len() == 0 {
        Seq::empty()
    } else {
        servers_in(ds.drop_last()) + some_as_seq(server_of(ds.last()))
    }
}

/// The views of a sequence of servers, element by element.
pub open spec fn servers_view(ss: Seq<Server>) -> Seq<ServerView> {
    Seq::new(ss.len(), |i: int| ss[i]@)
}

/// One more child in view.
pub proof fn lemma_children_take(children: Seq<Directive>, i: int)
    requires
        0 <= i < children.len(),
    ensures
        directives_view(children).take(i + 1).drop_last() == directives_view(children).take(i),
        directives_view(children).take(i + 1).last() == children[i]@,
{
    assert(directives_view(children).take(i + 1).drop_last() =~= directives_view(children).take(
        i,
    ));
}

/// With no child taken the view is empty; with all taken it is whole.
pub proof fn lemma_children_take_all(children: Seq<Directive>)
    ensures
        directives_view(children).take(0) == Seq::<DirectiveView>::empty(),
        directives_view(children).take(children.len() as int) == directives_view(children),
{
    assert(directives_view(children).take(0) =~= Seq::<DirectiveView>::empty());
    assert(directives_view(children).take(children.len() as int) =~= directives_view(children));
}

fn push_texts(target: &mut Vec<String>, directive: &Directive)
    ensures
        strings_view(final(target)@) == strings_view(old(target)@) + texts(directive@.args()),
{
    let mut args = directive.args_as_strings();
    let ghost before = strings_view(target@);
    let ghost added = strings_view(args@);
    target.append(&mut args);
    assert(strings_view(target@) =~= before + added);
}

/// The error log that an `error_log` directive of a server declares.
pub fn parse_error_log_in_server(directive: &Directive) -> (r: Option<ErrorLog>)
    ensures
        match r {
            Some(log) => error_log_of(directive@) == Some(log@),
            None => error_log_of(directive@) is None,
        },
{
    let args = directive.args_as_strings();
    if args.len() == 0 {
        return None;
    }
    let level = if args.len() > 1 {
        ErrorLogLevel::from_name(args[1].as_str())
    } else {
        ErrorLogLevel::Error
    };
    Some(
        ErrorLog::new(args[0].as_str()).with_level(level).with_context(
            LogContext::Server("_".to_owned()),
        ),
    )
}

/// The location that a `location` directive declares.
pub fn parse_location(directive: &Directive) -> (r: Option<Location>)
    ensures
        match r {
            Some(location) => location_of_directive(directive@) == Some(location@),
            None => location_of_directive(directive@) is None,
        },
{
    let args = directive.args_as_strings();
    let (modifier, path) = LocationModifier::from_args(args.as_slice());
    let children = match directive.children() {
        Some(children) => children,
        None => {
            return None;
        },
    };
    let mut location = Location::new(path.as_str(), modifier);
    let ghost base = location@;
    let ghost all = directives_view(children@);
    let mut i: usize = 0;
    proof {
        lemma_children_take_all(children@);
    }
    while i < children.len()
        invariant
            i <= children.len(),
            all == directives_view(children@),
            location@ == location_after(base, all.take(i as int)),
            location@.path == base.path,
        decreases children.len() - i,
    {
        proof {
            lemma_children_take(children@, i as int);
        }
        let child = &children[i];
        let ghost before = location@;
        let name = child.name();
        if str_eq(name, "root") {
            if let Some(root) = child.first_arg() {
                location.root = Some(root);
            }
        } else if str_eq(name, "proxy_pass") {
            if let Some(upstream) = child.first_arg() {
                location.proxy_pass = Some(upstream);
            }
        } else if str_eq(name, "access_log") {
            let context = LogContext::Location(location.path.clone());
            match parse_access_log(child, context) {
                Some(log) => {
                    let ghost view = log@;
                    location.access_logs.push(log);
                    assert(location@.access_logs =~= before.access_logs + seq![view]);
                },
                None => {
                    assert(before.access_logs + Seq::<AccessLogView>::empty()
                        =~= before.access_logs);
                },
            }
        }
        assert(location@ == location_with(before, child@));
        i += 1;
    }
    proof {
        lemma_children_take_all(children@);
    }
    Some(location)
}

/// The server that a `server` directive declares.
pub fn parse_server(directive: &Directive) -> (r: Option<Server>)
    ensures
        match r {
            Some(server) => server_of(directive@) == Some(server@),
            None => server_of(directive@) is None,
        },
{
    let children = match directive.children() {
        Some(children) => children,
        None => {
            return None;
        },
    };
    let mut server = Server::new();
    let ghost all = directives_view(children@);
    let mut i: usize = 0;
    proof {
        lemma_children_take_all(children@);
    }
    while i < children.len()
        invariant
            i <= children.len(),
            all == directives_view(children@),
            server@ == server_after(ServerView::empty(), all.take(i as int)),
        decreases children.len() - i,
    {
        proof {
            lemma_children_take(children@, i as int);
        }
        let child = &children[i];
        let ghost before = server@;
        let name = child.name();
        if str_eq(name, "server_name") {
            push_texts(&mut server.server_names, child);
        } else if str_eq(name, "listen") {
            let args = child.args_as_strings();
            match ListenDirective::from_args(args.as_slice()) {
                Some(listen) => {
                    let ghost view = listen@;
                    server.listen.push(listen);
                    assert(server@.listen =~= before.listen + seq![view]);
                },
                None => {
                    assert(before.listen + Seq::<ListenView>::empty() =~= before.listen);
                },
            }
        } else if str_eq(name, "root") {
            if let Some(root) = child.first_arg() {
                server.root = Some(root);
            }
        } else if str_eq(name, "index") {
            push_texts(&mut server.index, child);
        } else if str_eq(name, "access_log") {
            match parse_access_log(child, LogContext::Server("_".to_owned())) {
                Some(log) => {
                    let ghost view = log@;
                    server.access_logs.push(log);
                    assert(server@.access_logs =~= before.access_logs + seq![view]);
                },
                None => {
                    assert(before.access_logs + Seq::<AccessLogView>::empty()
                        =~= before.access_logs);
                },
            }
        } else if str_eq(name, "error_log") {
            match parse_error_log_in_server(child) {
                Some(log) => {
                    let ghost view = log@;
                    server.error_logs.push(log);
                    assert(server@.error_logs =~= before.error_logs + seq![view]);
                },
                None => {
                    assert(before.error_logs + Seq::<ErrorLogView>::empty()
                        =~= before.error_logs);
                },
            }
        } else if str_eq(name, "location") {
            match parse_location(child) {
                Some(location) => {
                    let ghost view = location@;
                    server.locations.push(location);
                    assert(server@.locations =~= before.locations + seq![view]);
                },
                None => {
                    assert(before.locations + Seq::<LocationView>::empty()
                        =~= before.locations);
                },
            }
        }
        assert(server@ == server_with(before, child@));
        i += 1;
    }
    proof {
        lemma_children_take_all(children@);
    }
    Some(server)
}

/// The servers that a configuration declares: one for each `server` block
/// at any depth, in the order of the blocks.
pub fn servers(config: &Config) -> (r: Result<Vec<Server>, Error>)
    ensures
        r matches Ok(found) && servers_view(found@) == servers_in(
            named_in_forest(config@, "server"@),
        ),
{
    let mut result: Vec<Server> = Vec::new();
    let found = config.find_directives_recursive("server");
    let ghost all = refs_view(found@);
    let mut i: usize = 0;
    proof {
        lemma_refs_take_all(found@);
        assert(servers_view(result@) =~= Seq::<ServerView>::empty());
    }
    while i < found.len()
        invariant
            i <= found.len(),
            all == refs_view(found@),
            servers_view(result@) == servers_in(all.take(i as int)),
        decreases found.len() - i,
    {
        let ghost before = servers_view(result@);
        proof {
            lemma_refs_take(found@, i as int);
        }
        match parse_server(found[i]) {
            Some(server) => {
                let ghost view = server@;
                result.push(server);
                proof {
                    assert(servers_view(result@) =~= before.push(view));
                    assert(before + seq![view] =~= before.push(view));
                }
            },
            None => {
                proof {
                    assert(before + Seq::<ServerView>::empty() =~= before);
                }
            },
        }
        i += 1;
    }
    proof {
        lemma_refs_take_all(found@);
    }
    Ok(result)
}

} // verus!

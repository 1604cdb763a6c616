//! The logs and log formats that a configuration declares.

use vstd::prelude::*;
use crate::ast::config::Config;
use crate::ast::directive::{
    named, named_in_forest, named_in_tree, refs_view, strings_view, texts, Directive,
    DirectiveView,
};
use crate::error::Error;
use crate::text::{chars_of, find_char, first_where, is_char, join_strings, join_texts, str_eq,
    string_of, views_between};
use crate::types::access_log::{AccessLog, AccessLogView, LogContext, LogContextView};
use crate::types::location::access_logs_view;
use crate::types::log_format::{variables_of, LogFormat, LogFormatView};

verus! {

/// Key and value of an option written `key=value`: what stands before and
/// after the first `=`. Nothing for a text without `=`.
pub open spec fn option_of(arg: Seq<char>) -> Option<(Seq<char>, Seq<char>)> {
    let eq = first_where(arg, 0, is_char('='));
    if eq < arg.len() {
        Some((arg.take(eq), arg.skip(eq + 1)))
    } else {
        None
    }
}

/// The options among `args`: each `key=value`, a later one in place of an
/// earlier one with the same key.
pub open spec fn options_of(args: Seq<Seq<char>>) -> Map<Seq<char>, Seq<char>>
    decreases args.len(),
{
    if args.len() == 0 {
        Map::empty()
    } else {
        match option_of(args.last()) {
            Some((key, value)) => options_of(args.drop_last()).insert(key, value),
            None => options_of(args.drop_last()),
        }
    }
}

/// The access log that an `access_log` directive declares in a context.
///
/// The first argument is the path; `off`, or no argument at all, declares
/// no log. The second argument names the format unless it is an option.
/// The arguments after the second that are options are the log's options.
pub open spec fn access_log_of(d: DirectiveView, context: LogContextView) -> Option<AccessLogView> {
    let args = texts(d.args());
    if args.len() == 0 || args[0] == "off"@ {
        None
    } else {
        Some(
            AccessLogView {
                path: args[0],
                format_name: if args.len() > 1 && option_of(args[1]) is None {
                    Some(args[1])
                } else {
                    None
                },
                options: if args.len() > 2 {
                    options_of(args.skip(2))
                } else {
                    Map::empty()
                },
                context,
            },
        )
    }
}

/// The element where there is one; nothing otherwise.
pub open spec fn some_as_seq<T>(o: Option<T>) -> Seq<T> {
    match o {
        Some(x) => seq![x],
        None => Seq::empty(),
    }
}

/// The access logs that the directives `ds` declare in a context, in order.
pub open spec fn logs_in(ds: Seq<DirectiveView>, context: LogContextView) -> Seq<AccessLogView>
    decreases ds.len(),
{
    if ds.len() == 0 {
        Seq::empty()
    } else {
        logs_in(ds.drop_last(), context) + some_as_seq(access_log_of(ds.last(), context))
    }
}

/// The access logs declared directly in each of the blocks `blocks`, in the
/// main context.
pub open spec fn block_logs(blocks: Seq<DirectiveView>) -> Seq<AccessLogView>
    decreases blocks.len(),
{
    if blocks.len() == 0 {
        Seq::empty()
    } else {
        block_logs(blocks.drop_last()) + logs_in(
            named(blocks.last().children(), "access_log"@),
            LogContextView::Main,
        )
    }
}

/// The name a server goes by in the context of its logs: the first argument
/// of its first `server_name`, or `_`.
pub open spec fn server_name_of(server: DirectiveView) -> Seq<char> {
    let names = named(server.children(), "server_name"@);
    if names.len() > 0 && names[0].args().len() > 0 {
        names[0].args()[0].text()
    } else {
        "_"@
    }
}

/// The path a location goes by in the context of its logs: its first
/// argument, or `/`.
pub open spec fn location_path_of(location: DirectiveView) -> Seq<char> {
    if location.args().len() > 0 {
        location.args()[0].text()
    } else {
        "/"@
    }
}

/// The access logs declared directly in each of the locations, each in the
/// context of its location.
pub open spec fn location_logs(locations: Seq<DirectiveView>) -> Seq<AccessLogView>
    decreases locations.len(),
{
    if locations.len() == 0 {
        Seq::empty()
    } else {
        location_logs(locations.drop_last()) + logs_in(
            named(locations.last().children(), "access_log"@),
            LogContextView::Location(location_path_of(locations.last())),
        )
    }
}

/// The access logs of one server: those declared directly in it, in the
/// context of the server, then those of the locations at any depth in it.
pub open spec fn logs_of_server(server: DirectiveView) -> Seq<AccessLogView> {
    logs_in(
        named(server.children(), "access_log"@),
        LogContextView::Server(server_name_of(server)),
    ) + location_logs(named_in_tree(server, "location"@))
}

/// The access logs of each of the servers, server after server.
pub open spec fn server_logs(servers: Seq<DirectiveView>) -> Seq<AccessLogView>
    decreases servers.len(),
{
    if servers.len() == 0 {
        Seq::empty()
    } else {
        server_logs(servers.drop_last()) + logs_of_server(servers.last())
    }
}

/// The access logs that a configuration declares: those at the top level,
/// those directly in top-level `http` blocks, and those of the servers at
/// any depth, in that order.
pub open spec fn access_logs_of(config: Seq<DirectiveView>) -> Seq<AccessLogView> {
    logs_in(named(config, "access_log"@), LogContextView::Main) + block_logs(
        named(config, "http"@),
    ) + server_logs(named_in_forest(config, "server"@))
}

/// The log format that a `log_format` directive declares: the first
/// argument is the name, the others, joined by spaces, are the pattern.
/// Nothing with fewer than two arguments.
pub open spec fn log_format_of(d: DirectiveView) -> Option<LogFormatView> {
    let args = texts(d.args());
    if args.len() < 2 {
        None
    } else {
        let pattern = join_texts(args.skip(1), " "@);
        Some(LogFormatView { name: args[0], pattern, variables: variables_of(pattern) })
    }
}

/// The log formats that the directives `ds` declare, in order.
pub open spec fn formats_in(ds: Seq<DirectiveView>) -> Seq<LogFormatView>
    decreases ds.len(),
{
    if ds.len() == 0 {
        Seq::empty()
    } else {
        formats_in(ds.drop_last()) + some_as_seq(log_format_of(ds.last()))
    }
}

/// The views of a sequence of log formats, element by element.
pub open spec fn formats_view(fs: Seq<LogFormat>) -> Seq<LogFormatView> {
    Seq::new(fs.len(), |i: int| fs[i]@)
}

/// One more directive in view.
pub proof fn lemma_refs_take(found: Seq<&Directive>, i: int)
    requires
        0 <= i < found.len(),
    ensures
        refs_view(found).take(i + 1).drop_last() == refs_view(found).take(i),
        refs_view(found).take(i + 1).last() == found[i]@,
        refs_view(found).take(0) == Seq::<DirectiveView>::empty(),
        refs_view(found).take(found.len() as int) == refs_view(found),
{
    assert(refs_view(found).take(i + 1).drop_last() =~= refs_view(found).take(i));
    assert(refs_view(found).take(0) =~= Seq::<DirectiveView>::empty());
    assert(refs_view(found).take(found.len() as int) =~= refs_view(found));
}

/// The access log that an `access_log` directive declares in a context.
pub fn parse_access_log(directive: &Directive, context: LogContext) -> (r: Option<AccessLog>)
    ensures
        match r {
            Some(log) => access_log_of(directive@, context@) == Some(log@),
            None => access_log_of(directive@, context@) is None,
        },
{
    let args = directive.args_as_strings();
    let ghost all = texts(directive@.args());
    if args.len() == 0 {
        return None;
    }
    if str_eq(args[0].as_str(), "off") {
        return None;
    }
    let mut log = AccessLog::new(args[0].as_str()).with_context(context);
    if args.len() > 1 {
        let second = chars_of(args[1].as_str());
        let eq = find_char(&second, '=', 0);
        if eq >= second.len() {
            log = log.with_format(args[1].as_str());
        }
    }
    let ghost base = log@;
    let mut i: usize = 2;
    if args.len() > 2 {
        assert(all.skip(2).take(0) =~= Seq::<Seq<char>>::empty());
        while i < args.len()
            invariant
                2 <= i <= args.len(),
                all == strings_view(args@),
                log@ == (AccessLogView { options: options_of(all.skip(2).take(i - 2)), ..base }),
            decreases args.len() - i,
        {
            proof {
                let next = all.skip(2).take(i - 1);
                assert(next.drop_last() =~= all.skip(2).take(i - 2));
                assert(next.last() == args@[i as int]@);
            }
            let arg = chars_of(args[i].as_str());
            let eq = find_char(&arg, '=', 0);
            if eq < arg.len() {
                let key = string_of(&arg, 0, eq);
                let value = string_of(&arg, eq + 1, arg.len());
                proof {
                    assert(arg@.subrange(0, eq as int) =~= arg@.take(eq as int));
                    assert(arg@.subrange(eq + 1, arg@.len() as int) =~= arg@.skip(eq + 1));
                }
                log = log.with_option(key.as_str(), value.as_str());
            }
            i += 1;
        }
        assert(all.skip(2).take(args.len() - 2) =~= all.skip(2));
    }
    Some(log)
}

fn push_logs(found: &Vec<&Directive>, context: &LogContext, logs: &mut Vec<AccessLog>)
    ensures
        access_logs_view(final(logs)@) == access_logs_view(old(logs)@) + logs_in(
            refs_view(found@),
            context@,
        ),
{
    let ghost start = access_logs_view(logs@);
    let ghost all = refs_view(found@);
    let mut i: usize = 0;
    proof {
        assert(all.take(0) =~= Seq::<DirectiveView>::empty());
        assert(start + Seq::<AccessLogView>::empty() =~= start);
    }
    while i < found.len()
        invariant
            i <= found.len(),
            all == refs_view(found@),
            access_logs_view(logs@) == start + logs_in(all.take(i as int), context@),
        decreases found.len() - i,
    {
        let ghost before = access_logs_view(logs@);
        proof {
            lemma_refs_take(found@, i as int);
        }
        match parse_access_log(found[i], context.clone()) {
            Some(log) => {
                let ghost view = log@;
                logs.push(log);
                proof {
                    assert(access_logs_view(logs@) =~= before.push(view));
                    assert(start + (logs_in(all.take(i as int), context@) + seq![view])
                        =~= before.push(view));
                }
            },
            None => {
                proof {
                    assert(start + (logs_in(all.take(i as int), context@) + Seq::<
                        AccessLogView,
                    >::empty()) =~= before);
                }
            },
        }
        i += 1;
    }
    proof {
        lemma_refs_take_all(found@);
    }
}

/// With every directive taken the view is whole.
pub proof fn lemma_refs_take_all(found: Seq<&Directive>)
    ensures
        refs_view(found).take(found.len() as int) == refs_view(found),
        refs_view(found).take(0) == Seq::<DirectiveView>::empty(),
{
    assert(refs_view(found).take(found.len() as int) =~= refs_view(found));
    assert(refs_view(found).take(0) =~= Seq::<DirectiveView>::empty());
}

fn get_server_name(server: &Directive) -> (r: String)
    ensures
        r@ == server_name_of(server@),
{
    let names = server.find_children("server_name");
    if names.len() > 0 {
        assert(refs_view(names@)[0] == names@[0]@);
        match names[0].first_arg() {
            Some(name) => name,
            None => "_".to_owned(),
        }
    } else {
        "_".to_owned()
    }
}

fn push_location_logs(locations: &Vec<&Directive>, logs: &mut Vec<AccessLog>)
    ensures
        access_logs_view(final(logs)@) == access_logs_view(old(logs)@) + location_logs(
            refs_view(locations@),
        ),
{
    let ghost start = access_logs_view(logs@);
    let ghost all = refs_view(locations@);
    let mut i: usize = 0;
    proof {
        lemma_refs_take_all(locations@);
        assert(start + Seq::<AccessLogView>::empty() =~= start);
    }
    while i < locations.len()
        invariant
            i <= locations.len(),
            all == refs_view(locations@),
            access_logs_view(logs@) == start + location_logs(all.take(i as int)),
        decreases locations.len() - i,
    {
        let ghost before = access_logs_view(logs@);
        proof {
            lemma_refs_take(locations@, i as int);
        }
        let location = locations[i];
        let path = match location.first_arg() {
            Some(path) => path,
            None => "/".to_owned(),
        };
        let context = LogContext::Location(path);
        let found = location.find_children("access_log");
        push_logs(&found, &context, logs);
        proof {
            let added = logs_in(refs_view(found@), context@);
            assert(start + (location_logs(all.take(i as int)) + added) =~= before + added);
        }
        i += 1;
    }
    proof {
        lemma_refs_take_all(locations@);
    }
}

/// The access logs that a configuration declares, each with its context:
/// those at the top level and directly in `http` blocks count as main, those
/// of a server go by the server's name, those of a location by its path.
pub fn access_logs(config: &Config) -> (r: Result<Vec<AccessLog>, Error>)
    ensures
        r matches Ok(logs) && access_logs_view(logs@) == access_logs_of(config@),
{
    let mut logs: Vec<AccessLog> = Vec::new();
    assert(access_logs_view(logs@) =~= Seq::<AccessLogView>::empty());
    let main = LogContext::Main;
    let top = config.find_directives("access_log");
    push_logs(&top, &main, &mut logs);
    let ghost first = access_logs_view(logs@);
    assert(first =~= logs_in(named(config@, "access_log"@), LogContextView::Main));

    let https = config.find_directives("http");
    let ghost blocks = refs_view(https@);
    let mut i: usize = 0;
    proof {
        lemma_refs_take_all(https@);
        assert(first + Seq::<AccessLogView>::empty() =~= first);
    }
    while i < https.len()
        invariant
            i <= https.len(),
            blocks == refs_view(https@),
            main@ == LogContextView::Main,
            access_logs_view(logs@) == first + block_logs(blocks.take(i as int)),
        decreases https.len() - i,
    {
        let ghost before = access_logs_view(logs@);
        proof {
            lemma_refs_take(https@, i as int);
        }
        let found = https[i].find_children("access_log");
        push_logs(&found, &main, &mut logs);
        proof {
            let added = logs_in(refs_view(found@), main@);
            assert(first + (block_logs(blocks.take(i as int)) + added) =~= before + added);
        }
        i += 1;
    }
    proof {
        lemma_refs_take_all(https@);
    }
    let ghost second = access_logs_view(logs@);

    let servers = config.find_directives_recursive("server");
    let ghost all = refs_view(servers@);
    let mut i: usize = 0;
    proof {
        lemma_refs_take_all(servers@);
        assert(second + Seq::<AccessLogView>::empty() =~= second);
    }
    while i < servers.len()
        invariant
            i <= servers.len(),
            all == refs_view(servers@),
            access_logs_view(logs@) == second + server_logs(all.take(i as int)),
        decreases servers.len() - i,
    {
        let ghost before = access_logs_view(logs@);
        proof {
            lemma_refs_take(servers@, i as int);
        }
        let server = servers[i];
        let context = LogContext::Server(get_server_name(server));
        let found = server.find_children("access_log");
        push_logs(&found, &context, &mut logs);
        let ghost own = logs_in(refs_view(found@), context@);
        let locations = server.find_recursive("location");
        push_location_logs(&locations, &mut logs);
        proof {
            let deep = location_logs(refs_view(locations@));
            assert(own + deep == logs_of_server(server@));
            assert(second + (server_logs(all.take(i as int)) + (own + deep)) =~= (before + own)
                + deep);
        }
        i += 1;
    }
    proof {
        lemma_refs_take_all(servers@);
    }
    Ok(logs)
}

/// The log format that a `log_format` directive declares.
pub fn parse_log_format(directive: &Directive) -> (r: Option<LogFormat>)
    ensures
        match r {
            Some(format) => log_format_of(directive@) == Some(format@),
            None => log_format_of(directive@) is None,
        },
{
    let args = directive.args_as_strings();
    if args.len() < 2 {
        return None;
    }
    let pattern = join_strings(args.as_slice(), 1, args.len(), " ");
    proof {
        assert(views_between(args@, 1, args@.len() as int) =~= strings_view(args@).skip(1));
    }
    Some(LogFormat::new(args[0].as_str(), pattern.as_str()))
}

/// The log formats that a configuration declares at any depth, in the order
/// of their directives.
pub fn log_formats(config: &Config) -> (r: Result<Vec<LogFormat>, Error>)
    ensures
        r matches Ok(formats) && formats_view(formats@) == formats_in(
            named_in_forest(config@, "log_format"@),
        ),
{
    let mut formats: Vec<LogFormat> = Vec::new();
    let found = config.find_directives_recursive("log_format");
    let ghost all = refs_view(found@);
    let mut i: usize = 0;
    proof {
        lemma_refs_take_all(found@);
        assert(formats_view(formats@) =~= Seq::<LogFormatView>::empty());
    }
    while i < found.len()
        invariant
            i <= found.len(),
            all == refs_view(found@),
            formats_view(formats@) == formats_in(all.take(i as int)),
        decreases found.len() - i,
    {
        let ghost before = formats_view(formats@);
        proof {
            lemma_refs_take(found@, i as int);
        }
        match parse_log_format(found[i]) {
            Some(format) => {
                let ghost view = format@;
                formats.push(format);
                proof {
                    assert(formats_view(formats@) =~= before.push(view));
                    assert(before + seq![view] =~= before.push(view));
                }
            },
            None => {
                proof {
                    assert(before + Seq::<LogFormatView>::empty() =~= before);
                }
            },
        }
        i += 1;
    }
    proof {
        lemma_refs_take_all(found@);
    }
    Ok(formats)
}

} // verus!

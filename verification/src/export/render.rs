//! What an export writes: the configuration that is left after the filter,
//! and the Markdown report.

use vstd::prelude::*;
use crate::ast::config::Config;
use crate::ast::directive::{named_in_forest, strings_view, DirectiveView};
use crate::error::{Error, ErrorView};
use crate::export::options::{ExportOptions, ExportOptionsView};
use crate::extract::servers::{servers, servers_in, servers_view};
use crate::network::plan::target_of;
use crate::text::{decimal, join_strings, join_texts, push_decimal, views_between};
use crate::types::listen::{ListenDirective, ListenView};
use crate::types::server::{Server, ServerView};

verus! {

/// The configuration that an export with these options writes out: what the
/// filter leaves, or all of it where there is no filter.
pub open spec fn exported(config: Seq<DirectiveView>, options: ExportOptionsView) -> Result<
    Seq<DirectiveView>,
    ErrorView,
> {
    match options.filter {
        Some(filter) => filter.applied(config),
        None => Ok(config),
    }
}

/// The configuration that an export with these options writes out. Fails
/// where the filter does.
pub fn prepare(config: &Config, options: &ExportOptions) -> (r: Result<Config, Error>)
    ensures
        match r {
            Ok(filtered) => exported(config@, options@) == Ok::<Seq<DirectiveView>, ErrorView>(
                filtered@,
            ),
            Err(e) => exported(config@, options@) == Err::<Seq<DirectiveView>, ErrorView>(e@),
        },
{
    match &options.filter {
        Some(filter) => filter.apply(config),
        None => Ok(config.clone()),
    }
}

/// The texts `address:port` of the listeners, in order.
pub open spec fn listen_texts(ls: Seq<ListenView>) -> Seq<Seq<char>> {
    Seq::new(ls.len(), |i: int| target_of(ls[i].address, ls[i].port))
}

/// The line on the names of a server; nothing where it has none.
pub open spec fn names_line(s: ServerView) -> Seq<char> {
    if s.server_names.len() > 0 {
        "- **Server Names**: "@ + join_texts(s.server_names, ", "@) + "\n"@
    } else {
        Seq::empty()
    }
}

/// The line on the listeners of a server; nothing where it has none.
pub open spec fn listen_line(s: ServerView) -> Seq<char> {
    if s.listen.len() > 0 {
        "- **Listen**: "@ + join_texts(listen_texts(s.listen), ", "@) + "\n"@
    } else {
        Seq::empty()
    }
}

/// The line on the root of a server; nothing where it has none.
pub open spec fn root_line(s: ServerView) -> Seq<char> {
    match s.root {
        Some(root) => "- **Root**: "@ + root + "\n"@,
        None => Seq::empty(),
    }
}

/// The section of the report on one server, which is the `number`th.
pub open spec fn server_section(number: nat, s: ServerView) -> Seq<char> {
    "#### Server "@ + decimal(number) + "\n\n"@ + names_line(s) + listen_line(s) + root_line(s)
        + "\n"@
}

/// The sections on the first `upto` servers.
pub open spec fn server_sections(servers: Seq<ServerView>, upto: int) -> Seq<char>
    decreases upto,
{
    if upto <= 0 {
        Seq::empty()
    } else {
        server_sections(servers, upto - 1) + server_section(upto as nat, servers[upto - 1])
    }
}

/// The part of the report on metadata.
pub open spec fn metadata_part(generated: Seq<char>, directives: nat) -> Seq<char> {
    "## Metadata\n\n- **Generated**: "@ + generated + "\n- **Directives**: "@ + decimal(directives)
        + "\n\n"@
}

/// The part of the report on servers; nothing where there is no server.
pub open spec fn servers_part(servers: Seq<ServerView>) -> Seq<char> {
    if servers.len() == 0 {
        Seq::empty()
    } else {
        "### Servers ("@ + decimal(servers.len()) + " total)\n\n"@ + server_sections(
            servers,
            servers.len() as int,
        )
    }
}

/// The end of the report: upstreams and streams, which are not read yet.
pub open spec fn closing_part() -> Seq<char> {
    "### Upstreams\n\n_Upstream extraction coming in next version_\n\n## Stream Configuration\n\n_Stream configuration support coming in next version_\n\n"@
}

/// The Markdown report on a configuration: a title, the metadata where they
/// are asked for, with `generated` as the time of the report, the servers,
/// and the parts that are not read yet.
pub open spec fn markdown_of(config: Seq<DirectiveView>, metadata: bool, generated: Seq<char>)
    -> Seq<char> {
    "# NGINX Configuration Report\n\n"@ + (if metadata {
        metadata_part(generated, config.len())
    } else {
        Seq::empty()
    }) + "## HTTP Configuration\n\n"@ + servers_part(
        servers_in(named_in_forest(config, "server"@)),
    ) + closing_part()
}

fn listen_strings(listen: &Vec<ListenDirective>) -> (r: Vec<String>)
    ensures
        strings_view(r@) == listen_texts(crate::types::server::listens_view(listen@)),
{
    let mut out: Vec<String> = Vec::new();
    let mut i: usize = 0;
    while i < listen.len()
        invariant
            i <= listen.len(),
            out.len() == i,
            forall|j: int|
                0 <= j < i ==> (#[trigger] out[j])@ == target_of(listen[j]@.address, listen[j].port),
        decreases listen.len() - i,
    {
        out.push(crate::network::plan::target_text(listen[i].address.as_str(), listen[i].port));
        i += 1;
    }
    assert(strings_view(out@) =~= listen_texts(crate::types::server::listens_view(listen@)));
    out
}

fn push_names_line(out: &mut String, server: &Server)
    ensures
        final(out)@ == old(out)@ + names_line(server@),
{
    if server.server_names.len() > 0 {
        out.append("- **Server Names**: ");
        let names = join_strings(server.server_names.as_slice(), 0, server.server_names.len(), ", ");
        proof {
            assert(views_between(server.server_names@, 0, server.server_names@.len() as int)
                =~= server@.server_names);
        }
        out.append(names.as_str());
        out.append("\n");
        assert(out@ =~= old(out)@ + names_line(server@));
    } else {
        assert(out@ =~= old(out)@ + names_line(server@));
    }
}

fn push_listen_line(out: &mut String, server: &Server)
    ensures
        final(out)@ == old(out)@ + listen_line(server@),
{
    if server.listen.len() > 0 {
        out.append("- **Listen**: ");
        let texts = listen_strings(&server.listen);
        let joined = join_strings(texts.as_slice(), 0, texts.len(), ", ");
        proof {
            assert(views_between(texts@, 0, texts@.len() as int) =~= listen_texts(server@.listen));
        }
        out.append(joined.as_str());
        out.append("\n");
        assert(out@ =~= old(out)@ + listen_line(server@));
    } else {
        assert(out@ =~= old(out)@ + listen_line(server@));
    }
}

fn push_root_line(out: &mut String, server: &Server)
    ensures
        final(out)@ == old(out)@ + root_line(server@),
{
    if let Some(root) = &server.root {
        out.append("- **Root**: ");
        out.append(root.as_str());
        out.append("\n");
        assert(out@ =~= old(out)@ + root_line(server@));
    } else {
        assert(out@ =~= old(out)@ + root_line(server@));
    }
}

fn push_server_section(out: &mut String, number: usize, server: &Server)
    ensures
        final(out)@ == old(out)@ + server_section(number as nat, server@),
{
    out.append("#### Server ");
    push_decimal(out, number);
    out.append("\n\n");
    let ghost head = out@;
    assert(head =~= old(out)@ + ("#### Server "@ + decimal(number as nat) + "\n\n"@));
    push_names_line(out, server);
    push_listen_line(out, server);
    push_root_line(out, server);
    out.append("\n");
    assert(out@ =~= head + (names_line(server@) + listen_line(server@) + root_line(server@)
        + "\n"@));
    assert(out@ =~= old(out)@ + server_section(number as nat, server@));
}

/// The Markdown report on a configuration; `generated` is the time of the
/// report, which is written where metadata are asked for.
pub fn render_markdown(config: &Config, metadata: bool, generated: &str) -> (r: String)
    ensures
        r@ == markdown_of(config@, metadata, generated@),
{
    let mut out = String::from_str("# NGINX Configuration Report\n\n");
    if metadata {
        out.append("## Metadata\n\n- **Generated**: ");
        out.append(generated);
        out.append("\n- **Directives**: ");
        push_decimal(&mut out, config.directives.len());
        out.append("\n\n");
    }
    out.append("## HTTP Configuration\n\n");
    let ghost head = out@;
    assert(head =~= "# NGINX Configuration Report\n\n"@ + (if metadata {
        metadata_part(generated@, config@.len())
    } else {
        Seq::empty()
    }) + "## HTTP Configuration\n\n"@);
    let found = match servers(config) {
        Ok(found) => found,
        Err(_) => Vec::new(),
    };
    let ghost views = servers_view(found@);
    if found.len() > 0 {
        out.append("### Servers (");
        push_decimal(&mut out, found.len());
        out.append(" total)\n\n");
        let ghost title = out@;
        let mut i: usize = 0;
        assert(title + server_sections(views, 0) =~= title);
        while i < found.len()
            invariant
                i <= found.len(),
                views == servers_view(found@),
                out@ == title + server_sections(views, i as int),
            decreases found.len() - i,
        {
            let ghost before = out@;
            push_server_section(&mut out, i + 1, &found[i]);
            assert(out@ =~= title + (server_sections(views, i as int) + server_section(
                (i + 1) as nat,
                views[i as int],
            )));
            i += 1;
        }
        assert(out@ =~= head + servers_part(views));
    } else {
        assert(out@ =~= head + servers_part(views));
    }
    let ghost body = out@;
    out.append(
        "### Upstreams\n\n_Upstream extraction coming in next version_\n\n## Stream Configuration\n\n_Stream configuration support coming in next version_\n\n",
    );
    assert(out@ =~= body + closing_part());
    assert(out@ =~= markdown_of(config@, metadata, generated@));
    out
}

} // verus!

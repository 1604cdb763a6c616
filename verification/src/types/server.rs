//! Server blocks.

use vstd::prelude::*;
use crate::ast::directive::strings_view;
use crate::error::opt_view;
use crate::text::clone_strings;
use crate::types::access_log::{AccessLog, AccessLogView};
use crate::types::error_log::{ErrorLog, ErrorLogView};
use crate::types::listen::{ListenDirective, ListenView};
use crate::types::location::{access_logs_view, clone_access_logs, Location, LocationView};

verus! {

/// A server block.
#[derive(Debug, PartialEq)]
pub struct Server {
    /// The names of the server.
    pub server_names: Vec<String>,
    /// What the server listens on.
    pub listen: Vec<ListenDirective>,
    /// The root directory, if one is set.
    pub root: Option<String>,
    /// The locations of the server.
    pub locations: Vec<Location>,
    /// The access logs declared in the server.
    pub access_logs: Vec<AccessLog>,
    /// The error logs declared in the server.
    pub error_logs: Vec<ErrorLog>,
    /// The index files.
    pub index: Vec<String>,
}

/// The mathematical value of a [`Server`].
pub struct ServerView {
    pub server_names: Seq<Seq<char>>,
    pub listen: Seq<ListenView>,
    pub root: Option<Seq<char>>,
    pub locations: Seq<LocationView>,
    pub access_logs: Seq<AccessLogView>,
    pub error_logs: Seq<ErrorLogView>,
    pub index: Seq<Seq<char>>,
}

/// The views of a sequence of listeners, element by element.
pub open spec fn listens_view(ls: Seq<ListenDirective>) -> Seq<ListenView> {
    Seq::new(ls.len(), |i: int| ls[i]@)
}

/// The views of a sequence of locations, element by element.
pub open spec fn locations_view(ls: Seq<Location>) -> Seq<LocationView> {
    Seq::new(ls.len(), |i: int| ls[i]@)
}

/// The views of a sequence of error logs, element by element.
pub open spec fn error_logs_view(ls: Seq<ErrorLog>) -> Seq<ErrorLogView> {
    Seq::new(ls.len(), |i: int| ls[i]@)
}

impl View for Server {
    type V = ServerView;

    open spec fn view(&self) -> ServerView {
        ServerView {
            server_names: strings_view(self.server_names@),
            listen: listens_view(self.listen@),
            root: opt_view(self.root),
            locations: locations_view(self.locations@),
            access_logs: access_logs_view(self.access_logs@),
            error_logs: error_logs_view(self.error_logs@),
            index: strings_view(self.index@),
        }
    }
}

impl ServerView {
    /// A server that declares nothing.
    pub open spec fn empty() -> ServerView {
        ServerView {
            server_names: Seq::empty(),
            listen: Seq::empty(),
            root: None,
            locations: Seq::empty(),
            access_logs: Seq::empty(),
            error_logs: Seq::empty(),
            index: Seq::empty(),
        }
    }

    /// Whether some listener has SSL on.
    pub open spec fn has_ssl(self) -> bool {
        exists|i: int| 0 <= i < self.listen.len() && (#[trigger] self.listen[i]).ssl
    }

    /// Whether some listener is marked as the default server.
    pub open spec fn is_default_server(self) -> bool {
        exists|i: int| 0 <= i < self.listen.len() && (#[trigger] self.listen[i]).default_server
    }
}

impl Clone for Server {
    fn clone(&self) -> (r: Server)
        ensures
            r@ == self@,
    {
        let mut listen: Vec<ListenDirective> = Vec::new();
        let mut i: usize = 0;
        while i < self.listen.len()
            invariant
                i <= self.listen.len(),
                listen.len() == i,
                forall|j: int| 0 <= j < i ==> (#[trigger] listen[j])@ == self.listen[j]@,
            decreases self.listen.len() - i,
        {
            listen.push(self.listen[i].clone());
            i += 1;
        }
        let mut locations: Vec<Location> = Vec::new();
        let mut i: usize = 0;
        while i < self.locations.len()
            invariant
                i <= self.locations.len(),
                locations.len() == i,
                forall|j: int| 0 <= j < i ==> (#[trigger] locations[j])@ == self.locations[j]@,
            decreases self.locations.len() - i,
        {
            locations.push(self.locations[i].clone());
            i += 1;
        }
        let mut error_logs: Vec<ErrorLog> = Vec::new();
        let mut i: usize = 0;
        while i < self.error_logs.len()
            invariant
                i <= self.error_logs.len(),
                error_logs.len() == i,
                forall|j: int| 0 <= j < i ==> (#[trigger] error_logs[j])@ == self.error_logs[j]@,
            decreases self.error_logs.len() - i,
        {
            error_logs.push(self.error_logs[i].clone());
            i += 1;
        }
        let r = Server {
            server_names: clone_strings(&self.server_names),
            listen,
            root: match &self.root {
                Some(s) => Some(s.clone()),
                None => None,
            },
            locations,
            access_logs: clone_access_logs(&self.access_logs),
            error_logs,
            index: clone_strings(&self.index),
        };
        assert(r@.listen =~= self@.listen);
        assert(r@.locations =~= self@.locations);
        assert(r@.error_logs =~= self@.error_logs);
        r
    }
}

impl Default for Server {
    fn default() -> (r: Server)
        ensures
            r@ == ServerView::empty(),
    {
        Server::new()
    }
}

impl Server {
    /// A server that declares nothing.
    pub fn new() -> (r: Server)
        ensures
            r@ == ServerView::empty(),
    {
        let r = Server {
            server_names: Vec::new(),
            listen: Vec::new(),
            root: None,
            locations: Vec::new(),
            access_logs: Vec::new(),
            error_logs: Vec::new(),
            index: Vec::new(),
        };
        assert(r@.server_names =~= Seq::<Seq<char>>::empty());
        assert(r@.listen =~= Seq::<ListenView>::empty());
        assert(r@.locations =~= Seq::<LocationView>::empty());
        assert(r@.access_logs =~= Seq::<AccessLogView>::empty());
        assert(r@.error_logs =~= Seq::<ErrorLogView>::empty());
        assert(r@.index =~= Seq::<Seq<char>>::empty());
        r
    }

    /// The same server with one more name.
    pub fn with_server_name(self, name: &str) -> (r: Server)
        ensures
            r@ == (ServerView { server_names: self@.server_names.push(name@), ..self@ }),
    {
        let mut server = self;
        server.server_names.push(name.to_owned());
        assert(server@.server_names =~= self@.server_names.push(name@));
        server
    }

    /// The same server with one more listener.
    pub fn with_listen(self, listen: ListenDirective) -> (r: Server)
        ensures
            r@ == (ServerView { listen: self@.listen.push(listen@), ..self@ }),
    {
        let mut server = self;
        server.listen.push(listen);
        assert(server@.listen =~= self@.listen.push(listen@));
        server
    }

    /// The same server with the root directory set.
    pub fn with_root(self, root: &str) -> (r: Server)
        ensures
            r@ == (ServerView { root: Some(root@), ..self@ }),
    {
        let mut server = self;
        server.root = Some(root.to_owned());
        server
    }

    /// Whether some listener has SSL on.
    pub fn has_ssl(&self) -> (r: bool)
        ensures
            r == self@.has_ssl(),
    {
        let mut i: usize = 0;
        while i < self.listen.len()
            invariant
                i <= self.listen.len(),
                forall|j: int| 0 <= j < i ==> !(#[trigger] self@.listen[j]).ssl,
            decreases self.listen.len() - i,
        {
            if self.listen[i].ssl {
                assert(self@.listen[i as int].ssl);
                return true;
            }
            i += 1;
        }
        false
    }

    /// Whether some listener is marked as the default server.
    pub fn is_default_server(&self) -> (r: bool)
        ensures
            r == self@.is_default_server(),
    {
        let mut i: usize = 0;
        while i < self.listen.len()
            invariant
                i <= self.listen.len(),
                forall|j: int| 0 <= j < i ==> !(#[trigger] self@.listen[j]).default_server,
            decreases self.listen.len() - i,
        {
            if self.listen[i].default_server {
                assert(self@.listen[i as int].default_server);
                return true;
            }
            i += 1;
        }
        false
    }

    /// The first name of the server, if it has one.
    pub fn primary_name(&self) -> (r: Option<&str>)
        ensures
            match r {
                Some(name) => self@.server_names.len() > 0 && name@ == self@.server_names[0],
                None => self@.server_names.len() == 0,
            },
    {
        if self.server_names.len() > 0 {
            Some(self.server_names[0].as_str())
        } else {
            None
        }
    }

    /// The same server with one more index file.
    pub fn with_index(self, index: &str) -> (r: Server)
        ensures
            r@ == (ServerView { index: self@.index.push(index@), ..self@ }),
    {
        let mut server = self;
        server.index.push(index.to_owned());
        assert(server@.index =~= self@.index.push(index@));
        server
    }

    /// The same server with one more location.
    pub fn with_location(self, location: Location) -> (r: Server)
        ensures
            r@ == (ServerView { locations: self@.locations.push(location@), ..self@ }),
    {
        let mut server = self;
        server.locations.push(location);
        assert(server@.locations =~= self@.locations.push(location@));
        server
    }
}

} // verus!

//! Location blocks and the modifiers of their paths.

use vstd::prelude::*;
use crate::ast::directive::strings_view;
use crate::error::opt_view;
use crate::text::str_eq;
use crate::types::access_log::{AccessLog, AccessLogView};

verus! {

/// How the path of a location is matched.
#[derive(Debug, Clone, Copy, PartialEq, Eq, Structural)]
pub enum LocationModifier {
    /// No modifier: a prefix match.
    Prefix,
    /// `=`: an exact match.
    Exact,
    /// `^~`: a prefix match that takes priority over regular expressions.
    PrefixPriority,
    /// `~`: a regular expression, case-sensitive.
    Regex,
    /// `~*`: a regular expression, case-insensitive.
    RegexCaseInsensitive,
}

/// The text at index 1 of `args`, or `default` where there is none.
pub open spec fn second_or(args: Seq<Seq<char>>, default: Seq<char>) -> Seq<char> {
    if args.len() > 1 {
        args[1]
    } else {
        default
    }
}

/// Modifier and path that the arguments of a `location` stand for.
///
/// Without arguments the location is `/`. A first argument that is a
/// modifier is followed by the path, `/` where it is missing, or by the
/// pattern, empty where it is missing. Any other first argument is the path.
pub open spec fn location_of(args: Seq<Seq<char>>) -> (LocationModifier, Seq<char>) {
    if args.len() == 0 {
        (LocationModifier::Prefix, "/"@)
    } else if args[0] == "="@ {
        (LocationModifier::Exact, second_or(args, "/"@))
    } else if args[0] == "^~"@ {
        (LocationModifier::PrefixPriority, second_or(args, "/"@))
    } else if args[0] == "~"@ {
        (LocationModifier::Regex, second_or(args, ""@))
    } else if args[0] == "~*"@ {
        (LocationModifier::RegexCaseInsensitive, second_or(args, ""@))
    } else {
        (LocationModifier::Prefix, args[0])
    }
}

fn second_or_default(args: &[String], default: &str) -> (r: String)
    ensures
        r@ == second_or(strings_view(args@), default@),
{
    if args.len() > 1 {
        args[1].clone()
    } else {
        default.to_owned()
    }
}

impl LocationModifier {
    /// Modifier and path that the arguments of a `location` stand for.
    pub fn from_args(args: &[String]) -> (r: (LocationModifier, String))
        ensures
            (r.0, r.1@) == location_of(strings_view(args@)),
    {
        if args.len() == 0 {
            return (LocationModifier::Prefix, "/".to_owned());
        }
        let first = args[0].as_str();
        if str_eq(first, "=") {
            (LocationModifier::Exact, second_or_default(args, "/"))
        } else if str_eq(first, "^~") {
            (LocationModifier::PrefixPriority, second_or_default(args, "/"))
        } else if str_eq(first, "~") {
            (LocationModifier::Regex, second_or_default(args, ""))
        } else if str_eq(first, "~*") {
            (LocationModifier::RegexCaseInsensitive, second_or_default(args, ""))
        } else {
            (LocationModifier::Prefix, args[0].clone())
        }
    }
}

/// A location block.
#[derive(Debug, PartialEq)]
pub struct Location {
    /// The path or pattern.
    pub path: String,
    /// How the path is matched.
    pub modifier: LocationModifier,
    /// The root directory, if one is set.
    pub root: Option<String>,
    /// The upstream that requests are passed to, if any.
    pub proxy_pass: Option<String>,
    /// The access logs declared in the location.
    pub access_logs: Vec<AccessLog>,
}

/// The mathematical value of a [`Location`].
pub struct LocationView {
    pub path: Seq<char>,
    pub modifier: LocationModifier,
    pub root: Option<Seq<char>>,
    pub proxy_pass: Option<Seq<char>>,
    pub access_logs: Seq<AccessLogView>,
}

/// The views of a sequence of access logs, element by element.
pub open spec fn access_logs_view(logs: Seq<AccessLog>) -> Seq<AccessLogView> {
    Seq::new(logs.len(), |i: int| logs[i]@)
}

impl View for Location {
    type V = LocationView;

    open spec fn view(&self) -> LocationView {
        LocationView {
            path: self.path@,
            modifier: self.modifier,
            root: opt_view(self.root),
            proxy_pass: opt_view(self.proxy_pass),
            access_logs: access_logs_view(self.access_logs@),
        }
    }
}

/// A copy of each access log, in order.
pub fn clone_access_logs(logs: &Vec<AccessLog>) -> (r: Vec<AccessLog>)
    ensures
        access_logs_view(r@) == access_logs_view(logs@),
{
    let mut out: Vec<AccessLog> = Vec::new();
    let mut i: usize = 0;
    while i < logs.len()
        invariant
            i <= logs.len(),
            out.len() == i,
            forall|j: int| 0 <= j < i ==> (#[trigger] out[j])@ == logs[j]@,
        decreases logs.len() - i,
    {
        out.push(logs[i].clone());
        i += 1;
    }
    assert(access_logs_view(out@) =~= access_logs_view(logs@));
    out
}

impl Clone for Location {
    fn clone(&self) -> (r: Location)
        ensures
            r@ == self@,
    {
        Location {
            path: self.path.clone(),
            modifier: self.modifier,
            root: match &self.root {
                Some(s) => Some(s.clone()),
                None => None,
            },
            proxy_pass: match &self.proxy_pass {
                Some(s) => Some(s.clone()),
                None => None,
            },
            access_logs: clone_access_logs(&self.access_logs),
        }
    }
}

impl Location {
    /// A location with the given path and modifier and nothing else.
    pub fn new(path: &str, modifier: LocationModifier) -> (r: Location)
        ensures
            r@ == (LocationView {
                path: path@,
                modifier,
                root: None,
                proxy_pass: None,
                access_logs: Seq::empty(),
            }),
    {
        let r = Location {
            path: path.to_owned(),
            modifier,
            root: None,
            proxy_pass: None,
            access_logs: Vec::new(),
        };
        assert(r@.access_logs =~= Seq::<AccessLogView>::empty());
        r
    }

    /// Whether requests are passed to an upstream.
    pub fn is_proxy(&self) -> (r: bool)
        ensures
            r == self@.proxy_pass is Some,
    {
        self.proxy_pass.is_some()
    }

    /// Whether files are served: a root is set and nothing is passed on.
    pub fn is_static(&self) -> (r: bool)
        ensures
            r == (self@.root is Some && self@.proxy_pass is None),
    {
        self.root.is_some() && self.proxy_pass.is_none()
    }
}

} // verus!

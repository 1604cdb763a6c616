//! Access logs and the context a log is declared in.

use vstd::prelude::*;
use crate::error::opt_view;
use crate::text::str_eq;

verus! {

/// Where in a configuration a log is declared.
#[derive(Debug, PartialEq, Eq)]
pub enum LogContext {
    /// At the top level or in the `http` block.
    Main,
    /// In a `server` block, by the server's name.
    Server(String),
    /// In a `location` block, by the location's path.
    Location(String),
}

/// The mathematical value of a [`LogContext`].
pub enum LogContextView {
    Main,
    Server(Seq<char>),
    Location(Seq<char>),
}

impl View for LogContext {
    type V = LogContextView;

    open spec fn view(&self) -> LogContextView {
        match self {
            LogContext::Main => LogContextView::Main,
            LogContext::Server(s) => LogContextView::Server(s@),
            LogContext::Location(s) => LogContextView::Location(s@),
        }
    }
}

impl Clone for LogContext {
    fn clone(&self) -> (r: LogContext)
        ensures
            r@ == self@,
    {
        match self {
            LogContext::Main => LogContext::Main,
            LogContext::Server(s) => LogContext::Server(s.clone()),
            LogContext::Location(s) => LogContext::Location(s.clone()),
        }
    }
}

/// The map that a sequence of key and value pairs stands for: a later pair
/// takes the place of an earlier one with the same key.
pub open spec fn map_of(entries: Seq<(String, String)>) -> Map<Seq<char>, Seq<char>>
    decreases entries.len(),
{
    if entries.len() == 0 {
        Map::empty()
    } else {
        map_of(entries.drop_last()).insert(entries.last().0@, entries.last().1@)
    }
}

/// Whether the pair at `at` is the last one of `entries` with the key `key`.
pub open spec fn last_with_key(entries: Seq<(String, String)>, key: Seq<char>, at: int) -> bool {
    &&& 0 <= at < entries.len()
    &&& entries[at].0@ == key
    &&& forall|j: int| at < j < entries.len() ==> (#[trigger] entries[j]).0@ != key
}

/// The last pair with a key holds what the map holds for that key.
pub proof fn lemma_map_of_found(entries: Seq<(String, String)>, key: Seq<char>, at: int)
    requires
        last_with_key(entries, key, at),
    ensures
        map_of(entries).contains_key(key),
        map_of(entries)[key] == entries[at].1@,
    decreases entries.len(),
{
    if at < entries.len() - 1 {
        assert(entries.drop_last()[at] == entries[at]);
        assert forall|j: int| at < j < entries.drop_last().len() implies (
        #[trigger] entries.drop_last()[j]).0@ != key by {
            assert(entries.drop_last()[j] == entries[j]);
        }
        lemma_map_of_found(entries.drop_last(), key, at);
    }
}

/// A key that no pair has is not in the map.
pub proof fn lemma_map_of_missing(entries: Seq<(String, String)>, key: Seq<char>)
    requires
        forall|j: int| 0 <= j < entries.len() ==> (#[trigger] entries[j]).0@ != key,
    ensures
        !map_of(entries).contains_key(key),
    decreases entries.len(),
{
    if entries.len() > 0 {
        assert forall|j: int| 0 <= j < entries.drop_last().len() implies (
        #[trigger] entries.drop_last()[j]).0@ != key by {
            assert(entries.drop_last()[j] == entries[j]);
        }
        lemma_map_of_missing(entries.drop_last(), key);
    }
}

/// A new value in the last pair with a key is a new value for that key.
pub proof fn lemma_map_of_update(entries: Seq<(String, String)>, at: int, pair: (String, String))
    requires
        last_with_key(entries, pair.0@, at),
    ensures
        map_of(entries.update(at, pair)) == map_of(entries).insert(pair.0@, pair.1@),
    decreases entries.len(),
{
    let updated = entries.update(at, pair);
    if at == entries.len() - 1 {
        assert(updated.drop_last() =~= entries.drop_last());
        assert(map_of(updated) =~= map_of(entries).insert(pair.0@, pair.1@));
    } else {
        assert(entries.drop_last()[at] == entries[at]);
        assert forall|j: int| at < j < entries.drop_last().len() implies (
        #[trigger] entries.drop_last()[j]).0@ != pair.0@ by {
            assert(entries.drop_last()[j] == entries[j]);
        }
        lemma_map_of_update(entries.drop_last(), at, pair);
        assert(updated.drop_last() =~= entries.drop_last().update(at, pair));
        assert(updated.last() == entries.last());
        assert(entries.last().0@ != pair.0@);
        assert(map_of(updated) =~= map_of(entries).insert(pair.0@, pair.1@));
    }
}

/// The options of a log: values by their keys.
#[derive(Debug, PartialEq, Eq)]
pub struct LogOptions {
    /// The pairs of key and value, in the order the keys were first set.
    entries: Vec<(String, String)>,
}

impl View for LogOptions {
    type V = Map<Seq<char>, Seq<char>>;

    closed spec fn view(&self) -> Map<Seq<char>, Seq<char>> {
        map_of(self.entries@)
    }
}

impl LogOptions {
    /// No options.
    pub fn new() -> (r: LogOptions)
        ensures
            r@ == Map::<Seq<char>, Seq<char>>::empty(),
    {
        LogOptions { entries: Vec::new() }
    }

    fn position(&self, key: &str) -> (r: Option<usize>)
        ensures
            match r {
                Some(at) => last_with_key(self.entries@, key@, at as int),
                None => forall|j: int|
                    0 <= j < self.entries@.len() ==> (#[trigger] self.entries@[j]).0@ != key@,
            },
    {
        let mut i: usize = self.entries.len();
        while i > 0
            invariant
                i <= self.entries.len(),
                forall|j: int| i <= j < self.entries@.len() ==> (#[trigger] self.entries@[j]).0@
                    != key@,
            decreases i,
        {
            if str_eq(self.entries[i - 1].0.as_str(), key) {
                return Some(i - 1);
            }
            i -= 1;
        }
        None
    }

    /// The value set for `key`, if any.
    pub fn get(&self, key: &str) -> (r: Option<&String>)
        ensures
            match r {
                Some(value) => self@.contains_key(key@) && self@[key@] == value@,
                None => !self@.contains_key(key@),
            },
    {
        match self.position(key) {
            Some(at) => {
                proof {
                    lemma_map_of_found(self.entries@, key@, at as int);
                }
                Some(&self.entries[at].1)
            },
            None => {
                proof {
                    lemma_map_of_missing(self.entries@, key@);
                }
                None
            },
        }
    }

    /// Whether a value is set for `key`.
    pub fn contains_key(&self, key: &str) -> (r: bool)
        ensures
            r == self@.contains_key(key@),
    {
        self.get(key).is_some()
    }

    /// Whether no option is set.
    pub fn is_empty(&self) -> (r: bool)
        ensures
            r == (self@ == Map::<Seq<char>, Seq<char>>::empty()),
    {
        proof {
            if self.entries@.len() > 0 {
                assert(map_of(self.entries@).contains_key(self.entries@.last().0@));
            }
        }
        self.entries.len() == 0
    }

    /// The options as pairs of key and value, which stand for the same map.
    pub fn pairs(&self) -> (r: Vec<(String, String)>)
        ensures
            map_of(r@) == self@,
    {
        let mut out: Vec<(String, String)> = Vec::new();
        let mut i: usize = 0;
        while i < self.entries.len()
            invariant
                i <= self.entries.len(),
                out@ == self.entries@.take(i as int),
            decreases self.entries.len() - i,
        {
            out.push((self.entries[i].0.clone(), self.entries[i].1.clone()));
            assert(self.entries@.take(i + 1) =~= self.entries@.take(i as int).push(
                self.entries@[i as int],
            ));
            i += 1;
        }
        assert(self.entries@.take(i as int) =~= self.entries@);
        out
    }

    /// Sets the value for `key`, in place of the one it had, if any.
    pub fn insert(&mut self, key: String, value: String)
        ensures
            final(self)@ == old(self)@.insert(key@, value@),
    {
        match self.position(key.as_str()) {
            Some(at) => {
                proof {
                    lemma_map_of_update(self.entries@, at as int, (key, value));
                }
                self.entries.set(at, (key, value));
            },
            None => {
                proof {
                    assert(self.entries@.push((key, value)).drop_last() =~= self.entries@);
                }
                self.entries.push((key, value));
            },
        }
    }
}

impl Clone for LogOptions {
    fn clone(&self) -> (r: LogOptions)
        ensures
            r@ == self@,
    {
        let mut entries: Vec<(String, String)> = Vec::new();
        let mut i: usize = 0;
        while i < self.entries.len()
            invariant
                i <= self.entries.len(),
                entries@ == self.entries@.take(i as int),
            decreases self.entries.len() - i,
        {
            entries.push((self.entries[i].0.clone(), self.entries[i].1.clone()));
            assert(self.entries@.take(i + 1) =~= self.entries@.take(i as int).push(
                self.entries@[i as int],
            ));
            i += 1;
        }
        assert(self.entries@.take(i as int) =~= self.entries@);
        LogOptions { entries }
    }
}

/// An access log: where it is written, in which format, and with which
/// options.
#[derive(Debug, PartialEq)]
pub struct AccessLog {
    /// The path of the log file.
    pub path: String,
    /// The name of the log format, if one is given.
    pub format_name: Option<String>,
    /// The options, such as `buffer` or `gzip`.
    pub options: LogOptions,
    /// Where the log is declared.
    pub context: LogContext,
}

/// The mathematical value of an [`AccessLog`].
pub struct AccessLogView {
    pub path: Seq<char>,
    pub format_name: Option<Seq<char>>,
    pub options: Map<Seq<char>, Seq<char>>,
    pub context: LogContextView,
}

impl View for AccessLog {
    type V = AccessLogView;

    open spec fn view(&self) -> AccessLogView {
        AccessLogView {
            path: self.path@,
            format_name: opt_view(self.format_name),
            options: self.options@,
            context: self.context@,
        }
    }
}

impl Clone for AccessLog {
    fn clone(&self) -> (r: AccessLog)
        ensures
            r@ == self@,
    {
        AccessLog {
            path: self.path.clone(),
            format_name: match &self.format_name {
                Some(s) => Some(s.clone()),
                None => None,
            },
            options: self.options.clone(),
            context: self.context.clone(),
        }
    }
}

impl AccessLog {
    /// An access log at `path`, in the main context, without format or
    /// options.
    pub fn new(path: &str) -> (r: AccessLog)
        ensures
            r@ == (AccessLogView {
                path: path@,
                format_name: None,
                options: Map::empty(),
                context: LogContextView::Main,
            }),
    {
        AccessLog {
            path: path.to_owned(),
            format_name: None,
            options: LogOptions::new(),
            context: LogContext::Main,
        }
    }

    /// The same log with the format name set.
    pub fn with_format(self, format: &str) -> (r: AccessLog)
        ensures
            r@ == (AccessLogView { format_name: Some(format@), ..self@ }),
    {
        let mut log = self;
        log.format_name = Some(format.to_owned());
        log
    }

    /// The same log in another context.
    pub fn with_context(self, context: LogContext) -> (r: AccessLog)
        ensures
            r@ == (AccessLogView { context: context@, ..self@ }),
    {
        let mut log = self;
        log.context = context;
        log
    }

    /// The same log with one more option, or with a new value for it.
    pub fn with_option(self, key: &str, value: &str) -> (r: AccessLog)
        ensures
            r@ == (AccessLogView { options: self@.options.insert(key@, value@), ..self@ }),
    {
        let mut log = self;
        log.options.insert(key.to_owned(), value.to_owned());
        log
    }
}

} // verus!

//! Filters that narrow a configuration before it is exported.

use vstd::prelude::*;
use crate::ast::config::Config;
use crate::ast::directive::{
    directives_view, lemma_view_take_ends, lemma_view_take_next, named, Directive, DirectiveView,
};
use crate::error::{Error, ErrorView};
use crate::text::{
    chars_of, find_char, first_where, is_char, lowercase_of, parse_unsigned, str_eq, string_of,
    to_lowercase, unsigned_of,
};

verus! {

/// What a filter selects by.
#[derive(Debug, Clone, Copy, PartialEq, Eq, Structural)]
pub enum FilterType {
    /// By server name.
    ServerName,
    /// By listen port.
    Port,
    /// By upstream name.
    Upstream,
    /// By location path.
    Location,
    /// Servers with SSL only.
    SslOnly,
    /// By directive name.
    Directive,
}

/// A filter: what it selects by, and the pattern it selects.
#[derive(Debug)]
pub struct Filter {
    /// What the filter selects by.
    pub filter_type: FilterType,
    /// The pattern to match.
    pub pattern: String,
}

/// The mathematical value of a [`Filter`].
pub struct FilterView {
    pub filter_type: FilterType,
    pub pattern: Seq<char>,
}

impl View for Filter {
    type V = FilterView;

    open spec fn view(&self) -> FilterView {
        FilterView { filter_type: self.filter_type, pattern: self.pattern@ }
    }
}

impl Clone for Filter {
    fn clone(&self) -> (r: Filter)
        ensures
            r@ == self@,
    {
        Filter { filter_type: self.filter_type, pattern: self.pattern.clone() }
    }
}

impl FilterType {
    /// The name of the variant.
    pub open spec fn name_text(self) -> Seq<char> {
        match self {
            FilterType::ServerName => "ServerName"@,
            FilterType::Port => "Port"@,
            FilterType::Upstream => "Upstream"@,
            FilterType::Location => "Location"@,
            FilterType::SslOnly => "SslOnly"@,
            FilterType::Directive => "Directive"@,
        }
    }

    /// The filter type that a lower-case name stands for, if any.
    pub open spec fn named(lower: Seq<char>) -> Option<FilterType> {
        if lower == "server_name"@ || lower == "server"@ {
            Some(FilterType::ServerName)
        } else if lower == "port"@ {
            Some(FilterType::Port)
        } else if lower == "upstream"@ {
            Some(FilterType::Upstream)
        } else if lower == "location"@ {
            Some(FilterType::Location)
        } else if lower == "ssl"@ || lower == "ssl_only"@ {
            Some(FilterType::SslOnly)
        } else if lower == "directive"@ {
            Some(FilterType::Directive)
        } else {
            None
        }
    }

    fn name(self) -> (r: &'static str)
        ensures
            r@ == self.name_text(),
    {
        match self {
            FilterType::ServerName => "ServerName",
            FilterType::Port => "Port",
            FilterType::Upstream => "Upstream",
            FilterType::Location => "Location",
            FilterType::SslOnly => "SslOnly",
            FilterType::Directive => "Directive",
        }
    }
}

impl FilterView {
    /// What the filter makes of a configuration.
    ///
    /// A directive filter keeps the top-level directives that bear the
    /// pattern as their name. A port filter asks for a port number and, like
    /// the filters by server name and by SSL, keeps everything. The filters by
    /// upstream and by location are not implemented.
    pub open spec fn applied(self, config: Seq<DirectiveView>) -> Result<
        Seq<DirectiveView>,
        ErrorView,
    > {
        match self.filter_type {
            FilterType::ServerName => Ok(config),
            FilterType::SslOnly => Ok(config),
            FilterType::Port => if unsigned_of(self.pattern, 65535) is Some {
                Ok(config)
            } else {
                Err(ErrorView::InvalidInput("Invalid port number: "@ + self.pattern))
            },
            FilterType::Directive => Ok(named(config, self.pattern)),
            FilterType::Upstream => Err(
                ErrorView::NotImplemented("Filter type Upstream not yet implemented"@),
            ),
            FilterType::Location => Err(
                ErrorView::NotImplemented("Filter type Location not yet implemented"@),
            ),
        }
    }
}

/// The filter that `kind=pattern` stands for, where `lower` is `kind` in
/// lower case.
pub open spec fn filter_of(lower: Seq<char>, pattern: Seq<char>) -> Result<FilterView, ErrorView> {
    match FilterType::named(lower) {
        Some(filter_type) => Ok(FilterView { filter_type, pattern }),
        None => Err(ErrorView::InvalidInput("Unknown filter type: "@ + lower)),
    }
}

/// The filter that the text `s` stands for: what stands before the first `=`
/// names the type, in any case of letters; what stands after it is the
/// pattern.
pub open spec fn filter_of_text(s: Seq<char>) -> Result<FilterView, ErrorView> {
    let eq = first_where(s, 0, is_char('='));
    if eq >= s.len() {
        Err(
            ErrorView::InvalidInput(
                "Invalid filter format. Expected: type=pattern, got: "@ + s,
            ),
        )
    } else {
        filter_of(lowercase_of(s.take(eq)), s.skip(eq + 1))
    }
}

fn keep_named(config: &Config, name: &str) -> (r: Config)
    ensures
        r@ == named(config@, name@),
{
    let mut kept: Vec<Directive> = Vec::new();
    let mut i: usize = 0;
    let ghost ds = config.directives@;
    proof {
        lemma_view_take_ends(ds);
        assert(directives_view(kept@) =~= named(directives_view(ds.take(0)), name@));
    }
    while i < config.directives.len()
        invariant
            i <= config.directives.len(),
            ds == config.directives@,
            directives_view(kept@) == named(directives_view(ds.take(i as int)), name@),
        decreases config.directives.len() - i,
    {
        let ghost before = directives_view(kept@);
        let ghost seen = directives_view(ds.take(i as int));
        proof {
            lemma_view_take_next(ds, i as int);
            seen.lemma_filter_push(ds[i as int]@, |d: DirectiveView| d.name() == name@);
        }
        if str_eq(config.directives[i].name(), name) {
            kept.push(config.directives[i].clone());
            assert(directives_view(kept@) =~= before.push(ds[i as int]@));
        }
        i += 1;
    }
    proof {
        lemma_view_take_ends(ds);
    }
    Config::with_directives(kept)
}

impl Filter {
    /// A filter of the given type for the given pattern.
    pub fn new(filter_type: FilterType, pattern: &str) -> (r: Filter)
        ensures
            r@ == (FilterView { filter_type, pattern: pattern@ }),
    {
        Filter { filter_type, pattern: pattern.to_owned() }
    }

    /// The configuration that the filter leaves; `config` itself stays as
    /// it is.
    pub fn apply(&self, config: &Config) -> (r: Result<Config, Error>)
        ensures
            match r {
                Ok(filtered) => self@.applied(config@) == Ok::<Seq<DirectiveView>, ErrorView>(
                    filtered@,
                ),
                Err(e) => self@.applied(config@) == Err::<Seq<DirectiveView>, ErrorView>(e@),
            },
    {
        match self.filter_type {
            FilterType::ServerName => Ok(config.clone()),
            FilterType::SslOnly => Ok(config.clone()),
            FilterType::Port => {
                let digits = chars_of(self.pattern.as_str());
                assert(digits@.subrange(0, digits@.len() as int) =~= digits@);
                match parse_unsigned(&digits, 0, digits.len(), 65535) {
                    Some(_) => Ok(config.clone()),
                    None => {
                        let mut text = String::from_str("Invalid port number: ");
                        text.append(self.pattern.as_str());
                        Err(Error::InvalidInput(text))
                    },
                }
            },
            FilterType::Directive => Ok(keep_named(config, self.pattern.as_str())),
            FilterType::Upstream => Err(
                Error::NotImplemented("Filter type Upstream not yet implemented".to_owned()),
            ),
            FilterType::Location => Err(
                Error::NotImplemented("Filter type Location not yet implemented".to_owned()),
            ),
        }
    }

    /// The filter of the type that `lower` names, in lower case, for the
    /// given pattern.
    pub fn from_parts(lower: &str, pattern: &str) -> (r: Result<Filter, Error>)
        ensures
            match r {
                Ok(filter) => filter_of(lower@, pattern@) == Ok::<FilterView, ErrorView>(filter@),
                Err(e) => filter_of(lower@, pattern@) == Err::<FilterView, ErrorView>(e@),
            },
    {
        let filter_type = if str_eq(lower, "server_name") || str_eq(lower, "server") {
            FilterType::ServerName
        } else if str_eq(lower, "port") {
            FilterType::Port
        } else if str_eq(lower, "upstream") {
            FilterType::Upstream
        } else if str_eq(lower, "location") {
            FilterType::Location
        } else if str_eq(lower, "ssl") || str_eq(lower, "ssl_only") {
            FilterType::SslOnly
        } else if str_eq(lower, "directive") {
            FilterType::Directive
        } else {
            let mut text = String::from_str("Unknown filter type: ");
            text.append(lower);
            return Err(Error::InvalidInput(text));
        };
        Ok(Filter::new(filter_type, pattern))
    }

    /// The filter that a text of the form `type=pattern` stands for.
    pub fn from_text(s: &str) -> (r: Result<Filter, Error>)
        ensures
            match r {
                Ok(filter) => filter_of_text(s@) == Ok::<FilterView, ErrorView>(filter@),
                Err(e) => filter_of_text(s@) == Err::<FilterView, ErrorView>(e@),
            },
    {
        let chars = chars_of(s);
        let eq = find_char(&chars, '=', 0);
        if eq >= chars.len() {
            let mut text = String::from_str("Invalid filter format. Expected: type=pattern, got: ");
            text.append(s);
            return Err(Error::InvalidInput(text));
        }
        let kind = string_of(&chars, 0, eq);
        let pattern = string_of(&chars, eq + 1, chars.len());
        let lower = to_lowercase(kind.as_str());
        Filter::from_parts(lower.as_str(), pattern.as_str())
    }
}

impl std::str::FromStr for Filter {
    type Err = Error;

    /// The filter that a text of the form `type=pattern` stands for; the
    /// error for a text without `=` or with a type that is not known.
    fn from_str(s: &str) -> (r: Result<Filter, Error>)
        ensures
            match r {
                Ok(filter) => filter_of_text(s@) == Ok::<FilterView, ErrorView>(filter@),
                Err(e) => filter_of_text(s@) == Err::<FilterView, ErrorView>(e@),
            },
    {
        Filter::from_text(s)
    }
}

} // verus!

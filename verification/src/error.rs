//! Diagnostics: what went wrong, where, and how it is rendered.

use vstd::prelude::*;
use crate::text::{decimal, push_decimal, push_spaces, spaces};

verus! {

/// What can go wrong while configuration text is read or used.
#[derive(Debug)]
#[allow(inconsistent_fields)]
pub enum Error {
    /// A parse error with its place and, where known, its context.
    Parse {
        /// What went wrong.
        message: String,
        /// Line number, counted from one.
        line: usize,
        /// Column number, counted from one.
        col: usize,
        /// The source around the place, if available.
        snippet: Option<String>,
        /// A suggestion for a fix, if there is one.
        help: Option<String>,
    },
    /// The input ended while something was still owed.
    UnexpectedEof {
        /// What was expected.
        expected: String,
        /// The line on which the input ended.
        line: usize,
    },
    /// A directive that is not known or not allowed.
    InvalidDirective {
        /// The directive's name.
        name: String,
        /// Why it is invalid.
        reason: Option<String>,
        /// A valid alternative.
        suggestion: Option<String>,
    },
    /// An argument that a directive does not accept.
    InvalidArgument {
        /// The directive's name.
        directive: String,
        /// What went wrong.
        message: String,
        /// The expected format.
        expected: Option<String>,
    },
    /// A violation of the grammar.
    Syntax {
        /// What went wrong.
        message: String,
        /// Line number, counted from one.
        line: usize,
        /// Column number, counted from one.
        col: usize,
        /// What was expected.
        expected: Option<String>,
        /// What was found.
        found: Option<String>,
    },
    /// An input or output failure, by its description.
    Io(String),
    /// A failure of the system around the library (no `nginx` binary, ...).
    System(String),
    /// A failure to serialise.
    Serialization(String),
    /// A failure to resolve an included file.
    Include(String),
    /// Any other failure, by its message.
    Custom(String),
    /// A failure on the network.
    Network(String),
    /// An input that cannot be used.
    InvalidInput(String),
    /// Something that is not implemented yet.
    NotImplemented(String),
    /// A feature that is not enabled.
    FeatureNotEnabled(String),
}

/// The mathematical value of an [`Error`].
#[allow(inconsistent_fields)]
pub enum ErrorView {
    Parse {
        message: Seq<char>,
        line: nat,
        col: nat,
        snippet: Option<Seq<char>>,
        help: Option<Seq<char>>,
    },
    UnexpectedEof { expected: Seq<char>, line: nat },
    InvalidDirective { name: Seq<char>, reason: Option<Seq<char>>, suggestion: Option<Seq<char>> },
    InvalidArgument { directive: Seq<char>, message: Seq<char>, expected: Option<Seq<char>> },
    Syntax {
        message: Seq<char>,
        line: nat,
        col: nat,
        expected: Option<Seq<char>>,
        found: Option<Seq<char>>,
    },
    Io(Seq<char>),
    System(Seq<char>),
    Serialization(Seq<char>),
    Include(Seq<char>),
    Custom(Seq<char>),
    Network(Seq<char>),
    InvalidInput(Seq<char>),
    NotImplemented(Seq<char>),
    FeatureNotEnabled(Seq<char>),
}

/// The characters of an optional string.
pub open spec fn opt_view(o: Option<String>) -> Option<Seq<char>> {
    match o {
        Some(s) => Some(s@),
        None => None,
    }
}

/// `prefix` followed by the text, where there is one; nothing otherwise.
pub open spec fn labelled(prefix: Seq<char>, o: Option<Seq<char>>, suffix: Seq<char>) -> Seq<
    char,
> {
    match o {
        Some(s) => prefix + s + suffix,
        None => Seq::empty(),
    }
}

impl View for Error {
    type V = ErrorView;

    open spec fn view(&self) -> ErrorView {
        match self {
            Error::Parse { message, line, col, snippet, help } => ErrorView::Parse {
                message: message@,
                line: *line as nat,
                col: *col as nat,
                snippet: opt_view(*snippet),
                help: opt_view(*help),
            },
            Error::UnexpectedEof { expected, line } => ErrorView::UnexpectedEof {
                expected: expected@,
                line: *line as nat,
            },
            Error::InvalidDirective { name, reason, suggestion } => ErrorView::InvalidDirective {
                name: name@,
                reason: opt_view(*reason),
                suggestion: opt_view(*suggestion),
            },
            Error::InvalidArgument { directive, message, expected } => ErrorView::InvalidArgument {
                directive: directive@,
                message: message@,
                expected: opt_view(*expected),
            },
            Error::Syntax { message, line, col, expected, found } => ErrorView::Syntax {
                message: message@,
                line: *line as nat,
                col: *col as nat,
                expected: opt_view(*expected),
                found: opt_view(*found),
            },
            Error::Io(s) => ErrorView::Io(s@),
            Error::System(s) => ErrorView::System(s@),
            Error::Serialization(s) => ErrorView::Serialization(s@),
            Error::Include(s) => ErrorView::Include(s@),
            Error::Custom(s) => ErrorView::Custom(s@),
            Error::Network(s) => ErrorView::Network(s@),
            Error::InvalidInput(s) => ErrorView::InvalidInput(s@),
            Error::NotImplemented(s) => ErrorView::NotImplemented(s@),
            Error::FeatureNotEnabled(s) => ErrorView::FeatureNotEnabled(s@),
        }
    }
}

impl ErrorView {
    /// The one-line text an error displays as.
    pub open spec fn display_text(self) -> Seq<char> {
        match self {
            ErrorView::Parse { message, line, col, .. } => "Parse error at line "@ + decimal(line)
                + ", column "@ + decimal(col) + ": "@ + message,
            ErrorView::UnexpectedEof { .. } => "Unexpected end of input"@,
            ErrorView::InvalidDirective { name, .. } => "Invalid directive: "@ + name,
            ErrorView::InvalidArgument { directive, message, .. } =>
                "Invalid argument for directive '"@ + directive + "': "@ + message,
            ErrorView::Syntax { message, .. } => "Syntax error: "@ + message,
            ErrorView::Io(s) => "IO error: "@ + s,
            ErrorView::System(s) => "System error: "@ + s,
            ErrorView::Serialization(s) => "Serialization error: "@ + s,
            ErrorView::Include(s) => "Include resolution error: "@ + s,
            ErrorView::Custom(s) => s,
            ErrorView::Network(s) => "Network error: "@ + s,
            ErrorView::InvalidInput(s) => "Invalid input: "@ + s,
            ErrorView::NotImplemented(s) => "Not implemented: "@ + s,
            ErrorView::FeatureNotEnabled(s) => "Feature '"@ + s
                + "' not enabled. Enable it in Cargo.toml"@,
        }
    }

    /// The message proper, without kind or place.
    pub open spec fn message_text(self) -> Seq<char> {
        match self {
            ErrorView::Parse { message, .. } => message,
            ErrorView::InvalidArgument { message, .. } => message,
            ErrorView::Syntax { message, .. } => message,
            ErrorView::InvalidDirective { name, .. } => name,
            _ => self.display_text(),
        }
    }

    /// The one-line short form: `line L:C: message` where a place is known.
    pub open spec fn short_text(self) -> Seq<char> {
        match self {
            ErrorView::Parse { message, line, col, .. } => "line "@ + decimal(line) + ":"@
                + decimal(col) + ": "@ + message,
            ErrorView::Syntax { message, line, col, .. } => "line "@ + decimal(line) + ":"@
                + decimal(col) + ": "@ + message,
            _ => self.display_text(),
        }
    }

    /// The detailed, possibly multi-line rendering.
    ///
    /// A parse error is its message line; then, where a snippet is known, an
    /// empty line, the snippet and a pointer line of `col - 1` spaces and a
    /// `^`; then, where help is known, an empty line and `Help: ...`.
    pub open spec fn detailed_text(self) -> Seq<char> {
        match self {
            ErrorView::Parse { message, line, col, snippet, help } => "Parse error at line "@
                + decimal(line) + ", column "@ + decimal(col) + ": "@ + message + labelled(
                "\n\n"@,
                snippet,
                "\n"@ + spaces(if col >= 1 {
                    (col - 1) as nat
                } else {
                    0
                }) + "^\n"@,
            ) + labelled("\nHelp: "@, help, "\n"@),
            ErrorView::Syntax { message, line, col, expected, found } => "Syntax error at line "@
                + decimal(line) + ", column "@ + decimal(col) + ": "@ + message + labelled(
                "\nExpected: "@,
                expected,
                Seq::empty(),
            ) + labelled("\nFound: "@, found, Seq::empty()),
            ErrorView::UnexpectedEof { expected, line } => "Unexpected end of file at line "@
                + decimal(line) + "\nExpected: "@ + expected,
            ErrorView::InvalidDirective { name, reason, suggestion } => "Invalid directive: "@
                + name + labelled("\nReason: "@, reason, Seq::empty()) + labelled(
                "\nSuggestion: Try using '"@,
                suggestion,
                "' instead"@,
            ),
            _ => self.display_text(),
        }
    }
}

impl Error {
    /// A parse error at a place, without context.
    pub fn parse(message: &str, line: usize, col: usize) -> (r: Error)
        ensures
            r@ == (ErrorView::Parse {
                message: message@,
                line: line as nat,
                col: col as nat,
                snippet: None,
                help: None,
            }),
    {
        Error::Parse { message: message.to_owned(), line, col, snippet: None, help: None }
    }

    /// A parse error at a place, with a source snippet and a suggestion.
    pub fn parse_with_context(
        message: &str,
        line: usize,
        col: usize,
        snippet: &str,
        help: &str,
    ) -> (r: Error)
        ensures
            r@ == (ErrorView::Parse {
                message: message@,
                line: line as nat,
                col: col as nat,
                snippet: Some(snippet@),
                help: Some(help@),
            }),
    {
        Error::Parse {
            message: message.to_owned(),
            line,
            col,
            snippet: Some(snippet.to_owned()),
            help: Some(help.to_owned()),
        }
    }

    /// The input ended on `line` while `expected` was owed.
    pub fn unexpected_eof(expected: &str, line: usize) -> (r: Error)
        ensures
            r@ == (ErrorView::UnexpectedEof { expected: expected@, line: line as nat }),
    {
        Error::UnexpectedEof { expected: expected.to_owned(), line }
    }

    /// A syntax error at a place, with what was expected and what was found.
    pub fn syntax(
        message: &str,
        line: usize,
        col: usize,
        expected: Option<String>,
        found: Option<String>,
    ) -> (r: Error)
        ensures
            r@ == (ErrorView::Syntax {
                message: message@,
                line: line as nat,
                col: col as nat,
                expected: opt_view(expected),
                found: opt_view(found),
            }),
    {
        Error::Syntax { message: message.to_owned(), line, col, expected, found }
    }

    /// An invalid directive, with a reason and a suggestion where known.
    pub fn invalid_directive(name: &str, reason: Option<String>, suggestion: Option<String>) -> (r:
        Error)
        ensures
            r@ == (ErrorView::InvalidDirective {
                name: name@,
                reason: opt_view(reason),
                suggestion: opt_view(suggestion),
            }),
    {
        Error::InvalidDirective { name: name.to_owned(), reason, suggestion }
    }

    /// An error that is its message.
    pub fn custom(message: &str) -> (r: Error)
        ensures
            r@ == ErrorView::Custom(message@),
    {
        Error::Custom(message.to_owned())
    }

    /// The one-line text the error displays as.
    pub fn to_string(&self) -> (r: String)
        ensures
            r@ == self@.display_text(),
    {
        let mut out = String::new();
        match self {
            Error::Parse { message, line, col, .. } => {
                out.append("Parse error at line ");
                push_decimal(&mut out, *line);
                out.append(", column ");
                push_decimal(&mut out, *col);
                out.append(": ");
                out.append(message.as_str());
            },
            Error::UnexpectedEof { .. } => {
                out.append("Unexpected end of input");
            },
            Error::InvalidDirective { name, .. } => {
                out.append("Invalid directive: ");
                out.append(name.as_str());
            },
            Error::InvalidArgument { directive, message, .. } => {
                out.append("Invalid argument for directive '");
                out.append(directive.as_str());
                out.append("': ");
                out.append(message.as_str());
            },
            Error::Syntax { message, .. } => {
                out.append("Syntax error: ");
                out.append(message.as_str());
            },
            Error::Io(s) => {
                out.append("IO error: ");
                out.append(s.as_str());
            },
            Error::System(s) => {
                out.append("System error: ");
                out.append(s.as_str());
            },
            Error::Serialization(s) => {
                out.append("Serialization error: ");
                out.append(s.as_str());
            },
            Error::Include(s) => {
                out.append("Include resolution error: ");
                out.append(s.as_str());
            },
            Error::Custom(s) => {
                out.append(s.as_str());
            },
            Error::Network(s) => {
                out.append("Network error: ");
                out.append(s.as_str());
            },
            Error::InvalidInput(s) => {
                out.append("Invalid input: ");
                out.append(s.as_str());
            },
            Error::NotImplemented(s) => {
                out.append("Not implemented: ");
                out.append(s.as_str());
            },
            Error::FeatureNotEnabled(s) => {
                out.append("Feature '");
                out.append(s.as_str());
                out.append("' not enabled. Enable it in Cargo.toml");
            },
        }
        assert(out@ =~= self@.display_text());
        out
    }

    /// The message proper, without kind or place.
    pub fn message(&self) -> (r: String)
        ensures
            r@ == self@.message_text(),
    {
        match self {
            Error::Parse { message, .. } => message.clone(),
            Error::InvalidArgument { message, .. } => message.clone(),
            Error::Syntax { message, .. } => message.clone(),
            Error::InvalidDirective { name, .. } => name.clone(),
            _ => self.to_string(),
        }
    }

    /// The detailed rendering, over several lines where there is context.
    pub fn detailed(&self) -> (r: String)
        ensures
            r@ == self@.detailed_text(),
    {
        match self {
            Error::Parse { message, line, col, snippet, help } => format_parse_error(
                *line,
                *col,
                message.as_str(),
                snippet,
                help,
            ),
            Error::Syntax { message, line, col, expected, found } => format_syntax_error(
                *line,
                *col,
                message.as_str(),
                expected,
                found,
            ),
            Error::UnexpectedEof { expected, line } => {
                let mut out = String::new();
                out.append("Unexpected end of file at line ");
                push_decimal(&mut out, *line);
                out.append("\nExpected: ");
                out.append(expected.as_str());
                assert(out@ =~= self@.detailed_text());
                out
            },
            Error::InvalidDirective { name, reason, suggestion } => {
                let mut out = String::new();
                out.append("Invalid directive: ");
                out.append(name.as_str());
                if let Some(r) = reason {
                    out.append("\nReason: ");
                    out.append(r.as_str());
                }
                if let Some(s) = suggestion {
                    out.append("\nSuggestion: Try using '");
                    out.append(s.as_str());
                    out.append("' instead");
                }
                assert(out@ =~= self@.detailed_text());
                out
            },
            _ => self.to_string(),
        }
    }

    /// The short one-line form.
    pub fn short(&self) -> (r: String)
        ensures
            r@ == self@.short_text(),
    {
        match self {
            Error::Parse { message, line, col, .. } => short_line(*line, *col, message.as_str()),
            Error::Syntax { message, line, col, .. } => short_line(*line, *col, message.as_str()),
            _ => self.to_string(),
        }
    }
}

fn short_line(line: usize, col: usize, message: &str) -> (r: String)
    ensures
        r@ == "line "@ + decimal(line as nat) + ":"@ + decimal(col as nat) + ": "@ + message@,
{
    let mut out = String::new();
    out.append("line ");
    push_decimal(&mut out, line);
    out.append(":");
    push_decimal(&mut out, col);
    out.append(": ");
    out.append(message);
    assert(out@ =~= "line "@ + decimal(line as nat) + ":"@ + decimal(col as nat) + ": "@
        + message@);
    out
}

fn format_parse_error(
    line: usize,
    col: usize,
    message: &str,
    snippet: &Option<String>,
    help: &Option<String>,
) -> (r: String)
    ensures
        r@ == (ErrorView::Parse {
            message: message@,
            line: line as nat,
            col: col as nat,
            snippet: opt_view(*snippet),
            help: opt_view(*help),
        }).detailed_text(),
{
    let mut out = String::new();
    out.append("Parse error at line ");
    push_decimal(&mut out, line);
    out.append(", column ");
    push_decimal(&mut out, col);
    out.append(": ");
    out.append(message);
    if let Some(s) = snippet {
        out.append("\n\n");
        out.append(s.as_str());
        out.append("\n");
        let pad: usize = if col >= 1 {
            col - 1
        } else {
            0
        };
        push_spaces(&mut out, pad);
        out.append("^\n");
    }
    if let Some(h) = help {
        out.append("\nHelp: ");
        out.append(h.as_str());
        out.append("\n");
    }
    assert(out@ =~= (ErrorView::Parse {
        message: message@,
        line: line as nat,
        col: col as nat,
        snippet: opt_view(*snippet),
        help: opt_view(*help),
    }).detailed_text());
    out
}

fn format_syntax_error(
    line: usize,
    col: usize,
    message: &str,
    expected: &Option<String>,
    found: &Option<String>,
) -> (r: String)
    ensures
        r@ == (ErrorView::Syntax {
            message: message@,
            line: line as nat,
            col: col as nat,
            expected: opt_view(*expected),
            found: opt_view(*found),
        }).detailed_text(),
{
    let mut out = String::new();
    out.append("Syntax error at line ");
    push_decimal(&mut out, line);
    out.append(", column ");
    push_decimal(&mut out, col);
    out.append(": ");
    out.append(message);
    if let Some(e) = expected {
        out.append("\nExpected: ");
        out.append(e.as_str());
    }
    if let Some(f) = found {
        out.append("\nFound: ");
        out.append(f.as_str());
    }
    assert(out@ =~= (ErrorView::Syntax {
        message: message@,
        line: line as nat,
        col: col as nat,
        expected: opt_view(*expected),
        found: opt_view(*found),
    }).detailed_text());
    out
}

} // verus!

//! Building parse errors step by step, and cutting snippets out of a source.

use vstd::prelude::*;
use crate::error::{opt_view, Error, ErrorView};
use crate::text::{
    chars_of, join_lines, join_with_newlines, lines_of, split_lines, views_between,
};

verus! {

/// A parse error in the making.
#[derive(Debug)]
pub struct ErrorBuilder {
    message: String,
    line: usize,
    col: usize,
    snippet: Option<String>,
    help: Option<String>,
}

/// What an [`ErrorBuilder`] has been told so far.
pub struct ErrorBuilderView {
    pub message: Seq<char>,
    pub line: nat,
    pub col: nat,
    pub snippet: Option<Seq<char>>,
    pub help: Option<Seq<char>>,
}

impl ErrorBuilderView {
    /// The error that `build` makes of what has been told: one with context
    /// where both a snippet and a suggestion are known, one without otherwise.
    pub open spec fn built(self) -> ErrorView {
        if self.snippet is Some && self.help is Some {
            ErrorView::Parse {
                message: self.message,
                line: self.line,
                col: self.col,
                snippet: self.snippet,
                help: self.help,
            }
        } else {
            ErrorView::Parse {
                message: self.message,
                line: self.line,
                col: self.col,
                snippet: None,
                help: None,
            }
        }
    }
}

impl View for ErrorBuilder {
    type V = ErrorBuilderView;

    closed spec fn view(&self) -> ErrorBuilderView {
        ErrorBuilderView {
            message: self.message@,
            line: self.line as nat,
            col: self.col as nat,
            snippet: opt_view(self.snippet),
            help: opt_view(self.help),
        }
    }
}

impl ErrorBuilder {
    /// A builder that has been told nothing: empty message, place zero.
    pub fn new() -> (r: ErrorBuilder)
        ensures
            r@ == (ErrorBuilderView {
                message: Seq::empty(),
                line: 0,
                col: 0,
                snippet: None,
                help: None,
            }),
    {
        ErrorBuilder { message: String::new(), line: 0, col: 0, snippet: None, help: None }
    }

    /// Sets the message.
    pub fn message(self, message: &str) -> (r: ErrorBuilder)
        ensures
            r@ == (ErrorBuilderView { message: message@, ..self@ }),
    {
        ErrorBuilder {
            message: message.to_owned(),
            line: self.line,
            col: self.col,
            snippet: self.snippet,
            help: self.help,
        }
    }

    /// Sets line and column.
    pub fn location(self, line: usize, col: usize) -> (r: ErrorBuilder)
        ensures
            r@ == (ErrorBuilderView { line: line as nat, col: col as nat, ..self@ }),
    {
        ErrorBuilder { message: self.message, line, col, snippet: self.snippet, help: self.help }
    }

    /// Sets the source snippet.
    pub fn snippet(self, snippet: &str) -> (r: ErrorBuilder)
        ensures
            r@ == (ErrorBuilderView { snippet: Some(snippet@), ..self@ }),
    {
        ErrorBuilder {
            message: self.message,
            line: self.line,
            col: self.col,
            snippet: Some(snippet.to_owned()),
            help: self.help,
        }
    }

    /// Sets the suggestion.
    pub fn help(self, help: &str) -> (r: ErrorBuilder)
        ensures
            r@ == (ErrorBuilderView { help: Some(help@), ..self@ }),
    {
        ErrorBuilder {
            message: self.message,
            line: self.line,
            col: self.col,
            snippet: self.snippet,
            help: Some(help.to_owned()),
        }
    }

    /// The parse error. It carries snippet and suggestion only where both
    /// were given.
    pub fn build(self) -> (r: Error)
        ensures
            r@ == self@.built(),
    {
        match (self.snippet, self.help) {
            (Some(snippet), Some(help)) => Error::Parse {
                message: self.message,
                line: self.line,
                col: self.col,
                snippet: Some(snippet),
                help: Some(help),
            },
            _ => Error::Parse {
                message: self.message,
                line: self.line,
                col: self.col,
                snippet: None,
                help: None,
            },
        }
    }
}

impl Default for ErrorBuilder {
    fn default() -> (r: ErrorBuilder)
        ensures
            r@ == (ErrorBuilderView {
                message: Seq::empty(),
                line: 0,
                col: 0,
                snippet: None,
                help: None,
            }),
    {
        ErrorBuilder::new()
    }
}

/// The index of the first line of the snippet around `line`.
pub open spec fn snippet_start(count: nat, line: nat, context: nat) -> nat {
    let idx = if line >= 1 {
        line - 1
    } else {
        0
    };
    let first = if idx >= context {
        idx - context
    } else {
        0
    };
    if first <= snippet_end(count, line, context) {
        first as nat
    } else {
        snippet_end(count, line, context)
    }
}

/// The index just past the last line of the snippet around `line`.
pub open spec fn snippet_end(count: nat, line: nat, context: nat) -> nat {
    let idx = if line >= 1 {
        line - 1
    } else {
        0
    };
    if idx + context + 1 <= count {
        (idx + context + 1) as nat
    } else {
        count
    }
}

/// The snippet of `source` around `line` (counted from one): that line with
/// up to `context` lines before and after it, as far as the source has them,
/// joined by line feeds.
pub open spec fn snippet_of(source: Seq<char>, line: nat, context: nat) -> Seq<char> {
    let lines = lines_of(source);
    join_lines(
        lines.subrange(
            snippet_start(lines.len(), line, context) as int,
            snippet_end(lines.len(), line, context) as int,
        ),
    )
}

/// The line of `source` numbered `line` with `context_lines` lines of
/// context on either side, cut to what the source holds.
pub fn extract_snippet(source: &str, line: usize, context_lines: usize) -> (r: String)
    ensures
        r@ == snippet_of(source@, line as nat, context_lines as nat),
{
    let chars = chars_of(source);
    let lines = split_lines(&chars);
    let idx: usize = if line >= 1 {
        line - 1
    } else {
        0
    };
    let first: usize = if idx >= context_lines {
        idx - context_lines
    } else {
        0
    };
    let end: usize = if idx < lines.len() && context_lines < lines.len() - idx {
        idx + context_lines + 1
    } else {
        lines.len()
    };
    let start: usize = if first <= end {
        first
    } else {
        end
    };
    let out = join_with_newlines(&lines, start, end);
    proof {
        assert(views_between(lines@, start as int, end as int) =~= lines_of(source@).subrange(
            start as int,
            end as int,
        ));
    }
    out
}

/// The index, counted from zero, of the line numbered `line`; line zero
/// counts as line one.
pub open spec fn line_index(line: nat) -> nat {
    if line >= 1 {
        (line - 1) as nat
    } else {
        0
    }
}

/// The line of `source` numbered `line` (counted from one; zero counts as
/// one), if the source has that many lines.
pub fn get_line(source: &str, line: usize) -> (r: Option<String>)
    ensures
        match r {
            Some(s) => line_index(line as nat) < lines_of(source@).len() && s@ == lines_of(
                source@,
            )[line_index(line as nat) as int],
            None => line_index(line as nat) >= lines_of(source@).len(),
        },
{
    let chars = chars_of(source);
    let lines = split_lines(&chars);
    let idx: usize = if line >= 1 {
        line - 1
    } else {
        0
    };
    if idx < lines.len() {
        Some(lines[idx].clone())
    } else {
        None
    }
}

} // verus!

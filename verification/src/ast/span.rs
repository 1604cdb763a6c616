//! Source locations.

use vstd::prelude::*;
use vstd::string::StringSliceAdditionalSpecFns;
use vstd::utf8::{
    encode_utf8_valid_utf8, is_char_boundary, is_char_boundary_iff_not_is_continuation_byte,
    is_char_boundary_start_end_of_seq,
};
use crate::text::{decimal, push_decimal};

verus! {

/// A location in the source text: a byte range and the line and column at
/// which it starts (both counted from one).
#[derive(Debug, Clone, Copy, PartialEq, Eq, Hash, Structural)]
pub struct Span {
    /// Byte offset at which the range starts.
    pub start: usize,
    /// Byte offset just past the end of the range.
    pub end: usize,
    /// Line number, counted from one.
    pub line: usize,
    /// Column number, counted from one.
    pub col: usize,
}

impl Span {
    /// A span over the bytes `start..end` that begins at `line`, `col`.
    pub fn new(start: usize, end: usize, line: usize, col: usize) -> (r: Span)
        ensures
            r == (Span { start, end, line, col }),
    {
        Span { start, end, line, col }
    }

    /// An empty span at `pos`.
    pub fn at(pos: usize, line: usize, col: usize) -> (r: Span)
        ensures
            r == (Span { start: pos, end: pos, line, col }),
    {
        Span { start: pos, end: pos, line, col }
    }

    /// The span a value has when no source location is known: empty, at the
    /// first column of the first line.
    pub open spec fn spec_default() -> Span {
        Span { start: 0, end: 0, line: 1, col: 1 }
    }

    /// The smallest span that encloses both.
    pub open spec fn spec_merge(self, other: Span) -> Span {
        Span {
            start: if self.start <= other.start { self.start } else { other.start },
            end: if self.end >= other.end { self.end } else { other.end },
            line: if self.line <= other.line { self.line } else { other.line },
            col: if self.col <= other.col { self.col } else { other.col },
        }
    }

    /// The span that covers both: the least start, the greatest end, the least
    /// line and the least column.
    pub fn merge(self, other: Span) -> (r: Span)
        ensures
            r == self.spec_merge(other),
    {
        Span {
            start: if self.start <= other.start { self.start } else { other.start },
            end: if self.end >= other.end { self.end } else { other.end },
            line: if self.line <= other.line { self.line } else { other.line },
            col: if self.col <= other.col { self.col } else { other.col },
        }
    }

    /// The number of bytes covered; zero where the end lies before the start.
    pub fn len(&self) -> (r: usize)
        ensures
            r == if self.end >= self.start { self.end - self.start } else { 0 },
    {
        if self.end >= self.start {
            self.end - self.start
        } else {
            0
        }
    }

    /// Whether no byte is covered.
    pub fn is_empty(&self) -> (r: bool)
        ensures
            r == (self.start >= self.end),
    {
        self.start >= self.end
    }

    /// Whether the span cuts a piece out of `bytes`, valid UTF-8: it lies
    /// within them, in order, and both ends fall between characters.
    pub open spec fn cuts(self, bytes: Seq<u8>) -> bool {
        &&& self.start <= self.end <= bytes.len()
        &&& is_char_boundary(bytes, self.start as int)
        &&& is_char_boundary(bytes, self.end as int)
    }

    /// The piece of `source` that the span covers: the bytes `start..end`.
    /// `None` where the span does not cut a piece out of `source`.
    pub fn slice<'a>(&self, source: &'a str) -> (r: Option<&'a str>)
        ensures
            match r {
                Some(piece) => self.cuts(source.spec_bytes()) && piece.spec_bytes()
                    == source.spec_bytes().subrange(self.start as int, self.end as int),
                None => !self.cuts(source.spec_bytes()),
            },
    {
        let n = source.as_bytes().len();
        if self.start <= self.end && self.end <= n && source.is_char_boundary(self.start)
            && source.is_char_boundary(self.end) {
            let ghost bytes = source.spec_bytes();
            let (head, _) = source.split_at(self.end);
            proof {
                encode_utf8_valid_utf8(source@);
                encode_utf8_valid_utf8(head@);
                if self.start == self.end {
                    is_char_boundary_start_end_of_seq(head.spec_bytes());
                } else if self.start > 0 {
                    is_char_boundary_iff_not_is_continuation_byte(bytes, self.start as int);
                    is_char_boundary_iff_not_is_continuation_byte(
                        head.spec_bytes(),
                        self.start as int,
                    );
                }
            }
            let (_, piece) = head.split_at(self.start);
            assert(piece.spec_bytes() =~= bytes.subrange(self.start as int, self.end as int));
            Some(piece)
        } else {
            None
        }
    }

    /// What the span displays as: `line L, column C`.
    pub fn to_string(&self) -> (r: String)
        ensures
            r@ == "line "@ + decimal(self.line as nat) + ", column "@ + decimal(self.col as nat),
    {
        let mut out = String::from_str("line ");
        push_decimal(&mut out, self.line);
        out.append(", column ");
        push_decimal(&mut out, self.col);
        out
    }
}

impl Default for Span {
    fn default() -> (r: Span)
        ensures
            r == Span::spec_default(),
    {
        Span { start: 0, end: 0, line: 1, col: 1 }
    }
}

/// Merging encloses both spans: the result starts no later and ends no
/// earlier than either of them.
pub proof fn lemma_merge_encloses(a: Span, b: Span)
    ensures
        a.spec_merge(b).start <= a.start,
        a.spec_merge(b).start <= b.start,
        a.spec_merge(b).end >= a.end,
        a.spec_merge(b).end >= b.end,
        a.spec_merge(b) == b.spec_merge(a),
{
}

/// A value that knows where in the source it came from.
pub trait Spanned {
    /// The source location of this item.
    fn span(&self) -> Span;
}

} // verus!

//! The lexer: from characters to tokens, with their places.

use vstd::prelude::*;
use crate::ast::span::Span;
use crate::error::{Error, ErrorView};
use crate::parser::token::{tokens_view, Token, TokenKind, TokenKindView, TokenView};
use crate::text::{
    byte_len, char_is_alpha, char_is_digit, char_is_space, char_width, chars_of, first_where,
    is_alpha, is_digit, is_space, lemma_byte_len_step, lemma_first_where, lemma_first_where_is,
    string_of, trim, trimmed_string_of,
};

verus! {

/// A character that may begin a word.
pub open spec fn is_word_start(c: char) -> bool {
    is_alpha(c) || c == '_' || c == '/' || c == '.' || c == '*' || c == '^' || c == '~' || c
        == '\\'
}

/// A character that may stand inside a word.
pub open spec fn is_word_char(c: char) -> bool {
    is_alpha(c) || is_digit(c) || c == '_' || c == '-' || c == '/' || c == '.' || c == ':' || c
        == '=' || c == '*' || c == '^' || c == '~' || c == '\\' || c == '$'
}

/// A character that may stand inside a number.
pub open spec fn is_number_char(c: char) -> bool {
    is_digit(c) || c == '.'
}

/// Holds of the line feed alone.
pub open spec fn line_feed() -> spec_fn(char) -> bool {
    |c: char| c == '\n'
}

/// Holds of the closing brace alone.
pub open spec fn close_brace() -> spec_fn(char) -> bool {
    |c: char| c == '}'
}

/// Holds of what cannot stand inside a word.
pub open spec fn not_word() -> spec_fn(char) -> bool {
    |c: char| !is_word_char(c)
}

/// Holds of what cannot stand inside a number.
pub open spec fn not_number() -> spec_fn(char) -> bool {
    |c: char| !is_number_char(c)
}

/// Where the lexer stands: the index of the next character, and the line and
/// column it counts for it.
pub struct Cursor {
    pub idx: int,
    pub line: nat,
    pub col: nat,
}

/// The number of line feeds in `s[from..to]`.
pub open spec fn feeds(s: Seq<char>, from: int, to: int) -> nat
    decreases to - from,
{
    if to <= from {
        0
    } else {
        feeds(s, from, to - 1) + if s[to - 1] == '\n' {
            1nat
        } else {
            0nat
        }
    }
}

/// The line of the character at index `idx`, counted from one: one more
/// than the number of line feeds before it.
pub open spec fn line_at(s: Seq<char>, idx: int) -> nat {
    1 + feeds(s, 0, idx)
}

/// The column of the character at index `idx`, counted from one: one more
/// than the number of characters between it and the last line feed before
/// it, or the start of the text.
pub open spec fn column_at(s: Seq<char>, idx: int) -> nat
    decreases idx,
{
    if idx <= 0 {
        1
    } else if s[idx - 1] == '\n' {
        1
    } else {
        column_at(s, idx - 1) + 1
    }
}

/// Whether a cursor counts the line and the column of the character it
/// stands at.
pub open spec fn placed(s: Seq<char>, cur: Cursor) -> bool {
    cur.line == line_at(s, cur.idx) && cur.col == column_at(s, cur.idx)
}

/// The cursor after one character has been read: a line feed begins a new
/// line at column one, any other character is one column.
pub open spec fn stepped(s: Seq<char>, cur: Cursor) -> Cursor {
    if s[cur.idx] == '\n' {
        Cursor { idx: cur.idx + 1, line: cur.line + 1, col: 1 }
    } else {
        Cursor { idx: cur.idx + 1, line: cur.line, col: cur.col + 1 }
    }
}

/// The cursor after the characters up to `to` have been read: the line has
/// grown by the line feeds among them; the column has grown by their number
/// where no line feed is among them, and is that of `to` otherwise.
pub open spec fn moved(s: Seq<char>, cur: Cursor, to: int) -> Cursor {
    Cursor {
        idx: to,
        line: cur.line + feeds(s, cur.idx, to),
        col: if feeds(s, cur.idx, to) == 0 {
            if to > cur.idx {
                (cur.col + (to - cur.idx)) as nat
            } else {
                cur.col
            }
        } else {
            column_at(s, to)
        },
    }
}

/// The cursor after the white space at `cur` has been skipped: a line feed
/// begins a new line at column one, any other white space is one column.
pub open spec fn after_space(s: Seq<char>, cur: Cursor) -> Cursor
    decreases s.len() - cur.idx,
{
    if 0 <= cur.idx < s.len() && is_space(s[cur.idx]) {
        if s[cur.idx] == '\n' {
            after_space(s, Cursor { idx: cur.idx + 1, line: cur.line + 1, col: 1 })
        } else {
            after_space(s, Cursor { idx: cur.idx + 1, line: cur.line, col: cur.col + 1 })
        }
    } else {
        cur
    }
}

/// How a quoted string ends.
pub enum QuoteEnd {
    /// The closing quote stands at this index.
    Closed(int),
    /// A line feed stands at this index, before any closing quote.
    LineFeed(int),
    /// The input ends before any closing quote.
    Missing,
}

/// How the quoted string ends whose content is read from `from` on. A
/// backslash takes the next character with it, whatever it is; the first
/// quote that no backslash took closes the string.
pub open spec fn quote_end(s: Seq<char>, from: int, quote: char, escaped: bool) -> QuoteEnd
    decreases s.len() - from,
{
    if from < 0 || from >= s.len() {
        QuoteEnd::Missing
    } else if escaped {
        quote_end(s, from + 1, quote, false)
    } else if s[from] == '\\' {
        quote_end(s, from + 1, quote, true)
    } else if s[from] == quote {
        QuoteEnd::Closed(from)
    } else if s[from] == '\n' {
        QuoteEnd::LineFeed(from)
    } else {
        quote_end(s, from + 1, quote, false)
    }
}

/// The byte offset of the character at index `idx`.
pub open spec fn offset(s: Seq<char>, idx: int) -> usize {
    byte_len(s.take(idx)) as usize
}

/// The error for a character that begins no token.
pub open spec fn unexpected_character(c: char, cur: Cursor) -> ErrorView {
    ErrorView::Syntax {
        message: "unexpected character '"@ + seq![c] + "'"@,
        line: cur.line,
        col: cur.col,
        expected: Some("valid token"@),
        found: Some("'"@ + seq![c] + "'"@),
    }
}

/// The quoted string that opens at `cur` with `quote`.
pub open spec fn quoted_at(s: Seq<char>, cur: Cursor, quote: char) -> Result<
    (TokenKindView, Cursor),
    ErrorView,
> {
    match quote_end(s, cur.idx + 1, quote, false) {
        QuoteEnd::Closed(at) => Ok(
            (TokenKindView::String(s.subrange(cur.idx + 1, at)), moved(s, cur, at + 1)),
        ),
        QuoteEnd::LineFeed(at) => Err(
            ErrorView::Syntax {
                message: "unterminated string literal"@,
                line: moved(s, cur, at).line,
                col: moved(s, cur, at).col,
                expected: Some("closing quote"@),
                found: Some("newline"@),
            },
        ),
        QuoteEnd::Missing => Err(
            ErrorView::UnexpectedEof {
                expected: "closing quote"@,
                line: moved(s, cur, s.len() as int).line,
            },
        ),
    }
}

/// The variable reference that opens at `cur` with `$`: `${name}`, where the
/// name runs to the next `}`, or `$name`, where it is a run of word
/// characters and must not be empty.
pub open spec fn variable_at(s: Seq<char>, cur: Cursor) -> Result<
    (TokenKindView, Cursor),
    ErrorView,
> {
    if cur.idx + 1 < s.len() && s[cur.idx + 1] == '{' {
        let end = first_where(s, cur.idx + 2, close_brace());
        if end >= s.len() {
            Err(
                ErrorView::UnexpectedEof {
                    expected: "'}'"@,
                    line: moved(s, cur, s.len() as int).line,
                },
            )
        } else {
            Ok((TokenKindView::Variable(s.subrange(cur.idx + 2, end)), moved(s, cur, end + 1)))
        }
    } else {
        let end = first_where(s, cur.idx + 1, not_word());
        if end == cur.idx + 1 {
            Err(
                ErrorView::Syntax {
                    message: "expected variable name after '$'"@,
                    line: cur.line,
                    col: cur.col + 1,
                    expected: Some("variable name"@),
                    found: None,
                },
            )
        } else {
            Ok((TokenKindView::Variable(s.subrange(cur.idx + 1, end)), moved(s, cur, end)))
        }
    }
}

/// The token that begins at `cur`, which stands on a character that is not
/// white space, and the cursor after it.
pub open spec fn token_at(s: Seq<char>, cur: Cursor) -> Result<(TokenKindView, Cursor), ErrorView> {
    let c = s[cur.idx];
    if c == '#' {
        let end = first_where(s, cur.idx + 1, line_feed());
        Ok((TokenKindView::Comment(trim(s.subrange(cur.idx + 1, end))), moved(s, cur, end)))
    } else if c == '{' {
        Ok((TokenKindView::LeftBrace, moved(s, cur, cur.idx + 1)))
    } else if c == '}' {
        Ok((TokenKindView::RightBrace, moved(s, cur, cur.idx + 1)))
    } else if c == ';' {
        Ok((TokenKindView::Semicolon, moved(s, cur, cur.idx + 1)))
    } else if c == '=' {
        Ok((TokenKindView::Word(seq!['=']), moved(s, cur, cur.idx + 1)))
    } else if c == '"' || c == '\'' {
        quoted_at(s, cur, c)
    } else if c == '$' {
        variable_at(s, cur)
    } else if is_digit(c) {
        let end = first_where(s, cur.idx, not_number());
        Ok((TokenKindView::Number(s.subrange(cur.idx, end)), moved(s, cur, end)))
    } else if is_word_start(c) {
        let end = first_where(s, cur.idx, not_word());
        Ok((TokenKindView::Word(s.subrange(cur.idx, end)), moved(s, cur, end)))
    } else {
        Err(unexpected_character(c, cur))
    }
}

/// The next token read from `cur` on, and the cursor after it. At the end of
/// the input the token is `Eof`, empty, and the cursor stays.
pub open spec fn next_token_at(s: Seq<char>, cur: Cursor) -> Result<(TokenView, Cursor), ErrorView> {
    let at = after_space(s, cur);
    if at.idx >= s.len() {
        Ok(
            (
                TokenView {
                    kind: TokenKindView::Eof,
                    span: Span {
                        start: offset(s, at.idx),
                        end: offset(s, at.idx),
                        line: at.line as usize,
                        col: at.col as usize,
                    },
                },
                at,
            ),
        )
    } else {
        match token_at(s, at) {
            Ok((kind, next)) => Ok(
                (
                    TokenView {
                        kind,
                        span: Span {
                            start: offset(s, at.idx),
                            end: offset(s, next.idx),
                            line: at.line as usize,
                            col: at.col as usize,
                        },
                    },
                    next,
                ),
            ),
            Err(e) => Err(e),
        }
    }
}

/// All the tokens read from `cur` on, up to and including `Eof`; the first
/// error where there is one.
pub open spec fn tokens_from(s: Seq<char>, cur: Cursor) -> Result<Seq<TokenView>, ErrorView>
    decreases s.len() - cur.idx,
    when cur.idx >= 0
{
    match next_token_at(s, cur) {
        Err(e) => Err(e),
        Ok((token, next)) => if token.kind is Eof {
            Ok(seq![token])
        } else {
            proof {
                lemma_token_advances(s, cur);
            }
            match tokens_from(s, next) {
                Err(e) => Err(e),
                Ok(rest) => Ok(seq![token] + rest),
            }
        },
    }
}

/// The tokens of a whole text.
pub open spec fn tokens_of(s: Seq<char>) -> Result<Seq<TokenView>, ErrorView> {
    tokens_from(s, Cursor { idx: 0, line: 1, col: 1 })
}

/// Skipping white space never moves the cursor back, nor past the end.
pub proof fn lemma_after_space(s: Seq<char>, cur: Cursor)
    requires
        0 <= cur.idx <= s.len(),
    ensures
        cur.idx <= after_space(s, cur).idx <= s.len(),
        after_space(s, cur).idx < s.len() ==> !is_space(s[after_space(s, cur).idx]),
        after_space(s, cur).line <= cur.line + (after_space(s, cur).idx - cur.idx),
        after_space(s, cur).col <= cur.col + (after_space(s, cur).idx - cur.idx),
        after_space(s, cur).line >= cur.line,
        after_space(s, cur).col >= 1 || after_space(s, cur).col == cur.col,
    decreases s.len() - cur.idx,
{
    if cur.idx < s.len() && is_space(s[cur.idx]) {
        if s[cur.idx] == '\n' {
            lemma_after_space(s, Cursor { idx: cur.idx + 1, line: cur.line + 1, col: 1 });
        } else {
            lemma_after_space(s, Cursor { idx: cur.idx + 1, line: cur.line, col: cur.col + 1 });
        }
    }
}

/// Where a quoted string ends lies at or after where its content begins.
pub proof fn lemma_quote_end(s: Seq<char>, from: int, quote: char, escaped: bool)
    requires
        0 <= from,
    ensures
        match quote_end(s, from, quote, escaped) {
            QuoteEnd::Closed(at) => from <= at < s.len() && s[at] == quote,
            QuoteEnd::LineFeed(at) => from <= at < s.len() && s[at] == '\n',
            QuoteEnd::Missing => true,
        },
    decreases s.len() - from,
{
    if from < s.len() {
        if escaped {
            lemma_quote_end(s, from + 1, quote, false);
        } else if s[from] == '\\' {
            lemma_quote_end(s, from + 1, quote, true);
        } else if s[from] == quote {
        } else if s[from] == '\n' {
        } else {
            lemma_quote_end(s, from + 1, quote, false);
        }
    }
}

/// A token takes at least one character, and ends within the input.
pub proof fn lemma_token_at(s: Seq<char>, cur: Cursor)
    requires
        0 <= cur.idx < s.len(),
    ensures
        token_at(s, cur) matches Ok((_, next)) ==> cur.idx < next.idx <= s.len(),
{
    let c = s[cur.idx];
    lemma_first_where(s, cur.idx + 1, line_feed());
    lemma_first_where(s, cur.idx + 1, not_word());
    lemma_first_where(s, cur.idx, not_word());
    lemma_first_where(s, cur.idx, not_number());
    lemma_quote_end(s, cur.idx + 1, c, false);
    if cur.idx + 2 <= s.len() {
        lemma_first_where(s, cur.idx + 2, close_brace());
    }
}

/// Reading a token other than `Eof` moves the cursor forward.
pub proof fn lemma_token_advances(s: Seq<char>, cur: Cursor)
    ensures
        next_token_at(s, cur) matches Ok((token, next)) ==> (token.kind is Eof || (cur.idx
            < next.idx <= s.len()) || cur.idx < 0),
{
    if cur.idx >= 0 && cur.idx <= s.len() {
        lemma_after_space(s, cur);
        let at = after_space(s, cur);
        if at.idx < s.len() {
            lemma_token_at(s, at);
        }
    } else if cur.idx > s.len() {
        assert(after_space(s, cur) == cur);
    }
}

/// The tokens of a text end with `Eof`.
pub proof fn lemma_tokens_end(s: Seq<char>, cur: Cursor)
    requires
        0 <= cur.idx,
    ensures
        tokens_from(s, cur) matches Ok(toks) ==> toks.len() > 0 && toks.last().kind is Eof,
    decreases s.len() - cur.idx,
{
    match next_token_at(s, cur) {
        Err(e) => {},
        Ok((token, next)) => {
            if !(token.kind is Eof) {
                lemma_token_advances(s, cur);
                lemma_tokens_end(s, next);
            }
        },
    }
}

/// Reading one more character as part of a token.
pub proof fn lemma_moved_step(s: Seq<char>, start: Cursor, to: int)
    requires
        0 <= start.idx <= to,
    ensures
        moved(s, start, start.idx) == start,
        moved(s, start, to + 1) == stepped(s, moved(s, start, to)),
        start.line <= moved(s, start, to).line <= start.line + (to - start.idx),
        moved(s, start, to).col <= start.col + (to - start.idx),
        start.col >= 1 ==> moved(s, start, to).col >= 1,
    decreases to - start.idx,
{
    if start.idx < to {
        lemma_moved_step(s, start, to - 1);
    }
}

/// Reading up to `mid` and then on to `to` is reading up to `to`.
pub proof fn lemma_moved_chain(s: Seq<char>, start: Cursor, mid: int, to: int)
    requires
        0 <= start.idx <= mid <= to,
    ensures
        moved(s, moved(s, start, mid), to) == moved(s, start, to),
    decreases to - mid,
{
    lemma_moved_step(s, moved(s, start, mid), mid);
    if mid < to {
        lemma_moved_chain(s, start, mid, to - 1);
        lemma_moved_step(s, moved(s, start, mid), to - 1);
        lemma_moved_step(s, start, to - 1);
    }
}

/// A cursor that counts line and column rightly still does after one more
/// character.
pub proof fn lemma_placed_step(s: Seq<char>, cur: Cursor)
    requires
        0 <= cur.idx,
        placed(s, cur),
    ensures
        placed(s, stepped(s, cur)),
{
}

/// A cursor that counts line and column rightly still does after the
/// characters of a token.
pub proof fn lemma_placed_moved(s: Seq<char>, cur: Cursor, to: int)
    requires
        0 <= cur.idx <= to,
        placed(s, cur),
    ensures
        placed(s, moved(s, cur, to)),
    decreases to - cur.idx,
{
    lemma_moved_step(s, cur, cur.idx);
    if cur.idx < to {
        lemma_placed_moved(s, cur, to - 1);
        lemma_moved_step(s, cur, to - 1);
        lemma_placed_step(s, moved(s, cur, to - 1));
    }
}

/// A cursor that counts line and column rightly still does after white
/// space has been skipped.
pub proof fn lemma_placed_after_space(s: Seq<char>, cur: Cursor)
    requires
        0 <= cur.idx,
        placed(s, cur),
    ensures
        placed(s, after_space(s, cur)),
    decreases s.len() - cur.idx,
{
    if cur.idx < s.len() && is_space(s[cur.idx]) {
        lemma_placed_step(s, cur);
        lemma_placed_after_space(s, stepped(s, cur));
    }
}

/// Whether a token begins at the character at index `idx`: its span starts
/// at the byte offset of that character and names its line and its column.
pub open spec fn stands_at(s: Seq<char>, token: TokenView, idx: int) -> bool {
    &&& 0 <= idx <= s.len()
    &&& token.span.start == byte_len(s.take(idx))
    &&& token.span.line == line_at(s, idx)
    &&& token.span.col == column_at(s, idx)
}

/// Whether a token begins at some character of `s`, or at its end, and
/// names the byte offset, the line and the column of that place.
pub open spec fn stands(s: Seq<char>, token: TokenView) -> bool {
    exists|idx: int| #[trigger] stands_at(s, token, idx)
}

/// Whether each of `tokens` begins at a character of `s` and names its byte
/// offset, its line and its column.
pub open spec fn each_stands(s: Seq<char>, tokens: Seq<TokenView>) -> bool {
    forall|i: int| 0 <= i < tokens.len() ==> stands(s, #[trigger] tokens[i])
}

/// Whether `c` may begin a word.
pub fn char_is_word_start(c: char) -> (r: bool)
    ensures
        r == is_word_start(c),
{
    char_is_alpha(c) || c == '_' || c == '/' || c == '.' || c == '*' || c == '^' || c == '~' || c
        == '\\'
}

/// Whether `c` may stand inside a word.
pub fn char_is_word_char(c: char) -> (r: bool)
    ensures
        r == is_word_char(c),
{
    char_is_alpha(c) || char_is_digit(c) || c == '_' || c == '-' || c == '/' || c == '.' || c
        == ':' || c == '=' || c == '*' || c == '^' || c == '~' || c == '\\' || c == '$'
}

/// What ends a run of characters.
#[derive(Clone, Copy)]
enum Stop {
    LineFeed,
    CloseBrace,
    NotWord,
    NotNumber,
}

impl Stop {
    spec fn pred(self) -> spec_fn(char) -> bool {
        match self {
            Stop::LineFeed => line_feed(),
            Stop::CloseBrace => close_brace(),
            Stop::NotWord => not_word(),
            Stop::NotNumber => not_number(),
        }
    }

    fn holds(self, c: char) -> (r: bool)
        ensures
            r == (self.pred())(c),
    {
        match self {
            Stop::LineFeed => c == '\n',
            Stop::CloseBrace => c == '}',
            Stop::NotWord => !char_is_word_char(c),
            Stop::NotNumber => !(char_is_digit(c) || c == '.'),
        }
    }
}

/// A lexer over one text.
pub struct Lexer {
    /// The characters of the text.
    chars: Vec<char>,
    /// The index of the next character.
    idx: usize,
    /// The byte offset of the next character.
    pos: usize,
    /// The line counted for the next character, from one.
    line: usize,
    /// The column counted for the next character, from one.
    col: usize,
}

impl Lexer {
    /// The text that is being read.
    pub closed spec fn text(&self) -> Seq<char> {
        self.chars@
    }

    /// Where the lexer stands in its text.
    pub closed spec fn cursor(&self) -> Cursor {
        Cursor { idx: self.idx as int, line: self.line as nat, col: self.col as nat }
    }

    /// The invariant of a lexer: it stands within its text, its byte offset is
    /// that of its index, and its line and column are those of the character
    /// it stands at.
    pub closed spec fn wf(&self) -> bool {
        &&& self.chars.len() < usize::MAX
        &&& byte_len(self.chars@) <= usize::MAX
        &&& self.idx <= self.chars.len()
        &&& self.pos == byte_len(self.chars@.take(self.idx as int))
        &&& 1 <= self.line <= self.idx + 1
        &&& 1 <= self.col <= self.idx + 1
        &&& placed(self.chars@, self.cursor())
    }

    /// A well-formed lexer stands within its text, at a line and a column
    /// of one or more, and the bytes of its text, its lines and its columns
    /// can be counted to the end.
    pub proof fn lemma_wf(&self)
        requires
            self.wf(),
        ensures
            0 <= self.cursor().idx <= self.text().len(),
            self.cursor().line >= 1,
            self.cursor().col >= 1,
            byte_len(self.text()) <= usize::MAX,
            self.cursor().line + (self.text().len() - self.cursor().idx) <= usize::MAX,
            self.cursor().col + (self.text().len() - self.cursor().idx) <= usize::MAX,
    {
    }

    /// A lexer at the start of `input`: first line, first column.
    pub fn new(input: &str) -> (r: Lexer)
        requires
            input@.len() < usize::MAX,
        ensures
            r.wf(),
            r.text() == input@,
            r.cursor() == (Cursor { idx: 0, line: 1, col: 1 }),
    {
        let chars = chars_of(input);
        let n = input.as_bytes().len();
        proof {
            assert(chars@.take(0) =~= Seq::<char>::empty());
        }
        Lexer { chars, idx: 0, pos: 0, line: 1, col: 1 }
    }

    fn is_eof(&self) -> (r: bool)
        requires
            self.wf(),
        ensures
            r == (self.idx >= self.chars.len()),
    {
        self.idx >= self.chars.len()
    }

    fn current_char(&self) -> (r: char)
        requires
            self.wf(),
            self.idx < self.chars.len(),
        ensures
            r == self.chars@[self.idx as int],
    {
        self.chars[self.idx]
    }

    /// Reads one character as part of a token.
    fn advance(&mut self)
        requires
            old(self).wf(),
            old(self).idx < old(self).chars.len(),
        ensures
            final(self).wf(),
            final(self).chars == old(self).chars,
            final(self).cursor() == moved(old(self).text(), old(self).cursor(), old(self).idx + 1),
    {
        let ch = self.chars[self.idx];
        proof {
            lemma_byte_len_step(self.chars@, self.idx as int);
            lemma_moved_step(self.chars@, self.cursor(), self.idx as int);
            lemma_placed_step(self.chars@, self.cursor());
        }
        self.pos += char_width(ch);
        self.idx += 1;
        if ch == '\n' {
            self.line += 1;
            self.col = 1;
        } else {
            self.col += 1;
        }
    }

    /// Skips white space, counting lines and columns.
    fn skip_whitespace(&mut self)
        requires
            old(self).wf(),
        ensures
            final(self).wf(),
            final(self).chars == old(self).chars,
            final(self).cursor() == after_space(old(self).text(), old(self).cursor()),
    {
        while self.idx < self.chars.len() && char_is_space(self.chars[self.idx])
            invariant
                self.wf(),
                self.chars == old(self).chars,
                after_space(self.text(), self.cursor()) == after_space(
                    old(self).text(),
                    old(self).cursor(),
                ),
            decreases self.chars.len() - self.idx,
        {
            proof {
                lemma_moved_step(self.chars@, self.cursor(), self.idx as int);
            }
            self.advance();
        }
    }

    /// Reads characters as part of a token up to the first at which `stop`
    /// holds, or to the end.
    fn skip_to(&mut self, stop: Stop, Ghost(start): Ghost<Cursor>)
        requires
            old(self).wf(),
            0 <= start.idx <= old(self).idx,
            old(self).cursor() == moved(old(self).text(), start, old(self).idx as int),
        ensures
            final(self).wf(),
            final(self).chars == old(self).chars,
            old(self).idx <= final(self).idx <= final(self).chars.len(),
            final(self).idx == first_where(old(self).text(), old(self).idx as int, stop.pred()),
            final(self).cursor() == moved(old(self).text(), start, final(self).idx as int),
    {
        let ghost from = self.idx as int;
        while self.idx < self.chars.len() && !stop.holds(self.chars[self.idx])
            invariant
                self.wf(),
                self.chars == old(self).chars,
                0 <= start.idx <= from <= self.idx,
                self.cursor() == moved(self.text(), start, self.idx as int),
                forall|i: int| from <= i < self.idx ==> !(stop.pred())(#[trigger] self.chars@[i]),
            decreases self.chars.len() - self.idx,
        {
            proof {
                lemma_moved_chain(self.chars@, start, self.idx as int, self.idx + 1);
            }
            self.advance();
        }
        proof {
            lemma_first_where_is(self.chars@, from, stop.pred(), self.idx as int);
        }
    }

    fn lex_comment(&mut self) -> (r: TokenKind)
        requires
            old(self).wf(),
            old(self).idx < old(self).chars.len(),
            old(self).text()[old(self).idx as int] == '#',
        ensures
            final(self).wf(),
            final(self).chars == old(self).chars,
            token_at(old(self).text(), old(self).cursor()) == Ok::<
                (TokenKindView, Cursor),
                ErrorView,
            >((r@, final(self).cursor())),
    {
        let ghost start = self.cursor();
        self.advance();
        let from = self.idx;
        self.skip_to(Stop::LineFeed, Ghost(start));
        TokenKind::Comment(trimmed_string_of(&self.chars, from, self.idx))
    }

    fn lex_number(&mut self) -> (r: TokenKind)
        requires
            old(self).wf(),
            old(self).idx < old(self).chars.len(),
            is_digit(old(self).text()[old(self).idx as int]),
        ensures
            final(self).wf(),
            final(self).chars == old(self).chars,
            token_at(old(self).text(), old(self).cursor()) == Ok::<
                (TokenKindView, Cursor),
                ErrorView,
            >((r@, final(self).cursor())),
    {
        let ghost start = self.cursor();
        let from = self.idx;
        proof {
            lemma_moved_step(self.chars@, start, self.idx as int);
        }
        self.skip_to(Stop::NotNumber, Ghost(start));
        TokenKind::Number(string_of(&self.chars, from, self.idx))
    }

    fn lex_word(&mut self) -> (r: TokenKind)
        requires
            old(self).wf(),
            old(self).idx < old(self).chars.len(),
            is_word_start(old(self).text()[old(self).idx as int]),
            !is_digit(old(self).text()[old(self).idx as int]),
        ensures
            final(self).wf(),
            final(self).chars == old(self).chars,
            token_at(old(self).text(), old(self).cursor()) == Ok::<
                (TokenKindView, Cursor),
                ErrorView,
            >((r@, final(self).cursor())),
    {
        let ghost start = self.cursor();
        let from = self.idx;
        proof {
            lemma_moved_step(self.chars@, start, self.idx as int);
        }
        self.skip_to(Stop::NotWord, Ghost(start));
        TokenKind::Word(string_of(&self.chars, from, self.idx))
    }

    fn lex_string(&mut self, quote: char) -> (r: Result<TokenKind, Error>)
        requires
            old(self).wf(),
            old(self).idx < old(self).chars.len(),
            old(self).text()[old(self).idx as int] == quote,
            quote == '"' || quote == '\'',
        ensures
            final(self).wf(),
            final(self).chars == old(self).chars,
            match r {
                Ok(kind) => token_at(old(self).text(), old(self).cursor()) == Ok::<
                    (TokenKindView, Cursor),
                    ErrorView,
                >((kind@, final(self).cursor())),
                Err(e) => token_at(old(self).text(), old(self).cursor()) == Err::<
                    (TokenKindView, Cursor),
                    ErrorView,
                >(e@),
            },
    {
        let ghost start = self.cursor();
        let ghost s = self.chars@;
        self.advance();
        let from = self.idx;
        let mut escaped = false;
        while self.idx < self.chars.len()
            invariant
                self.wf(),
                self.chars == old(self).chars,
                s == self.chars@,
                start == old(self).cursor(),
                from == start.idx + 1,
                from <= self.idx,
                0 <= start.idx < s.len(),
                s[start.idx] == quote,
                quote == '"' || quote == '\'',
                self.cursor() == moved(s, start, self.idx as int),
                quote_end(s, from as int, quote, false) == quote_end(
                    s,
                    self.idx as int,
                    quote,
                    escaped,
                ),
            decreases self.chars.len() - self.idx,
        {
            let ch = self.chars[self.idx];
            proof {
                lemma_moved_chain(s, start, self.idx as int, self.idx + 1);
            }
            if escaped {
                escaped = false;
                self.advance();
                continue ;
            }
            if ch == '\\' {
                escaped = true;
                self.advance();
                continue ;
            }
            if ch == quote {
                let value = string_of(&self.chars, from, self.idx);
                self.advance();
                return Ok(TokenKind::String(value));
            }
            if ch == '\n' {
                return Err(
                    Error::syntax(
                        "unterminated string literal",
                        self.line,
                        self.col,
                        Some("closing quote".to_owned()),
                        Some("newline".to_owned()),
                    ),
                );
            }
            self.advance();
        }
        Err(Error::unexpected_eof("closing quote", self.line))
    }

    fn lex_variable(&mut self) -> (r: Result<TokenKind, Error>)
        requires
            old(self).wf(),
            old(self).idx < old(self).chars.len(),
            old(self).text()[old(self).idx as int] == '$',
        ensures
            final(self).wf(),
            final(self).chars == old(self).chars,
            match r {
                Ok(kind) => token_at(old(self).text(), old(self).cursor()) == Ok::<
                    (TokenKindView, Cursor),
                    ErrorView,
                >((kind@, final(self).cursor())),
                Err(e) => token_at(old(self).text(), old(self).cursor()) == Err::<
                    (TokenKindView, Cursor),
                    ErrorView,
                >(e@),
            },
    {
        let ghost start = self.cursor();
        let ghost s = self.chars@;
        proof {
            lemma_moved_step(s, start, self.idx as int);
        }
        self.advance();
        let from = self.idx;
        if self.idx < self.chars.len() && self.chars[self.idx] == '{' {
            proof {
                lemma_moved_chain(s, start, self.idx as int, self.idx + 1);
            }
            self.advance();
            let name_from = self.idx;
            self.skip_to(Stop::CloseBrace, Ghost(start));
            if self.idx >= self.chars.len() {
                return Err(Error::unexpected_eof("'}'", self.line));
            }
            let name = string_of(&self.chars, name_from, self.idx);
            proof {
                lemma_moved_chain(s, start, self.idx as int, self.idx + 1);
            }
            self.advance();
            return Ok(TokenKind::Variable(name));
        }
        self.skip_to(Stop::NotWord, Ghost(start));
        if self.idx == from {
            return Err(
                Error::syntax(
                    "expected variable name after '$'",
                    self.line,
                    self.col,
                    Some("variable name".to_owned()),
                    None,
                ),
            );
        }
        Ok(TokenKind::Variable(string_of(&self.chars, from, self.idx)))
    }

    /// Reads the next token: skips white space, then reads a comment, a
    /// brace, a semicolon, a quoted string, a variable, a number or a word;
    /// `Eof` at the end of the input. Fails at a character that begins no
    /// token, at a string or a `${` that is not closed, and at a `$` without
    /// a name. The token's span names the line and the column of its first
    /// character, whatever the tokens before it hold.
    pub fn next_token(&mut self) -> (r: Result<Token, Error>)
        requires
            old(self).wf(),
        ensures
            final(self).wf(),
            final(self).text() == old(self).text(),
            match r {
                Ok(token) => next_token_at(old(self).text(), old(self).cursor()) == Ok::<
                    (TokenView, Cursor),
                    ErrorView,
                >((token@, final(self).cursor())),
                Err(e) => next_token_at(old(self).text(), old(self).cursor()) == Err::<
                    (TokenView, Cursor),
                    ErrorView,
                >(e@),
            },
            r matches Ok(token) ==> token.span.start <= token.span.end && token.span.line >= 1
                && token.span.col >= 1,
            r matches Ok(token) ==> stands_at(
                old(self).text(),
                token@,
                after_space(old(self).text(), old(self).cursor()).idx,
            ),
    {
        proof {
            self.lemma_wf();
            crate::parser::theorems::theorem_token_span(self.text(), self.cursor());
        }
        self.skip_whitespace();
        if self.is_eof() {
            return Ok(Token::new(TokenKind::Eof, Span::new(self.pos, self.pos, self.line, self.col)));
        }
        let start_pos = self.pos;
        let start_line = self.line;
        let start_col = self.col;
        let ghost at = self.cursor();
        let ch = self.current_char();
        proof {
            lemma_moved_step(self.chars@, at, self.idx as int);
        }
        let kind = if ch == '#' {
            self.lex_comment()
        } else if ch == '{' {
            self.advance();
            TokenKind::LeftBrace
        } else if ch == '}' {
            self.advance();
            TokenKind::RightBrace
        } else if ch == ';' {
            self.advance();
            TokenKind::Semicolon
        } else if ch == '=' {
            self.advance();
            let mut word = String::new();
            word.push('=');
            assert(word@ =~= seq!['=']);
            TokenKind::Word(word)
        } else if ch == '"' || ch == '\'' {
            match self.lex_string(ch) {
                Ok(kind) => kind,
                Err(e) => {
                    return Err(e);
                },
            }
        } else if ch == '$' {
            match self.lex_variable() {
                Ok(kind) => kind,
                Err(e) => {
                    return Err(e);
                },
            }
        } else if char_is_digit(ch) {
            self.lex_number()
        } else if char_is_word_start(ch) {
            self.lex_word()
        } else {
            let mut message = String::from_str("unexpected character '");
            message.push(ch);
            message.push('\'');
            let mut found = String::new();
            found.push('\'');
            found.push(ch);
            found.push('\'');
            proof {
                reveal_strlit("'");
                assert(message@ =~= "unexpected character '"@ + seq![ch] + "'"@);
                assert(found@ =~= "'"@ + seq![ch] + "'"@);
            }
            return Err(
                Error::syntax(
                    message.as_str(),
                    self.line,
                    self.col,
                    Some("valid token".to_owned()),
                    Some(found),
                ),
            );
        };
        Ok(Token::new(kind, Span::new(start_pos, self.pos, start_line, start_col)))
    }

    /// Reads all the tokens that are left, up to and including `Eof`. The
    /// first error ends the reading, and no token is handed out then.
    pub fn tokenize(&mut self) -> (r: Result<Vec<Token>, Error>)
        requires
            old(self).wf(),
        ensures
            final(self).wf(),
            final(self).text() == old(self).text(),
            match r {
                Ok(tokens) => tokens_from(old(self).text(), old(self).cursor()) == Ok::<
                    Seq<TokenView>,
                    ErrorView,
                >(tokens_view(tokens@)),
                Err(e) => tokens_from(old(self).text(), old(self).cursor()) == Err::<
                    Seq<TokenView>,
                    ErrorView,
                >(e@),
            },
            r matches Ok(tokens) ==> tokens@.len() >= 1 && tokens@.last().kind@ is Eof && forall|
                i: int,
            |
                0 <= i < tokens@.len() ==> (#[trigger] tokens@[i]).span.start
                    <= tokens@[i].span.end,
            r matches Ok(tokens) ==> each_stands(old(self).text(), tokens_view(tokens@)),
    {
        let mut tokens: Vec<Token> = Vec::new();
        let ghost s = self.chars@;
        let ghost first = self.cursor();
        let ghost mut places: Seq<int> = Seq::empty();
        loop
            invariant_except_break
                forall|rest: Seq<TokenView>|
                    tokens_from(s, self.cursor()) == Ok::<Seq<TokenView>, ErrorView>(rest)
                        ==> #[trigger] tokens_from(s, first) == Ok::<Seq<TokenView>, ErrorView>(
                        tokens_view(tokens@) + rest,
                    ),
                forall|e: ErrorView|
                    tokens_from(s, self.cursor()) == Err::<Seq<TokenView>, ErrorView>(e)
                        ==> #[trigger] tokens_from(s, first) == Err::<Seq<TokenView>, ErrorView>(
                        e,
                    ),
            invariant
                self.wf(),
                self.text() == s,
                s == old(self).text(),
                first == old(self).cursor(),
                forall|i: int|
                    0 <= i < tokens@.len() ==> (#[trigger] tokens@[i]).span.start
                        <= tokens@[i].span.end,
                places.len() == tokens@.len(),
                forall|i: int|
                    0 <= i < tokens@.len() ==> stands_at(s, (#[trigger] tokens@[i])@, places[i]),
            ensures
                tokens_from(s, first) == Ok::<Seq<TokenView>, ErrorView>(tokens_view(tokens@)),
                tokens@.len() >= 1,
                tokens@.last().kind@ is Eof,
            decreases self.chars.len() - self.idx,
        {
            let ghost before = self.cursor();
            let ghost seen = tokens_view(tokens@);
            proof {
                lemma_token_advances(s, before);
            }
            let token = match self.next_token() {
                Ok(token) => token,
                Err(e) => {
                    return Err(e);
                },
            };
            let is_eof = match token.kind {
                TokenKind::Eof => true,
                _ => false,
            };
            let ghost view = token@;
            tokens.push(token);
            proof {
                places = places.push(after_space(s, before).idx);
                assert(tokens_view(tokens@) =~= seen.push(view));
                if is_eof {
                    assert(seen + seq![view] =~= seen.push(view));
                } else {
                    assert forall|rest: Seq<TokenView>|
                        tokens_from(s, self.cursor()) == Ok::<Seq<TokenView>, ErrorView>(
                            rest,
                        ) implies #[trigger] tokens_from(s, first) == Ok::<
                        Seq<TokenView>,
                        ErrorView,
                    >(tokens_view(tokens@) + rest) by {
                        assert(seen + (seq![view] + rest) =~= seen.push(view) + rest);
                    }
                }
            }
            if is_eof {
                break ;
            }
        }
        proof {
            assert forall|i: int| 0 <= i < tokens@.len() implies stands(
                s,
                #[trigger] tokens_view(tokens@)[i],
            ) by {
                assert(stands_at(s, tokens@[i]@, places[i]));
            }
        }
        Ok(tokens)
    }
}

} // verus!

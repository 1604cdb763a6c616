//! The parser: from tokens to the tree of directives.

use vstd::prelude::*;
use crate::ast::config::Config;
use crate::ast::directive::{
    directives_view, lemma_children_view, Directive, DirectiveItem, DirectiveView, ItemView,
};
use crate::ast::span::Span;
use crate::ast::value::{values_view, Value, ValueView};
use crate::error::{Error, ErrorView};
use crate::parser::lexer::{lemma_tokens_end, tokens_of, Lexer};
use crate::parser::token::{tokens_view, Token, TokenKind, TokenKindView, TokenView};

verus! {

/// A token sequence the parser can work on: not empty, and ended by `Eof`.
pub open spec fn ended(toks: Seq<TokenView>) -> bool {
    toks.len() > 0 && toks.last().kind is Eof
}

/// Whether two token kinds are the same kind, whatever text they carry.
pub open spec fn same_kind(a: TokenKindView, b: TokenKindView) -> bool {
    match a {
        TokenKindView::Word(_) => b is Word,
        TokenKindView::String(_) => b is String,
        TokenKindView::Number(_) => b is Number,
        TokenKindView::Variable(_) => b is Variable,
        TokenKindView::LeftBrace => b is LeftBrace,
        TokenKindView::RightBrace => b is RightBrace,
        TokenKindView::Semicolon => b is Semicolon,
        TokenKindView::Comment(_) => b is Comment,
        TokenKindView::Eof => b is Eof,
    }
}

/// The value that a token stands for as an argument: a word or a number is a
/// literal, a variable is a variable, and a quoted string is a single-quoted
/// value whichever quotes it stood in. The other kinds stand for none.
pub open spec fn value_of(kind: TokenKindView) -> Option<ValueView> {
    match kind {
        TokenKindView::String(s) => Some(ValueView::SingleQuoted(s)),
        TokenKindView::Word(s) => Some(ValueView::Literal(s)),
        TokenKindView::Number(s) => Some(ValueView::Literal(s)),
        TokenKindView::Variable(s) => Some(ValueView::Variable(s)),
        _ => None,
    }
}

/// The syntax error raised at `token`, which was found where `expected` was
/// owed.
pub open spec fn syntax_error(message: Seq<char>, token: TokenView, expected: Seq<char>)
    -> ErrorView {
    ErrorView::Syntax {
        message,
        line: token.span.line as nat,
        col: token.span.col as nat,
        expected: Some(expected),
        found: Some(token.kind.display_text()),
    }
}

/// The arguments read from `pos` on, and the index of the `;`, `{` or `Eof`
/// that ends them. Comments between them are passed over; a token that
/// stands for no value is an error.
pub open spec fn arguments_at(toks: Seq<TokenView>, pos: int) -> Result<
    (Seq<ValueView>, int),
    ErrorView,
>
    decreases toks.len() - pos,
{
    if pos < 0 || pos >= toks.len() {
        Ok((Seq::empty(), pos))
    } else {
        match toks[pos].kind {
            TokenKindView::Semicolon => Ok((Seq::empty(), pos)),
            TokenKindView::LeftBrace => Ok((Seq::empty(), pos)),
            TokenKindView::Eof => Ok((Seq::empty(), pos)),
            TokenKindView::Comment(_) => arguments_at(toks, pos + 1),
            kind => match value_of(kind) {
                None => Err(
                    syntax_error(
                        "expected value"@,
                        toks[pos],
                        "word, string, number, or variable"@,
                    ),
                ),
                Some(v) => match arguments_at(toks, pos + 1) {
                    Err(e) => Err(e),
                    Ok((rest, end)) => Ok((seq![v] + rest, end)),
                },
            },
        }
    }
}

/// The arguments end at or after the place they are read from, within the
/// tokens, at a `;`, a `{` or `Eof`.
pub proof fn lemma_arguments_at(toks: Seq<TokenView>, pos: int)
    requires
        0 <= pos < toks.len(),
        ended(toks),
    ensures
        arguments_at(toks, pos) matches Ok((_, end)) ==> pos <= end < toks.len() && (
        toks[end].kind is Semicolon || toks[end].kind is LeftBrace || toks[end].kind is Eof),
    decreases toks.len() - pos,
{
    match toks[pos].kind {
        TokenKindView::Semicolon => {},
        TokenKindView::LeftBrace => {},
        TokenKindView::Eof => {},
        _ => {
            lemma_arguments_at(toks, pos + 1);
        },
    }
}

/// The directive that begins at `pos`, and the index of the token after it.
///
/// A directive is a word, its arguments, and then either `;` (a simple
/// directive) or `{`, the directives of the block, and `}` (a block
/// directive). Every directive carries the default span.
pub open spec fn directive_at(toks: Seq<TokenView>, pos: int) -> Result<
    (DirectiveView, int),
    ErrorView,
>
    decreases toks.len() - pos, 0int,
    when 0 <= pos < toks.len() && ended(toks)
{
    match toks[pos].kind {
        TokenKindView::Word(name) => {
            proof {
                lemma_arguments_at(toks, pos + 1);
            }
            match arguments_at(toks, pos + 1) {
                Err(e) => Err(e),
                Ok((args, at)) => if toks[at].kind is LeftBrace {
                    match block_at(toks, at + 1) {
                        Err(e) => Err(e),
                        Ok((children, end)) => if toks[end].kind is RightBrace {
                            Ok(
                                (
                                    DirectiveView {
                                        item: ItemView::Block { name, args, children },
                                        span: Span::spec_default(),
                                    },
                                    end + 1,
                                ),
                            )
                        } else {
                            Err(syntax_error("unexpected token"@, toks[end], "'}'"@))
                        },
                    }
                } else if toks[at].kind is Semicolon {
                    Ok(
                        (
                            DirectiveView {
                                item: ItemView::Simple { name, args },
                                span: Span::spec_default(),
                            },
                            at + 1,
                        ),
                    )
                } else {
                    Err(syntax_error("unexpected token"@, toks[at], "';'"@))
                },
            }
        },
        _ => Err(syntax_error("expected directive name"@, toks[pos], "word"@)),
    }
}

/// The directives read from `pos` on inside a block, and the index of the
/// `}` or `Eof` that ends them. Comments between them are passed over.
///
/// Reading goes on behind each directive; that a directive always ends
/// further on within the tokens is shown by `lemma_directive_at`.
pub open spec fn block_at(toks: Seq<TokenView>, pos: int) -> Result<
    (Seq<DirectiveView>, int),
    ErrorView,
>
    decreases toks.len() - pos, 1int,
    when 0 <= pos < toks.len() && ended(toks)
{
    match toks[pos].kind {
        TokenKindView::RightBrace => Ok((Seq::empty(), pos)),
        TokenKindView::Eof => Ok((Seq::empty(), pos)),
        TokenKindView::Comment(_) => block_at(toks, pos + 1),
        _ => match directive_at(toks, pos) {
            Err(e) => Err(e),
            Ok((d, next)) => if pos < next < toks.len() {
                match block_at(toks, next) {
                    Err(e) => Err(e),
                    Ok((rest, end)) => Ok((seq![d] + rest, end)),
                }
            } else {
                Ok((seq![d], next))
            },
        },
    }
}

/// The top-level directives read from `pos` on, up to `Eof`. Comments
/// between them are passed over.
///
/// Reading goes on behind each directive; that a directive always ends
/// further on within the tokens is shown by `lemma_directive_at`.
pub open spec fn config_at(toks: Seq<TokenView>, pos: int) -> Result<Seq<DirectiveView>, ErrorView>
    decreases toks.len() - pos,
    when 0 <= pos < toks.len() && ended(toks)
{
    match toks[pos].kind {
        TokenKindView::Eof => Ok(Seq::empty()),
        TokenKindView::Comment(_) => config_at(toks, pos + 1),
        _ => match directive_at(toks, pos) {
            Err(e) => Err(e),
            Ok((d, next)) => if pos < next < toks.len() {
                match config_at(toks, next) {
                    Err(e) => Err(e),
                    Ok(rest) => Ok(seq![d] + rest),
                }
            } else {
                Ok(seq![d])
            },
        },
    }
}

/// The configuration that a text stands for: its tokens, parsed from the
/// first; the first error of either step where there is one.
pub open spec fn parse_text(s: Seq<char>) -> Result<Seq<DirectiveView>, ErrorView> {
    match tokens_of(s) {
        Err(e) => Err(e),
        Ok(toks) => config_at(toks, 0),
    }
}

/// The outcome of a parse as a mathematical value: the tree or the error.
pub open spec fn outcome(r: Result<Config, Error>) -> Result<Seq<DirectiveView>, ErrorView> {
    match r {
        Ok(config) => Ok(config@),
        Err(e) => Err(e@),
    }
}

/// A directive takes at least its name and its terminator and ends within
/// the tokens; the directives of a block end at a `}` or at `Eof`.
pub proof fn lemma_directive_at(toks: Seq<TokenView>, pos: int)
    requires
        0 <= pos < toks.len(),
        ended(toks),
    ensures
        directive_at(toks, pos) matches Ok((_, next)) ==> pos + 1 < next < toks.len(),
        block_at(toks, pos) matches Ok((_, end)) ==> pos <= end < toks.len() && (
        toks[end].kind is RightBrace || toks[end].kind is Eof),
    decreases toks.len() - pos, 2int,
{
    lemma_directive_only(toks, pos);
    lemma_block_only(toks, pos);
}

/// A directive takes at least its name and its terminator.
proof fn lemma_directive_only(toks: Seq<TokenView>, pos: int)
    requires
        0 <= pos < toks.len(),
        ended(toks),
    ensures
        directive_at(toks, pos) matches Ok((_, next)) ==> pos + 1 < next < toks.len(),
    decreases toks.len() - pos, 0int,
{
    match toks[pos].kind {
        TokenKindView::Word(name) => {
            lemma_arguments_at(toks, pos + 1);
            match arguments_at(toks, pos + 1) {
                Ok((args, at)) => {
                    if toks[at].kind is LeftBrace {
                        lemma_block_only(toks, at + 1);
                    }
                },
                Err(_) => {},
            }
        },
        _ => {},
    }
}

/// The directives of a block end at a `}` or at `Eof`.
proof fn lemma_block_only(toks: Seq<TokenView>, pos: int)
    requires
        0 <= pos < toks.len(),
        ended(toks),
    ensures
        block_at(toks, pos) matches Ok((_, end)) ==> pos <= end < toks.len() && (
        toks[end].kind is RightBrace || toks[end].kind is Eof),
    decreases toks.len() - pos, 1int,
{
    match toks[pos].kind {
        TokenKindView::RightBrace => {},
        TokenKindView::Eof => {},
        TokenKindView::Comment(_) => {
            lemma_block_only(toks, pos + 1);
        },
        _ => {
            lemma_directive_only(toks, pos);
            match directive_at(toks, pos) {
                Ok((d, next)) => {
                    lemma_block_only(toks, next);
                },
                Err(_) => {},
            }
        },
    }
}

/// A parser over the tokens of one text.
pub struct Parser {
    /// The tokens, ended by `Eof`.
    tokens: Vec<Token>,
    /// The index of the token that is looked at.
    pos: usize,
}

impl Parser {
    /// The tokens that are being parsed.
    pub closed spec fn tokens(&self) -> Seq<TokenView> {
        tokens_view(self.tokens@)
    }

    /// The index of the token that is looked at.
    pub closed spec fn position(&self) -> int {
        self.pos as int
    }

    /// The invariant of a parser: its tokens end with `Eof`, and it looks at
    /// one of them.
    pub closed spec fn wf(&self) -> bool {
        ended(tokens_view(self.tokens@)) && self.pos < self.tokens.len()
    }

    /// A well-formed parser looks at one of its tokens, which end with `Eof`.
    pub proof fn lemma_wf(&self)
        requires
            self.wf(),
        ensures
            ended(self.tokens()),
            0 <= self.position() < self.tokens().len(),
    {
    }

    /// A parser over the tokens of `input`, at the first of them. Fails
    /// where the text cannot be split into tokens.
    pub fn new(input: &str) -> (r: Result<Parser, Error>)
        requires
            input@.len() < usize::MAX,
        ensures
            match r {
                Ok(parser) => parser.wf() && parser.position() == 0 && tokens_of(input@) == Ok::<
                    Seq<TokenView>,
                    ErrorView,
                >(parser.tokens()),
                Err(e) => tokens_of(input@) == Err::<Seq<TokenView>, ErrorView>(e@),
            },
    {
        let mut lexer = Lexer::new(input);
        proof {
            lemma_tokens_end(input@, lexer.cursor());
        }
        match lexer.tokenize() {
            Ok(tokens) => Ok(Parser { tokens, pos: 0 }),
            Err(e) => Err(e),
        }
    }

    fn current(&self) -> (r: &Token)
        requires
            self.wf(),
        ensures
            r@ == self.tokens()[self.pos as int],
    {
        &self.tokens[self.pos]
    }

    fn check(&self, kind: &TokenKind) -> (r: bool)
        requires
            self.wf(),
        ensures
            r == (!(self.tokens()[self.pos as int].kind is Eof) && same_kind(
                self.tokens()[self.pos as int].kind,
                kind@,
            )),
    {
        if self.is_eof() {
            return false;
        }
        kinds_match(&self.current().kind, kind)
    }

    fn check_comment(&self) -> (r: bool)
        requires
            self.wf(),
        ensures
            r == (self.tokens()[self.pos as int].kind is Comment),
    {
        match &self.current().kind {
            TokenKind::Comment(_) => true,
            _ => false,
        }
    }

    fn is_eof(&self) -> (r: bool)
        requires
            self.wf(),
        ensures
            r == (self.tokens()[self.pos as int].kind is Eof),
    {
        match &self.current().kind {
            TokenKind::Eof => true,
            _ => false,
        }
    }

    fn advance(&mut self)
        requires
            old(self).wf(),
        ensures
            final(self).wf(),
            final(self).tokens == old(self).tokens,
            final(self).pos == if old(self).tokens()[old(self).pos as int].kind is Eof {
                old(self).pos as int
            } else {
                old(self).pos + 1
            },
    {
        if !self.is_eof() {
            self.pos += 1;
        }
    }

    fn parse_value(&mut self) -> (r: Result<Value, Error>)
        requires
            old(self).wf(),
        ensures
            final(self).wf(),
            final(self).tokens == old(self).tokens,
            match r {
                Ok(v) => value_of(old(self).tokens()[old(self).pos as int].kind) == Some(v@)
                    && final(self).pos == old(self).pos + 1,
                Err(e) => value_of(old(self).tokens()[old(self).pos as int].kind) is None && e@
                    == syntax_error(
                    "expected value"@,
                    old(self).tokens()[old(self).pos as int],
                    "word, string, number, or variable"@,
                ),
            },
    {
        let token = self.current();
        let value = match &token.kind {
            TokenKind::String(s) => Value::SingleQuoted(s.clone()),
            TokenKind::Word(s) => Value::Literal(s.clone()),
            TokenKind::Number(s) => Value::Literal(s.clone()),
            TokenKind::Variable(s) => Value::Variable(s.clone()),
            _ => {
                return Err(
                    Error::syntax(
                        "expected value",
                        token.span.line,
                        token.span.col,
                        Some("word, string, number, or variable".to_owned()),
                        Some(token.kind.to_string()),
                    ),
                );
            },
        };
        self.advance();
        Ok(value)
    }

    fn expect(&mut self, kind: &TokenKind) -> (r: Result<Token, Error>)
        requires
            old(self).wf(),
        ensures
            final(self).wf(),
            final(self).tokens == old(self).tokens,
            match r {
                Ok(token) => token@ == old(self).tokens()[old(self).pos as int] && same_kind(
                    token@.kind,
                    kind@,
                ) && final(self).pos == if token@.kind is Eof {
                    old(self).pos as int
                } else {
                    old(self).pos + 1
                },
                Err(e) => !same_kind(old(self).tokens()[old(self).pos as int].kind, kind@) && e@
                    == syntax_error(
                    "unexpected token"@,
                    old(self).tokens()[old(self).pos as int],
                    kind@.display_text(),
                ),
            },
    {
        let token = self.current().clone();
        if kinds_match(&token.kind, kind) {
            self.advance();
            Ok(token)
        } else {
            Err(
                Error::syntax(
                    "unexpected token",
                    token.span.line,
                    token.span.col,
                    Some(kind.to_string()),
                    Some(token.kind.to_string()),
                ),
            )
        }
    }

    fn expect_word(&mut self) -> (r: Result<String, Error>)
        requires
            old(self).wf(),
        ensures
            final(self).wf(),
            final(self).tokens == old(self).tokens,
            match r {
                Ok(name) => old(self).tokens()[old(self).pos as int].kind == TokenKindView::Word(
                    name@,
                ) && final(self).pos == old(self).pos + 1,
                Err(e) => !(old(self).tokens()[old(self).pos as int].kind is Word) && e@
                    == syntax_error(
                    "expected directive name"@,
                    old(self).tokens()[old(self).pos as int],
                    "word"@,
                ),
            },
    {
        let token = self.current();
        if let TokenKind::Word(name) = &token.kind {
            let result = name.clone();
            self.advance();
            Ok(result)
        } else {
            Err(
                Error::syntax(
                    "expected directive name",
                    token.span.line,
                    token.span.col,
                    Some("word".to_owned()),
                    Some(token.kind.to_string()),
                ),
            )
        }
    }

    fn parse_arguments(&mut self) -> (r: Result<Vec<Value>, Error>)
        requires
            old(self).wf(),
        ensures
            final(self).wf(),
            final(self).tokens == old(self).tokens,
            match r {
                Ok(args) => arguments_at(old(self).tokens(), old(self).pos as int) == Ok::<
                    (Seq<ValueView>, int),
                    ErrorView,
                >((values_view(args@), final(self).pos as int)),
                Err(e) => arguments_at(old(self).tokens(), old(self).pos as int) == Err::<
                    (Seq<ValueView>, int),
                    ErrorView,
                >(e@),
            },
    {
        let mut args: Vec<Value> = Vec::new();
        let ghost toks = self.tokens();
        let ghost first = self.pos as int;
        assert(values_view(args@) =~= Seq::<ValueView>::empty());
        while !self.check(&TokenKind::Semicolon) && !self.check(&TokenKind::LeftBrace)
            && !self.is_eof()
            invariant
                self.wf(),
                self.tokens == old(self).tokens,
                toks == self.tokens(),
                first == old(self).pos,
                forall|rest: Seq<ValueView>, end: int|
                    arguments_at(toks, self.pos as int) == Ok::<(Seq<ValueView>, int), ErrorView>(
                        (rest, end),
                    ) ==> #[trigger] arguments_at(toks, first) == Ok::<
                        (Seq<ValueView>, int),
                        ErrorView,
                    >((values_view(args@) + rest, end)),
                forall|e: ErrorView|
                    arguments_at(toks, self.pos as int) == Err::<(Seq<ValueView>, int), ErrorView>(
                        e,
                    ) ==> #[trigger] arguments_at(toks, first) == Err::<
                        (Seq<ValueView>, int),
                        ErrorView,
                    >(e),
            decreases self.tokens.len() - self.pos,
        {
            if self.check_comment() {
                self.advance();
                continue ;
            }
            let ghost seen = values_view(args@);
            let arg = match self.parse_value() {
                Ok(arg) => arg,
                Err(e) => {
                    return Err(e);
                },
            };
            let ghost view = arg@;
            args.push(arg);
            proof {
                assert(values_view(args@) =~= seen.push(view));
                assert forall|rest: Seq<ValueView>, end: int|
                    arguments_at(toks, self.pos as int) == Ok::<(Seq<ValueView>, int), ErrorView>(
                        (rest, end),
                    ) implies #[trigger] arguments_at(toks, first) == Ok::<
                    (Seq<ValueView>, int),
                    ErrorView,
                >((values_view(args@) + rest, end)) by {
                    assert(seen + (seq![view] + rest) =~= seen.push(view) + rest);
                }
            }
        }
        proof {
            assert(values_view(args@) + Seq::<ValueView>::empty() =~= values_view(args@));
        }
        Ok(args)
    }

    fn parse_directive(&mut self) -> (r: Result<Directive, Error>)
        requires
            old(self).wf(),
        ensures
            final(self).wf(),
            final(self).tokens == old(self).tokens,
            match r {
                Ok(d) => directive_at(old(self).tokens(), old(self).pos as int) == Ok::<
                    (DirectiveView, int),
                    ErrorView,
                >((d@, final(self).pos as int)),
                Err(e) => directive_at(old(self).tokens(), old(self).pos as int) == Err::<
                    (DirectiveView, int),
                    ErrorView,
                >(e@),
            },
        decreases old(self).tokens.len() - old(self).pos, 0int,
    {
        let ghost toks = self.tokens();
        let name = match self.expect_word() {
            Ok(name) => name,
            Err(e) => {
                return Err(e);
            },
        };
        proof {
            lemma_arguments_at(toks, self.pos as int);
        }
        let args = match self.parse_arguments() {
            Ok(args) => args,
            Err(e) => {
                return Err(e);
            },
        };
        if self.check(&TokenKind::LeftBrace) {
            self.advance();
            let children = match self.parse_block_contents() {
                Ok(children) => children,
                Err(e) => {
                    return Err(e);
                },
            };
            proof {
                reveal_strlit("'}'");
                reveal_strlit("'{'");
                reveal_strlit("';'");
            }
            match self.expect(&TokenKind::RightBrace) {
                Ok(_) => {},
                Err(e) => {
                    return Err(e);
                },
            }
            let d = Directive {
                item: DirectiveItem::Block { name, args, children },
                span: Span::default(),
            };
            proof {
                lemma_children_view(d);
            }
            Ok(d)
        } else {
            match self.expect(&TokenKind::Semicolon) {
                Ok(_) => {},
                Err(e) => {
                    return Err(e);
                },
            }
            Ok(Directive { item: DirectiveItem::Simple { name, args }, span: Span::default() })
        }
    }

    fn parse_block_contents(&mut self) -> (r: Result<Vec<Directive>, Error>)
        requires
            old(self).wf(),
        ensures
            final(self).wf(),
            final(self).tokens == old(self).tokens,
            match r {
                Ok(ds) => block_at(old(self).tokens(), old(self).pos as int) == Ok::<
                    (Seq<DirectiveView>, int),
                    ErrorView,
                >((directives_view(ds@), final(self).pos as int)),
                Err(e) => block_at(old(self).tokens(), old(self).pos as int) == Err::<
                    (Seq<DirectiveView>, int),
                    ErrorView,
                >(e@),
            },
        decreases old(self).tokens.len() - old(self).pos, 1int,
    {
        let mut directives: Vec<Directive> = Vec::new();
        let ghost toks = self.tokens();
        let ghost first = self.pos as int;
        assert(directives_view(directives@) =~= Seq::<DirectiveView>::empty());
        while !self.check(&TokenKind::RightBrace) && !self.is_eof()
            invariant
                self.wf(),
                self.tokens == old(self).tokens,
                toks == self.tokens(),
                first == old(self).pos,
                first <= self.pos,
                forall|rest: Seq<DirectiveView>, end: int|
                    block_at(toks, self.pos as int) == Ok::<(Seq<DirectiveView>, int), ErrorView>(
                        (rest, end),
                    ) ==> #[trigger] block_at(toks, first) == Ok::<
                        (Seq<DirectiveView>, int),
                        ErrorView,
                    >((directives_view(directives@) + rest, end)),
                forall|e: ErrorView|
                    block_at(toks, self.pos as int) == Err::<(Seq<DirectiveView>, int), ErrorView>(
                        e,
                    ) ==> #[trigger] block_at(toks, first) == Err::<
                        (Seq<DirectiveView>, int),
                        ErrorView,
                    >(e),
            decreases self.tokens.len() - self.pos,
        {
            if self.check_comment() {
                self.advance();
                continue ;
            }
            let ghost seen = directives_view(directives@);
            let ghost at = self.pos as int;
            proof {
                lemma_directive_at(toks, at);
            }
            let directive = match self.parse_directive() {
                Ok(directive) => directive,
                Err(e) => {
                    return Err(e);
                },
            };
            let ghost view = directive@;
            directives.push(directive);
            proof {
                assert(directives_view(directives@) =~= seen.push(view));
                assert forall|rest: Seq<DirectiveView>, end: int|
                    block_at(toks, self.pos as int) == Ok::<(Seq<DirectiveView>, int), ErrorView>(
                        (rest, end),
                    ) implies #[trigger] block_at(toks, first) == Ok::<
                    (Seq<DirectiveView>, int),
                    ErrorView,
                >((directives_view(directives@) + rest, end)) by {
                    assert(seen + (seq![view] + rest) =~= seen.push(view) + rest);
                }
            }
        }
        proof {
            assert(directives_view(directives@) + Seq::<DirectiveView>::empty()
                =~= directives_view(directives@));
        }
        Ok(directives)
    }

    /// Parses the tokens from the one looked at up to `Eof`: directive after
    /// directive, comments between them passed over. The first error ends
    /// the parse, and no tree is handed out then.
    pub fn parse(&mut self) -> (r: Result<Config, Error>)
        requires
            old(self).wf(),
        ensures
            final(self).wf(),
            final(self).tokens() == old(self).tokens(),
            match r {
                Ok(config) => config_at(old(self).tokens(), old(self).position()) == Ok::<
                    Seq<DirectiveView>,
                    ErrorView,
                >(config@) && final(self).tokens()[final(self).position()].kind is Eof,
                Err(e) => config_at(old(self).tokens(), old(self).position()) == Err::<
                    Seq<DirectiveView>,
                    ErrorView,
                >(e@),
            },
    {
        let mut directives: Vec<Directive> = Vec::new();
        let ghost toks = self.tokens();
        let ghost first = self.pos as int;
        assert(directives_view(directives@) =~= Seq::<DirectiveView>::empty());
        while !self.is_eof()
            invariant
                self.wf(),
                self.tokens == old(self).tokens,
                toks == self.tokens(),
                first == old(self).pos,
                forall|rest: Seq<DirectiveView>|
                    config_at(toks, self.pos as int) == Ok::<Seq<DirectiveView>, ErrorView>(rest)
                        ==> #[trigger] config_at(toks, first) == Ok::<
                        Seq<DirectiveView>,
                        ErrorView,
                    >(directives_view(directives@) + rest),
                forall|e: ErrorView|
                    config_at(toks, self.pos as int) == Err::<Seq<DirectiveView>, ErrorView>(e)
                        ==> #[trigger] config_at(toks, first) == Err::<
                        Seq<DirectiveView>,
                        ErrorView,
                    >(e),
            decreases self.tokens.len() - self.pos,
        {
            if self.check_comment() {
                self.advance();
                continue ;
            }
            let ghost seen = directives_view(directives@);
            let ghost at = self.pos as int;
            proof {
                lemma_directive_at(toks, at);
            }
            let directive = match self.parse_directive() {
                Ok(directive) => directive,
                Err(e) => {
                    return Err(e);
                },
            };
            let ghost view = directive@;
            directives.push(directive);
            proof {
                assert(directives_view(directives@) =~= seen.push(view));
                assert forall|rest: Seq<DirectiveView>|
                    config_at(toks, self.pos as int) == Ok::<Seq<DirectiveView>, ErrorView>(
                        rest,
                    ) implies #[trigger] config_at(toks, first) == Ok::<
                    Seq<DirectiveView>,
                    ErrorView,
                >(directives_view(directives@) + rest) by {
                    assert(seen + (seq![view] + rest) =~= seen.push(view) + rest);
                }
            }
        }
        proof {
            assert(directives_view(directives@) + Seq::<DirectiveView>::empty()
                =~= directives_view(directives@));
        }
        Ok(Config::with_directives(directives))
    }
}

/// Whether two token kinds are the same kind, whatever text they carry.
pub fn kinds_match(a: &TokenKind, b: &TokenKind) -> (r: bool)
    ensures
        r == same_kind(a@, b@),
{
    match a {
        TokenKind::Word(_) => b.is_word(),
        TokenKind::String(_) => b.is_string(),
        TokenKind::Number(_) => b.is_number(),
        TokenKind::Variable(_) => b.is_variable(),
        TokenKind::LeftBrace => match b {
            TokenKind::LeftBrace => true,
            _ => false,
        },
        TokenKind::RightBrace => match b {
            TokenKind::RightBrace => true,
            _ => false,
        },
        TokenKind::Semicolon => match b {
            TokenKind::Semicolon => true,
            _ => false,
        },
        TokenKind::Comment(_) => match b {
            TokenKind::Comment(_) => true,
            _ => false,
        },
        TokenKind::Eof => match b {
            TokenKind::Eof => true,
            _ => false,
        },
    }
}

/// Parses configuration text into its tree of directives: splits the text
/// into tokens, then parses the tokens. The first error of either step is
/// returned, and no tree then.
pub fn parse(input: &str) -> (r: Result<Config, Error>)
    requires
        input@.len() < usize::MAX,
    ensures
        outcome(r) == parse_text(input@),
{
    match Parser::new(input) {
        Ok(mut parser) => parser.parse(),
        Err(e) => Err(e),
    }
}

} // verus!

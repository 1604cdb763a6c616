//! What holds of the grammar, whatever the input.

use vstd::prelude::*;
use crate::ast::directive::{DirectiveView, ItemView};
use crate::ast::span::Span;
use crate::ast::value::ValueView;
use crate::error::ErrorView;
use crate::parser::lexer::{
    after_space, close_brace, column_at, each_stands, feeds, is_word_char, is_word_start,
    lemma_after_space, lemma_placed_after_space, lemma_placed_moved, lemma_token_advances,
    line_at, line_feed, moved, next_token_at, not_number, not_word, placed, quote_end, stands,
    stands_at, token_at, tokens_from, tokens_of, unexpected_character, Cursor, QuoteEnd,
};
use crate::ast::config::Config;
use crate::error::Error;
use crate::parser::parse::{
    arguments_at, block_at, config_at, directive_at, ended, lemma_arguments_at,
    lemma_directive_at, outcome, parse_text, syntax_error, value_of,
};
use crate::text::{
    byte_len, first_where, is_digit, is_space, lemma_byte_len_grows, lemma_first_where,
    lemma_first_where_is, trim,
};
use crate::parser::token::{TokenKindView, TokenView};

verus! {

/// The values that argument tokens stand for, in order.
pub open spec fn values_of(args: Seq<TokenView>) -> Seq<ValueView> {
    Seq::new(args.len(), |i: int| value_of(args[i].kind).unwrap())
}

/// Whether every token stands for a value: is a word, a string, a number or
/// a variable.
pub open spec fn all_values(args: Seq<TokenView>) -> bool {
    forall|i: int| 0 <= i < args.len() ==> value_of(#[trigger] args[i].kind) is Some
}

/// A simple directive without a source location.
pub open spec fn simple(name: Seq<char>, args: Seq<ValueView>) -> DirectiveView {
    DirectiveView { item: ItemView::Simple { name, args }, span: Span::spec_default() }
}

/// A block directive without a source location.
pub open spec fn block(name: Seq<char>, args: Seq<ValueView>, children: Seq<DirectiveView>)
    -> DirectiveView {
    DirectiveView { item: ItemView::Block { name, args, children }, span: Span::spec_default() }
}

/// Tokens that stand for values, up to a token that ends the arguments, are
/// read as those values, in order, and nothing else.
pub proof fn lemma_arguments_of_values(toks: Seq<TokenView>, from: int, to: int)
    requires
        0 <= from <= to < toks.len(),
        all_values(toks.subrange(from, to)),
        toks[to].kind is Semicolon || toks[to].kind is LeftBrace || toks[to].kind is Eof,
    ensures
        arguments_at(toks, from) == Ok::<(Seq<ValueView>, int), ErrorView>(
            (values_of(toks.subrange(from, to)), to),
        ),
    decreases to - from,
{
    let args = toks.subrange(from, to);
    if from == to {
        assert(values_of(args) =~= Seq::<ValueView>::empty());
    } else {
        assert(args[0] == toks[from]);
        assert(value_of(args[0].kind) is Some);
        let rest = toks.subrange(from + 1, to);
        assert forall|i: int| 0 <= i < rest.len() implies value_of(
            #[trigger] rest[i].kind,
        ) is Some by {
            assert(rest[i] == args[i + 1]);
        }
        lemma_arguments_of_values(toks, from + 1, to);
        assert(values_of(args) =~= seq![value_of(toks[from].kind).unwrap()] + values_of(rest)) by {
            assert forall|i: int| 0 <= i < args.len() implies values_of(args)[i] == (seq![
                value_of(toks[from].kind).unwrap(),
            ] + values_of(rest))[i] by {
                if i > 0 {
                    assert(rest[i - 1] == args[i]);
                }
            }
        }
    }
}

/// The tokens of `name a1 a2 ... aN;`, where each `ai` is a word, a string,
/// a number or a variable, parse to exactly one top-level simple directive
/// with that name and the values of `a1` to `aN`, in that order.
pub proof fn theorem_simple_directive(
    name: Seq<char>,
    toks: Seq<TokenView>,
)
    requires
        toks.len() >= 3,
        toks[0].kind == TokenKindView::Word(name),
        all_values(toks.subrange(1, toks.len() - 2)),
        toks[toks.len() - 2].kind is Semicolon,
        toks[toks.len() - 1].kind is Eof,
    ensures
        config_at(toks, 0) == Ok::<Seq<DirectiveView>, ErrorView>(
            seq![simple(name, values_of(toks.subrange(1, toks.len() - 2)))],
        ),
{
    let n = toks.len() as int;
    assert(ended(toks));
    lemma_arguments_of_values(toks, 1, n - 2);
    assert(directive_at(toks, 0) == Ok::<(DirectiveView, int), ErrorView>(
        (simple(name, values_of(toks.subrange(1, n - 2))), n - 1),
    ));
    assert(config_at(toks, n - 1) == Ok::<Seq<DirectiveView>, ErrorView>(Seq::empty()));
    assert(seq![simple(name, values_of(toks.subrange(1, n - 2)))] + Seq::<DirectiveView>::empty()
        =~= seq![simple(name, values_of(toks.subrange(1, n - 2)))]);
}

/// A directive that lacks its semicolon is an error, not a tree: the tokens
/// of `name a1 ... aN` with the input ending there give the syntax error
/// that expected `;` and found the end of the file.
pub proof fn theorem_missing_semicolon(name: Seq<char>, toks: Seq<TokenView>)
    requires
        toks.len() >= 2,
        toks[0].kind == TokenKindView::Word(name),
        all_values(toks.subrange(1, toks.len() - 1)),
        toks[toks.len() - 1].kind is Eof,
    ensures
        config_at(toks, 0) == Err::<Seq<DirectiveView>, ErrorView>(
            syntax_error("unexpected token"@, toks[toks.len() - 1], "';'"@),
        ),
        syntax_error("unexpected token"@, toks[toks.len() - 1], "';'"@) matches ErrorView::Syntax {
            expected,
            found,
            ..
        } && expected == Some("';'"@) && found == Some("end of file"@),
{
    let n = toks.len() as int;
    assert(ended(toks));
    lemma_arguments_of_values(toks, 1, n - 1);
}

/// Whether `b` holds, `shift` places further on, tokens of the kinds and
/// texts that `a` holds before `limit`, whatever their places in the source.
pub open spec fn same_tokens(a: Seq<TokenView>, b: Seq<TokenView>, limit: int, shift: int) -> bool {
    forall|i: int|
        0 <= i < limit ==> 0 <= i + shift < b.len() && b[i + shift].kind == (#[trigger] a[i]).kind
}

/// Arguments are read alike wherever the same tokens stand.
pub proof fn lemma_arguments_frame(
    a: Seq<TokenView>,
    b: Seq<TokenView>,
    at: int,
    limit: int,
    shift: int,
)
    requires
        0 <= at < a.len(),
        ended(a),
        ended(b),
        same_tokens(a, b, limit, shift),
        arguments_at(a, at) matches Ok((_, end)) && end < limit <= a.len(),
    ensures
        arguments_at(a, at) matches Ok((args, end)) && arguments_at(b, at + shift) == Ok::<
            (Seq<ValueView>, int),
            ErrorView,
        >((args, end + shift)),
    decreases a.len() - at,
{
    lemma_arguments_at(a, at);
    assert(b[at + shift].kind == a[at].kind);
    match a[at].kind {
        TokenKindView::Semicolon => {},
        TokenKindView::LeftBrace => {},
        TokenKindView::Eof => {},
        TokenKindView::Comment(_) => {
            lemma_arguments_frame(a, b, at + 1, limit, shift);
        },
        kind => {
            lemma_arguments_frame(a, b, at + 1, limit, shift);
        },
    }
}

/// A directive is read alike wherever the same tokens stand, and so are the
/// directives of a block up to the token that ends them.
pub proof fn lemma_directive_frame(
    a: Seq<TokenView>,
    b: Seq<TokenView>,
    at: int,
    limit: int,
    shift: int,
)
    requires
        0 <= at < a.len(),
        ended(a),
        ended(b),
        limit <= a.len(),
        same_tokens(a, b, limit, shift),
        directive_at(a, at) matches Ok((_, next)) && next <= limit,
    ensures
        directive_at(a, at) matches Ok((d, next)) && directive_at(b, at + shift) == Ok::<
            (DirectiveView, int),
            ErrorView,
        >((d, next + shift)),
    decreases a.len() - at, 0int,
{
    lemma_directive_at(a, at);
    assert(b[at + shift].kind == a[at].kind);
    match a[at].kind {
        TokenKindView::Word(name) => {
            lemma_arguments_at(a, at + 1);
            match arguments_at(a, at + 1) {
                Ok((args, end)) => {
                    if a[end].kind is LeftBrace {
                        lemma_directive_at(a, end + 1);
                        lemma_arguments_frame(a, b, at + 1, limit, shift);
                        assert(b[end + shift].kind == a[end].kind);
                        lemma_block_frame(a, b, end + 1, limit, shift);
                        match block_at(a, end + 1) {
                            Ok((children, close)) => {
                                assert(b[close + shift].kind == a[close].kind);
                            },
                            Err(_) => {},
                        }
                    } else {
                        lemma_arguments_frame(a, b, at + 1, limit, shift);
                        assert(b[end + shift].kind == a[end].kind);
                    }
                },
                Err(_) => {},
            }
        },
        _ => {},
    }
}

/// The directives of a block are read alike wherever the same tokens stand.
pub proof fn lemma_block_frame(
    a: Seq<TokenView>,
    b: Seq<TokenView>,
    at: int,
    limit: int,
    shift: int,
)
    requires
        0 <= at < a.len(),
        ended(a),
        ended(b),
        limit <= a.len(),
        same_tokens(a, b, limit, shift),
        block_at(a, at) matches Ok((_, end)) && end < limit,
    ensures
        block_at(a, at) matches Ok((ds, end)) && block_at(b, at + shift) == Ok::<
            (Seq<DirectiveView>, int),
            ErrorView,
        >((ds, end + shift)),
    decreases a.len() - at, 1int,
{
    lemma_directive_at(a, at);
    assert(b[at + shift].kind == a[at].kind);
    match a[at].kind {
        TokenKindView::RightBrace => {},
        TokenKindView::Eof => {},
        TokenKindView::Comment(_) => {
            lemma_block_frame(a, b, at + 1, limit, shift);
        },
        _ => {
            match directive_at(a, at) {
                Ok((d, next)) => {
                    lemma_directive_at(a, next);
                    lemma_directive_frame(a, b, at, limit, shift);
                    lemma_block_frame(a, b, next, limit, shift);
                    lemma_directive_at(b, at + shift);
                },
                Err(_) => {},
            }
        },
    }
}

/// Whether no token of `toks` but the last is `Eof`.
pub open spec fn one_end(toks: Seq<TokenView>) -> bool {
    ended(toks) && forall|i: int| 0 <= i < toks.len() - 1 ==> !(#[trigger] toks[i].kind is Eof)
}

/// Directives that parse on their own parse alike as the content of a block:
/// where `b` holds the tokens of `a` and, in place of the `Eof` of `a`, a
/// token that ends a block, the block's directives are those of `a`.
pub proof fn lemma_content_of_block(a: Seq<TokenView>, b: Seq<TokenView>, at: int, shift: int)
    requires
        0 <= at < a.len(),
        one_end(a),
        ended(b),
        same_tokens(a, b, a.len() - 1, shift),
        0 <= a.len() - 1 + shift < b.len(),
        b[a.len() - 1 + shift].kind is RightBrace || b[a.len() - 1 + shift].kind is Eof,
        config_at(a, at) is Ok,
    ensures
        config_at(a, at) matches Ok(ds) && block_at(b, at + shift) == Ok::<
            (Seq<DirectiveView>, int),
            ErrorView,
        >((ds, a.len() - 1 + shift)),
    decreases a.len() - at,
{
    let last = a.len() - 1;
    if at == last {
    } else {
        assert(b[at + shift].kind == a[at].kind);
        match a[at].kind {
            TokenKindView::Comment(_) => {
                lemma_content_of_block(a, b, at + 1, shift);
            },
            _ => {
                lemma_directive_at(a, at);
                match directive_at(a, at) {
                    Ok((d, next)) => {
                        lemma_directive_frame(a, b, at, last, shift);
                        lemma_content_of_block(a, b, next, shift);
                        lemma_directive_at(b, at + shift);
                    },
                    Err(_) => {},
                }
            },
        }
    }
}

/// The tokens of `name a1 ... aN { <directives> }` parse to exactly one
/// top-level block directive, whose children are what the tokens of
/// `<directives>` parse to on their own. `content` holds those tokens and
/// the `Eof` that ends them; `open` is the index of the `{`.
pub proof fn theorem_block_directive(
    name: Seq<char>,
    toks: Seq<TokenView>,
    open: int,
    content: Seq<TokenView>,
)
    requires
        1 <= open,
        toks.len() == open + content.len() + 2,
        toks[0].kind == TokenKindView::Word(name),
        all_values(toks.subrange(1, open)),
        toks[open].kind is LeftBrace,
        one_end(content),
        same_tokens(content, toks, content.len() - 1, open + 1),
        toks[toks.len() - 2].kind is RightBrace,
        toks[toks.len() - 1].kind is Eof,
        config_at(content, 0) is Ok,
    ensures
        config_at(content, 0) matches Ok(children) && config_at(toks, 0) == Ok::<
            Seq<DirectiveView>,
            ErrorView,
        >(seq![block(name, values_of(toks.subrange(1, open)), children)]),
{
    let n = toks.len() as int;
    assert(ended(toks));
    lemma_arguments_of_values(toks, 1, open);
    lemma_content_of_block(content, toks, 0, open + 1);
    let children = config_at(content, 0)->Ok_0;
    let d = block(name, values_of(toks.subrange(1, open)), children);
    assert(directive_at(toks, 0) == Ok::<(DirectiveView, int), ErrorView>((d, n - 1)));
    assert(config_at(toks, n - 1) == Ok::<Seq<DirectiveView>, ErrorView>(Seq::empty()));
    assert(seq![d] + Seq::<DirectiveView>::empty() =~= seq![d]);
}

/// An empty block has no children: the tokens of `name { }` parse to one
/// block directive without arguments and without children.
pub proof fn theorem_empty_block(name: Seq<char>, toks: Seq<TokenView>)
    requires
        toks.len() == 4,
        toks[0].kind == TokenKindView::Word(name),
        toks[1].kind is LeftBrace,
        toks[2].kind is RightBrace,
        toks[3].kind is Eof,
    ensures
        config_at(toks, 0) == Ok::<Seq<DirectiveView>, ErrorView>(
            seq![block(name, Seq::empty(), Seq::empty())],
        ),
{
    assert(ended(toks));
    let d = block(name, Seq::empty(), Seq::empty());
    assert(arguments_at(toks, 1) == Ok::<(Seq<ValueView>, int), ErrorView>((Seq::empty(), 1)));
    assert(block_at(toks, 2) == Ok::<(Seq<DirectiveView>, int), ErrorView>((Seq::empty(), 2)));
    assert(directive_at(toks, 0) == Ok::<(DirectiveView, int), ErrorView>((d, 3)));
    assert(config_at(toks, 3) == Ok::<Seq<DirectiveView>, ErrorView>(Seq::empty()));
    assert(seq![d] + Seq::<DirectiveView>::empty() =~= seq![d]);
}

/// A block that lacks its closing brace is an error, not a tree: the tokens
/// of `name a1 ... aN { <directives>` with the input ending there give the
/// syntax error that expected `}` and found the end of the file.
pub proof fn theorem_missing_brace(
    name: Seq<char>,
    toks: Seq<TokenView>,
    open: int,
    content: Seq<TokenView>,
)
    requires
        1 <= open,
        toks.len() == open + content.len() + 1,
        toks[0].kind == TokenKindView::Word(name),
        all_values(toks.subrange(1, open)),
        toks[open].kind is LeftBrace,
        one_end(content),
        same_tokens(content, toks, content.len() - 1, open + 1),
        toks[toks.len() - 1].kind is Eof,
        config_at(content, 0) is Ok,
    ensures
        config_at(toks, 0) == Err::<Seq<DirectiveView>, ErrorView>(
            syntax_error("unexpected token"@, toks[toks.len() - 1], "'}'"@),
        ),
        syntax_error("unexpected token"@, toks[toks.len() - 1], "'}'"@) matches ErrorView::Syntax {
            expected,
            found,
            ..
        } && expected == Some("'}'"@) && found == Some("end of file"@),
{
    assert(ended(toks));
    lemma_arguments_of_values(toks, 1, open);
    lemma_content_of_block(content, toks, 0, open + 1);
}

/// Holds of every token but comments.
pub open spec fn not_comment() -> spec_fn(TokenView) -> bool {
    |t: TokenView| !(t.kind is Comment)
}

/// The tokens without the comments among them.
pub open spec fn without_comments(toks: Seq<TokenView>) -> Seq<TokenView> {
    toks.filter(not_comment())
}

/// The number of tokens before `at` that are no comments: where the token at
/// `at` stands once the comments are taken out.
pub open spec fn kept(toks: Seq<TokenView>, at: int) -> int {
    without_comments(toks.take(at)).len() as int
}

/// One token further on, the count of kept tokens grows by one unless that
/// token is a comment.
pub proof fn lemma_kept_step(toks: Seq<TokenView>, at: int)
    requires
        0 <= at < toks.len(),
    ensures
        kept(toks, at + 1) == kept(toks, at) + if toks[at].kind is Comment {
            0int
        } else {
            1int
        },
        !(toks[at].kind is Comment) ==> without_comments(toks.take(at + 1)) == without_comments(
            toks.take(at),
        ).push(toks[at]),
        toks[at].kind is Comment ==> without_comments(toks.take(at + 1)) == without_comments(
            toks.take(at),
        ),
        kept(toks, 0) == 0,
{
    assert(toks.take(at + 1) =~= toks.take(at).push(toks[at]));
    toks.take(at).lemma_filter_push(toks[at], not_comment());
    assert(toks.take(0) =~= Seq::<TokenView>::empty());
    Seq::<TokenView>::empty().lemma_filter_len(not_comment());
}

/// A token that is no comment stands, among the kept tokens, at the place
/// that `kept` counts for it.
pub proof fn lemma_kept_index(toks: Seq<TokenView>, at: int, upto: int)
    requires
        0 <= at < upto <= toks.len(),
        !(toks[at].kind is Comment),
    ensures
        0 <= kept(toks, at) < without_comments(toks.take(upto)).len(),
        without_comments(toks.take(upto))[kept(toks, at)] == toks[at],
    decreases upto - at,
{
    if upto == at + 1 {
        lemma_kept_step(toks, at);
    } else {
        lemma_kept_index(toks, at, upto - 1);
        lemma_kept_step(toks, upto - 1);
    }
}

/// The count of kept tokens never falls.
pub proof fn lemma_kept_grows(toks: Seq<TokenView>, from: int, to: int)
    requires
        0 <= from <= to <= toks.len(),
    ensures
        kept(toks, from) <= kept(toks, to),
    decreases to - from,
{
    if from < to {
        lemma_kept_grows(toks, from, to - 1);
        lemma_kept_step(toks, to - 1);
    }
}

/// What holds of the kept tokens of a sequence that ends with `Eof`: they
/// end with `Eof` too, a token that is no comment is found among them at
/// its place, and every place counted lies before their end.
pub proof fn lemma_kept(toks: Seq<TokenView>, at: int)
    requires
        ended(toks),
        0 <= at < toks.len(),
    ensures
        ended(without_comments(toks)),
        0 <= kept(toks, at) < without_comments(toks).len(),
        !(toks[at].kind is Comment) ==> without_comments(toks)[kept(toks, at)] == toks[at],
        kept(toks, at + 1) == kept(toks, at) + if toks[at].kind is Comment {
            0int
        } else {
            1int
        },
{
    let n = toks.len() as int;
    assert(toks.take(n) =~= toks);
    lemma_kept_index(toks, n - 1, n);
    lemma_kept_step(toks, n - 1);
    lemma_kept_grows(toks, at, n - 1);
    lemma_kept_grows(toks, 0, at);
    lemma_kept_step(toks, at);
    if !(toks[at].kind is Comment) {
        lemma_kept_index(toks, at, n);
    }
}

/// The outcome of reading arguments, a directive or the directives of a
/// block, with the place where the reading ended counted among the kept
/// tokens.
pub open spec fn counted<T>(toks: Seq<TokenView>, r: Result<(T, int), ErrorView>) -> Result<
    (T, int),
    ErrorView,
> {
    match r {
        Ok((v, end)) => Ok((v, kept(toks, end))),
        Err(e) => Err(e),
    }
}

/// Arguments are read alike with and without the comments.
pub proof fn lemma_arguments_without_comments(toks: Seq<TokenView>, at: int)
    requires
        ended(toks),
        0 <= at < toks.len(),
    ensures
        arguments_at(without_comments(toks), kept(toks, at)) == counted(
            toks,
            arguments_at(toks, at),
        ),
    decreases toks.len() - at,
{
    lemma_kept(toks, at);
    match toks[at].kind {
        TokenKindView::Semicolon => {},
        TokenKindView::LeftBrace => {},
        TokenKindView::Eof => {},
        TokenKindView::Comment(_) => {
            lemma_arguments_without_comments(toks, at + 1);
        },
        kind => {
            if value_of(kind) is Some {
                lemma_arguments_without_comments(toks, at + 1);
            }
        },
    }
}

/// A directive is read alike with and without the comments.
pub proof fn lemma_directive_without_comments(toks: Seq<TokenView>, at: int)
    requires
        ended(toks),
        0 <= at < toks.len(),
        !(toks[at].kind is Comment),
    ensures
        directive_at(without_comments(toks), kept(toks, at)) == counted(
            toks,
            directive_at(toks, at),
        ),
    decreases toks.len() - at, 0int,
{
    lemma_kept(toks, at);
    match toks[at].kind {
        TokenKindView::Word(name) => {
            lemma_arguments_at(toks, at + 1);
            lemma_arguments_without_comments(toks, at + 1);
            match arguments_at(toks, at + 1) {
                Ok((args, end)) => {
                    lemma_kept(toks, end);
                    if toks[end].kind is LeftBrace {
                        lemma_directive_at(toks, end + 1);
                        lemma_block_without_comments(toks, end + 1);
                        match block_at(toks, end + 1) {
                            Ok((children, close)) => {
                                lemma_kept(toks, close);
                            },
                            Err(_) => {},
                        }
                    }
                },
                Err(_) => {},
            }
        },
        _ => {},
    }
}

/// The directives of a block are read alike with and without the comments.
pub proof fn lemma_block_without_comments(toks: Seq<TokenView>, at: int)
    requires
        ended(toks),
        0 <= at < toks.len(),
    ensures
        block_at(without_comments(toks), kept(toks, at)) == counted(toks, block_at(toks, at)),
    decreases toks.len() - at, 1int,
{
    lemma_kept(toks, at);
    match toks[at].kind {
        TokenKindView::RightBrace => {},
        TokenKindView::Eof => {},
        TokenKindView::Comment(_) => {
            lemma_block_without_comments(toks, at + 1);
            lemma_kept(toks, at + 1);
            lemma_block_skips_comment(toks, at);
        },
        _ => {
            lemma_directive_at(toks, at);
            lemma_directive_without_comments(toks, at);
            match directive_at(toks, at) {
                Ok((d, next)) => {
                    lemma_kept(toks, next);
                    lemma_kept_grows(toks, at + 1, next);
                    lemma_block_without_comments(toks, next);
                },
                Err(_) => {},
            }
        },
    }
}

/// At a comment, the directives of a block are those read from the next
/// token on.
proof fn lemma_block_skips_comment(toks: Seq<TokenView>, at: int)
    requires
        ended(toks),
        0 <= at < toks.len(),
        toks[at].kind is Comment,
    ensures
        block_at(toks, at) == block_at(toks, at + 1),
        config_at(toks, at) == config_at(toks, at + 1),
{
}

/// The top-level directives are read alike with and without the comments.
pub proof fn lemma_config_without_comments(toks: Seq<TokenView>, at: int)
    requires
        ended(toks),
        0 <= at < toks.len(),
    ensures
        config_at(without_comments(toks), kept(toks, at)) == config_at(toks, at),
    decreases toks.len() - at,
{
    lemma_kept(toks, at);
    match toks[at].kind {
        TokenKindView::Eof => {},
        TokenKindView::Comment(_) => {
            lemma_config_without_comments(toks, at + 1);
            lemma_kept(toks, at + 1);
            lemma_block_skips_comment(toks, at);
        },
        _ => {
            lemma_directive_at(toks, at);
            lemma_directive_without_comments(toks, at);
            match directive_at(toks, at) {
                Ok((d, next)) => {
                    lemma_kept(toks, next);
                    lemma_kept_grows(toks, at + 1, next);
                    lemma_config_without_comments(toks, next);
                },
                Err(_) => {},
            }
        },
    }
}

/// Comments leave no trace: wherever they stand among the tokens, the
/// outcome of the parse, tree or error, is that of the same tokens without
/// the comments.
pub proof fn theorem_comments_leave_no_trace(toks: Seq<TokenView>)
    requires
        ended(toks),
    ensures
        config_at(toks, 0) == config_at(without_comments(toks), 0),
{
    lemma_config_without_comments(toks, 0);
    lemma_kept_step(toks, 0);
}

/// Parsing is a function of the text: two parses of the same text have
/// structurally equal outcomes, both trees or both errors.
pub proof fn theorem_parse_is_deterministic(
    s: Seq<char>,
    first: Result<Config, Error>,
    second: Result<Config, Error>,
)
    requires
        outcome(first) == parse_text(s),
        outcome(second) == parse_text(s),
    ensures
        outcome(first) == outcome(second),
        first is Ok <==> second is Ok,
        first matches Ok(a) ==> second matches Ok(b) && a@ == b@,
        first matches Err(a) ==> second matches Err(b) && a@ == b@,
{
}

/// Where the lexer stands before the first character of a text.
pub open spec fn origin() -> Cursor {
    Cursor { idx: 0, line: 1, col: 1 }
}

/// Whether the lexer, reading token after token from `from` on, comes to
/// stand at `to` before it has read `Eof`.
pub open spec fn reaches(s: Seq<char>, from: Cursor, to: Cursor) -> bool
    decreases s.len() - from.idx,
    when from.idx >= 0
{
    from == to || match next_token_at(s, from) {
        Ok((token, next)) => !(token.kind is Eof) && {
            proof {
                lemma_token_advances(s, from);
            }
            reaches(s, next, to)
        },
        Err(_) => false,
    }
}

/// An error of the lexer, wherever in the text it is met, is the outcome of
/// reading the tokens and of the whole parse: no token and no tree is handed
/// out.
pub proof fn theorem_lexical_error_fails(s: Seq<char>, from: Cursor, at: Cursor, e: ErrorView)
    requires
        from.idx >= 0,
        reaches(s, from, at),
        next_token_at(s, at) == Err::<(TokenView, Cursor), ErrorView>(e),
    ensures
        tokens_from(s, from) == Err::<Seq<TokenView>, ErrorView>(e),
        from == origin() ==> parse_text(s) == Err::<Seq<DirectiveView>, ErrorView>(e),
    decreases s.len() - from.idx,
{
    if from != at {
        match next_token_at(s, from) {
            Ok((token, next)) => {
                lemma_token_advances(s, from);
                theorem_lexical_error_fails(s, next, at, e);
            },
            Err(_) => {},
        }
    }
}

/// Without a closing quote ahead, a quoted string does not close.
pub proof fn lemma_no_quote_no_close(s: Seq<char>, from: int, quote: char, escaped: bool)
    requires
        0 <= from,
        forall|j: int| from <= j < s.len() ==> s[j] != quote,
    ensures
        !(quote_end(s, from, quote, escaped) is Closed),
    decreases s.len() - from,
{
    if from < s.len() {
        if escaped {
            lemma_no_quote_no_close(s, from + 1, quote, false);
        } else if s[from] == '\\' {
            lemma_no_quote_no_close(s, from + 1, quote, true);
        } else if s[from] == '\n' {
        } else {
            lemma_no_quote_no_close(s, from + 1, quote, false);
        }
    }
}

/// A quoted string that is never closed is an error: where a quote opens a
/// token and the same quote does not occur again, the lexer fails, at a line
/// feed with a syntax error and at the end of the input with an unexpected
/// end.
pub proof fn theorem_unterminated_string(s: Seq<char>, at: Cursor)
    requires
        0 <= at.idx < s.len(),
        s[at.idx] == '"' || s[at.idx] == '\'',
        forall|j: int| at.idx < j < s.len() ==> #[trigger] s[j] != s[at.idx],
    ensures
        next_token_at(s, at) is Err,
        next_token_at(s, at)->Err_0 is Syntax || next_token_at(s, at)->Err_0 is UnexpectedEof,
{
    lemma_no_quote_no_close(s, at.idx + 1, s[at.idx], false);
    assert(after_space(s, at) == at);
}

/// A `${` that is never closed is an error: where `${` opens a token and no
/// `}` follows, the lexer fails with an unexpected end that expected `}`, on
/// the line at which the text ends.
pub proof fn theorem_unterminated_variable(s: Seq<char>, at: Cursor)
    requires
        0 <= at.idx,
        at.idx + 1 < s.len(),
        s[at.idx] == '$',
        s[at.idx + 1] == '{',
        forall|j: int| at.idx + 2 <= j < s.len() ==> s[j] != '}',
    ensures
        next_token_at(s, at) == Err::<(TokenView, Cursor), ErrorView>(
            ErrorView::UnexpectedEof {
                expected: "'}'"@,
                line: at.line + feeds(s, at.idx, s.len() as int),
            },
        ),
{
    lemma_first_where_is(s, at.idx + 2, close_brace(), s.len() as int);
    assert(after_space(s, at) == at);
}

/// A `$` that neither a name nor `{` follows is an error.
pub proof fn theorem_empty_variable(s: Seq<char>, at: Cursor)
    requires
        0 <= at.idx < s.len(),
        s[at.idx] == '$',
        at.idx + 1 < s.len() ==> !is_word_char(s[at.idx + 1]) && s[at.idx + 1] != '{',
    ensures
        next_token_at(s, at) is Err,
        next_token_at(s, at)->Err_0 is Syntax,
{
    lemma_first_where_is(s, at.idx + 1, not_word(), at.idx + 1);
    assert(after_space(s, at) == at);
}

/// A comment is one token that runs to the end of its line: where `#`
/// opens a token, the token is a comment that holds what stands up to the
/// next line feed, trimmed, and reading goes on at that line feed.
pub proof fn theorem_comment_token(s: Seq<char>, at: Cursor)
    requires
        0 <= at.idx < s.len(),
        s[at.idx] == '#',
    ensures
        next_token_at(s, at) matches Ok((token, next)) && token.kind == TokenKindView::Comment(
            trim(s.subrange(at.idx + 1, first_where(s, at.idx + 1, line_feed()))),
        ) && next.idx == first_where(s, at.idx + 1, line_feed()) && at.idx < next.idx <= s.len()
            && (next.idx < s.len() ==> s[next.idx] == '\n'),
{
    assert(after_space(s, at) == at);
    lemma_first_where(s, at.idx + 1, line_feed());
}

/// The span of a token is in order and within the text, and its line and
/// column count from one: for a text whose bytes, lines and columns can be
/// counted, a token read from a cursor at line and column one or more
/// begins no later than it ends, ends within the bytes of the text, and
/// stands at a line and a column of one or more.
pub proof fn theorem_token_span(s: Seq<char>, at: Cursor)
    requires
        0 <= at.idx <= s.len(),
        byte_len(s) <= usize::MAX,
        1 <= at.line,
        1 <= at.col,
        at.line + (s.len() - at.idx) <= usize::MAX,
        at.col + (s.len() - at.idx) <= usize::MAX,
    ensures
        next_token_at(s, at) matches Ok((token, next)) ==> {
            &&& token.span.start <= token.span.end <= byte_len(s)
            &&& token.span.start == byte_len(s.take(after_space(s, at).idx))
            &&& token.span.end == byte_len(s.take(next.idx))
            &&& token.span.line >= 1
            &&& token.span.col >= 1
            &&& token.span.line >= at.line
            &&& at.idx <= next.idx <= s.len()
        },
{
    lemma_after_space(s, at);
    let begin = after_space(s, at);
    lemma_cursor_counts(s, at);
    if begin.idx < s.len() {
        crate::parser::lexer::lemma_token_at(s, begin);
        match token_at(s, begin) {
            Ok((_, next)) => {
                lemma_byte_len_grows(s, begin.idx, next.idx);
            },
            Err(_) => {},
        }
    } else {
        lemma_byte_len_grows(s, begin.idx, begin.idx);
    }
}

/// A line and a column are at least one, and at most one more than the
/// number of characters before them.
pub proof fn lemma_place_bounds(s: Seq<char>, idx: int)
    requires
        0 <= idx,
    ensures
        1 <= line_at(s, idx) <= idx + 1,
        1 <= column_at(s, idx) <= idx + 1,
    decreases idx,
{
    if idx > 0 {
        lemma_place_bounds(s, idx - 1);
    }
}

/// A token names the place of its first character: read from a cursor that
/// counts line and column rightly, a token's span starts at the byte offset
/// of its first character, its line is one more than the number of line
/// feeds before that character, and its column is one more than the number
/// of characters since the last of them. The cursor behind the token counts
/// rightly again, whatever the token holds: a line feed inside a quoted
/// string, a variable in braces or behind a backslash begins a new line.
pub proof fn theorem_token_place(s: Seq<char>, at: Cursor)
    requires
        0 <= at.idx <= s.len(),
        s.len() < usize::MAX,
        byte_len(s) <= usize::MAX,
        placed(s, at),
    ensures
        next_token_at(s, at) matches Ok((token, next)) ==> {
            &&& stands_at(s, token, after_space(s, at).idx)
            &&& placed(s, next)
            &&& at.idx <= next.idx <= s.len()
        },
{
    lemma_after_space(s, at);
    lemma_placed_after_space(s, at);
    let begin = after_space(s, at);
    lemma_place_bounds(s, begin.idx);
    lemma_byte_len_grows(s, begin.idx, begin.idx);
    if begin.idx < s.len() {
        crate::parser::lexer::lemma_token_at(s, begin);
        match token_at(s, begin) {
            Ok((_, next)) => {
                assert(next == moved(s, begin, next.idx));
                lemma_placed_moved(s, begin, next.idx);
            },
            Err(_) => {},
        }
    }
}

/// Every token read from a cursor that counts line and column rightly names
/// the place of its first character.
pub proof fn lemma_tokens_placed(s: Seq<char>, from: Cursor)
    requires
        0 <= from.idx <= s.len(),
        s.len() < usize::MAX,
        byte_len(s) <= usize::MAX,
        placed(s, from),
    ensures
        tokens_from(s, from) matches Ok(tokens) ==> each_stands(s, tokens),
    decreases s.len() - from.idx,
{
    theorem_token_place(s, from);
    match next_token_at(s, from) {
        Ok((token, next)) => {
            assert(stands(s, token)) by {
                assert(stands_at(s, token, after_space(s, from).idx));
            }
            if !(token.kind is Eof) {
                lemma_token_advances(s, from);
                lemma_tokens_placed(s, next);
            }
        },
        Err(_) => {},
    }
}

/// Lines and columns are those of the text: in the tokens of a text, each
/// token's line is one more than the number of line feeds before its first
/// character, and its column is one more than the number of characters
/// between the last of those line feeds, or the start of the text, and
/// that character.
pub proof fn theorem_tokens_placed(s: Seq<char>)
    requires
        s.len() < usize::MAX,
        byte_len(s) <= usize::MAX,
    ensures
        tokens_of(s) matches Ok(tokens) ==> each_stands(s, tokens),
{
    lemma_tokens_placed(s, origin());
}

/// Skipping white space leaves the column at one or more.
pub proof fn lemma_cursor_counts(s: Seq<char>, at: Cursor)
    requires
        0 <= at.idx <= s.len(),
        1 <= at.col,
    ensures
        after_space(s, at).col >= 1,
    decreases s.len() - at.idx,
{
    if at.idx < s.len() && is_space(s[at.idx]) {
        if s[at.idx] == '\n' {
            lemma_cursor_counts(s, Cursor { idx: at.idx + 1, line: at.line + 1, col: 1 });
        } else {
            lemma_cursor_counts(s, Cursor { idx: at.idx + 1, line: at.line, col: at.col + 1 });
        }
    }
}

/// Whether `c` can begin a token.
pub open spec fn begins_token(c: char) -> bool {
    c == '#' || c == '{' || c == '}' || c == ';' || c == '=' || c == '"' || c == '\'' || c == '$'
        || is_digit(c) || is_word_start(c)
}

/// A character that begins no token is an error: the lexer fails with the
/// syntax error that names the character, at the character's line and
/// column.
pub proof fn theorem_invalid_character(s: Seq<char>, at: Cursor)
    requires
        0 <= at.idx < s.len(),
        !is_space(s[at.idx]),
        !begins_token(s[at.idx]),
    ensures
        next_token_at(s, at) == Err::<(TokenView, Cursor), ErrorView>(
            unexpected_character(s[at.idx], at),
        ),
{
    assert(after_space(s, at) == at);
}

/// What stands between quotes is one string, whatever it holds.
pub proof fn lemma_plain_quote_closes(s: Seq<char>, from: int, close: int, quote: char)
    requires
        0 <= from <= close < s.len(),
        s[close] == quote,
        quote != '\\',
        forall|j: int| from <= j < close ==> s[j] != quote && s[j] != '\\' && s[j] != '\n',
    ensures
        quote_end(s, from, quote, false) == QuoteEnd::Closed(close),
    decreases close - from,
{
    if from < close {
        lemma_plain_quote_closes(s, from + 1, close, quote);
    }
}

/// Quoted content is opaque: where a quote opens a token and the same quote
/// closes it at `close`, with no backslash, line feed or such quote between
/// them, the token is one string that holds exactly what stands between the
/// quotes. A `$` in it begins no variable: as an argument the token stands
/// for a quoted value.
pub proof fn theorem_quoted_is_opaque(s: Seq<char>, at: Cursor, close: int)
    requires
        0 <= at.idx < close < s.len(),
        s[at.idx] == '"' || s[at.idx] == '\'',
        s[close] == s[at.idx],
        forall|j: int|
            at.idx < j < close ==> #[trigger] s[j] != s[at.idx] && s[j] != '\\' && s[j] != '\n',
    ensures
        token_at(s, at) == Ok::<(TokenKindView, Cursor), ErrorView>(
            (TokenKindView::String(s.subrange(at.idx + 1, close)), moved(s, at, close + 1)),
        ),
        value_of(TokenKindView::String(s.subrange(at.idx + 1, close))) == Some(
            ValueView::SingleQuoted(s.subrange(at.idx + 1, close)),
        ),
{
    lemma_plain_quote_closes(s, at.idx + 1, close, s[at.idx]);
}

/// A word as it stands in a text: it begins with a character that may begin
/// a word and is made of word characters.
pub open spec fn plain_word(w: Seq<char>) -> bool {
    &&& w.len() > 0
    &&& is_word_start(w[0])
    &&& forall|i: int| 0 <= i < w.len() ==> is_word_char(#[trigger] w[i])
}

/// Whether each of `ws` is a word as it stands in a text.
pub open spec fn plain_words(ws: Seq<Seq<char>>) -> bool {
    forall|i: int| 0 <= i < ws.len() ==> plain_word(#[trigger] ws[i])
}

/// The text ` a1 a2 ... aN`: each argument after one space.
pub open spec fn arguments_text(args: Seq<Seq<char>>) -> Seq<char>
    decreases args.len(),
{
    if args.len() == 0 {
        Seq::empty()
    } else {
        seq![' '] + args[0] + arguments_text(args.drop_first())
    }
}

/// The text `name a1 a2 ... aN;`.
pub open spec fn simple_text(name: Seq<char>, args: Seq<Seq<char>>) -> Seq<char> {
    name + arguments_text(args) + ending(true)
}

/// Literal values with the given texts, in order.
pub open spec fn literals(args: Seq<Seq<char>>) -> Seq<ValueView> {
    Seq::new(args.len(), |i: int| ValueView::Literal(args[i]))
}

/// Where a word stands in a text and no word character follows it, the
/// lexer reads it as one word token and comes to stand behind it.
pub proof fn lemma_word_token(s: Seq<char>, at: Cursor, w: Seq<char>)
    requires
        0 <= at.idx,
        at.idx + w.len() <= s.len(),
        s.subrange(at.idx, at.idx + w.len()) == w,
        plain_word(w),
        at.idx + w.len() < s.len() ==> !is_word_char(s[at.idx + w.len()]),
    ensures
        next_token_at(s, at) matches Ok((token, next)) && token.kind == TokenKindView::Word(w)
            && next == moved(s, at, at.idx + w.len()),
{
    let end = at.idx + w.len();
    assert(s[at.idx] == w[0]);
    assert(after_space(s, at) == at);
    assert forall|i: int| at.idx <= i < end implies !(not_word())(#[trigger] s[i]) by {
        assert(s[i] == w[i - at.idx]);
    }
    lemma_first_where_is(s, at.idx, not_word(), end);
}

/// What ends a simple directive in a text: `;`, or nothing where it is
/// missing.
pub open spec fn ending(terminated: bool) -> Seq<char> {
    if terminated {
        seq![';']
    } else {
        Seq::empty()
    }
}

/// The tokens of ` a1 ... aN;`, read from where that text begins, are the
/// words `a1` to `aN`, a semicolon and `Eof`; without the semicolon in the
/// text there is none among the tokens.
pub proof fn lemma_tail_tokens(s: Seq<char>, at: Cursor, args: Seq<Seq<char>>, terminated: bool)
    requires
        0 <= at.idx <= s.len(),
        s.skip(at.idx) == arguments_text(args) + ending(terminated),
        plain_words(args),
    ensures
        tokens_from(s, at) matches Ok(ts) && ts.len() == args.len() + if terminated {
            2int
        } else {
            1int
        } && (forall|i: int|
            0 <= i < args.len() ==> (#[trigger] ts[i]).kind == TokenKindView::Word(args[i]))
            && (terminated ==> ts[args.len() as int].kind is Semicolon) && ts[ts.len()
            - 1].kind is Eof,
    decreases args.len(),
{
    let tail = s.skip(at.idx);
    if args.len() == 0 {
        if terminated {
            assert(tail =~= seq![';']);
            assert(tail.len() == 1);
            assert(s[at.idx] == tail[0]);
            assert(after_space(s, at) == at);
            let next = moved(s, at, at.idx + 1);
            assert(after_space(s, next) == next);
            assert(next_token_at(s, next) matches Ok((token, _)) && token.kind is Eof);
            assert(tokens_from(s, next) matches Ok(ts) && ts.len() == 1 && ts[0].kind is Eof);
        } else {
            assert(tail =~= Seq::<char>::empty());
            assert(tail.len() == 0);
            assert(after_space(s, at) == at);
            assert(next_token_at(s, at) matches Ok((token, _)) && token.kind is Eof);
        }
    } else {
        let word = args[0];
        let rest = args.drop_first();
        let more = arguments_text(rest) + ending(terminated);
        assert(plain_word(word));
        assert(tail =~= seq![' '] + word + more);
        assert(s[at.idx] == tail[0]);
        let begin = Cursor { idx: at.idx + 1, line: at.line, col: at.col + 1 };
        assert(s[begin.idx] == tail[1]);
        assert(tail[1] == word[0]);
        assert(after_space(s, begin) == begin);
        assert(after_space(s, at) == begin);
        let end = begin.idx + word.len();
        assert(s.subrange(begin.idx, end) =~= word) by {
            assert forall|i: int| 0 <= i < word.len() implies s[begin.idx + i] == word[i] by {
                assert(s[begin.idx + i] == tail[1 + i]);
            }
        }
        if more.len() > 0 {
            assert(s[end] == tail[1 + word.len() as int]);
            assert(tail[1 + word.len() as int] == more[0]);
            assert(more[0] == ' ' || more[0] == ';') by {
                if rest.len() > 0 {
                    assert(arguments_text(rest)[0] == ' ');
                } else {
                    assert(more =~= seq![';']);
                }
            }
        } else {
            assert(end == s.len());
        }
        lemma_word_token(s, begin, word);
        assert(next_token_at(s, at) == next_token_at(s, begin));
        let next = moved(s, begin, end);
        assert(s.skip(end) =~= tail.skip(1 + word.len() as int)) by {
            assert forall|i: int| 0 <= i < s.len() - end implies s.skip(end)[i] == tail.skip(
                1 + word.len() as int,
            )[i] by {
                assert(s[end + i] == tail[1 + word.len() as int + i]);
            }
        }
        assert(tail.skip(1 + word.len() as int) =~= more);
        assert forall|i: int| 0 <= i < rest.len() implies plain_word(#[trigger] rest[i]) by {
            assert(rest[i] == args[i + 1]);
        }
        lemma_tail_tokens(s, next, rest, terminated);
        let first = next_token_at(s, at)->Ok_0.0;
        let others = tokens_from(s, next)->Ok_0;
        let all = seq![first] + others;
        assert(tokens_from(s, at) == Ok::<Seq<TokenView>, ErrorView>(all));
        assert forall|i: int| 0 <= i < args.len() implies (#[trigger] all[i]).kind
            == TokenKindView::Word(args[i]) by {
            if i > 0 {
                assert(all[i] == others[i - 1]);
                assert(rest[i - 1] == args[i]);
            }
        }
        assert(all[args.len() as int] == others[rest.len() as int]);
        assert(all[all.len() - 1] == others[others.len() - 1]);
    }
}

/// The tokens of `name a1 ... aN`, with or without a semicolon behind it,
/// where the name and each `ai` is a word.
pub proof fn lemma_simple_tokens(name: Seq<char>, args: Seq<Seq<char>>, terminated: bool)
    requires
        plain_word(name),
        plain_words(args),
    ensures
        tokens_of(name + arguments_text(args) + ending(terminated)) matches Ok(toks)
            && toks.len() == args.len() + if terminated {
            3int
        } else {
            2int
        } && toks[0].kind == TokenKindView::Word(name) && (forall|i: int|
            0 <= i < args.len() ==> (#[trigger] toks[i + 1]).kind == TokenKindView::Word(
                args[i],
            )) && (terminated ==> toks[toks.len() - 2].kind is Semicolon) && toks[toks.len()
            - 1].kind is Eof,
{
    let s = name + arguments_text(args) + ending(terminated);
    let more = arguments_text(args) + ending(terminated);
    assert(s =~= name + more);
    let end = name.len() as int;
    assert(s.subrange(0, end) =~= name);
    if more.len() > 0 {
        assert(s[end] == more[0]);
        assert(more[0] == ' ' || more[0] == ';') by {
            if args.len() > 0 {
                assert(arguments_text(args)[0] == ' ');
            } else {
                assert(more =~= seq![';']);
            }
        }
    }
    lemma_word_token(s, origin(), name);
    let next = moved(s, origin(), end);
    assert(s.skip(end) =~= more);
    lemma_tail_tokens(s, next, args, terminated);
    let first = next_token_at(s, origin())->Ok_0.0;
    let others = tokens_from(s, next)->Ok_0;
    let toks = seq![first] + others;
    assert(tokens_of(s) == Ok::<Seq<TokenView>, ErrorView>(toks));
    assert forall|i: int| 0 <= i < args.len() implies (#[trigger] toks[i + 1]).kind
        == TokenKindView::Word(args[i]) by {
        assert(toks[i + 1] == others[i]);
    }
    assert(toks[toks.len() - 1] == others[others.len() - 1]);
    if terminated {
        assert(toks[toks.len() - 2] == others[args.len() as int]);
    }
}

/// The text `name a1 a2 ... aN;`, where the name and each `ai` is a word,
/// parses to exactly one top-level simple directive with that name and the
/// literal arguments `a1` to `aN`, in that order.
pub proof fn theorem_simple_text(name: Seq<char>, args: Seq<Seq<char>>)
    requires
        plain_word(name),
        plain_words(args),
    ensures
        parse_text(simple_text(name, args)) == Ok::<Seq<DirectiveView>, ErrorView>(
            seq![simple(name, literals(args))],
        ),
{
    lemma_simple_tokens(name, args, true);
    let toks = tokens_of(simple_text(name, args))->Ok_0;
    let n = toks.len() as int;
    let words = toks.subrange(1, n - 2);
    assert forall|i: int| 0 <= i < words.len() implies value_of(#[trigger] words[i].kind)
        == Some(ValueView::Literal(args[i])) by {
        assert(words[i] == toks[i + 1]);
    }
    theorem_simple_directive(name, toks);
    assert(values_of(words) =~= literals(args));
}

/// The text `name a1 a2 ... aN` without its semicolon is an error, not a
/// tree: the syntax error that expected `;` and found the end of the file.
pub proof fn theorem_missing_semicolon_text(name: Seq<char>, args: Seq<Seq<char>>)
    requires
        plain_word(name),
        plain_words(args),
    ensures
        parse_text(name + arguments_text(args)) matches Err(
            ErrorView::Syntax { expected, found, .. },
        ) && expected == Some("';'"@) && found == Some("end of file"@),
{
    lemma_simple_tokens(name, args, false);
    assert(name + arguments_text(args) + ending(false) =~= name + arguments_text(args));
    let toks = tokens_of(name + arguments_text(args))->Ok_0;
    let n = toks.len() as int;
    let words = toks.subrange(1, n - 1);
    assert forall|i: int| 0 <= i < words.len() implies value_of(
        #[trigger] words[i].kind,
    ) is Some by {
        assert(words[i] == toks[i + 1]);
    }
    theorem_missing_semicolon(name, toks);
}

/// Whether `s` holds `inner` from index `at` on, followed by a line feed
/// and, where `closed`, a closing brace, with which `s` ends.
pub open spec fn embedded(inner: Seq<char>, s: Seq<char>, at: int, closed: bool) -> bool {
    &&& 0 <= at
    &&& s.len() == at + inner.len() + if closed {
        2int
    } else {
        1int
    }
    &&& forall|i: int| 0 <= i < inner.len() ==> s[at + i] == #[trigger] inner[i]
    &&& s[at + inner.len()] == '\n'
    &&& closed ==> s[at + inner.len() + 1] == '}'
}

/// A piece of the embedded text stands in the embedding text, further on.
pub proof fn lemma_embedded_range(
    inner: Seq<char>,
    s: Seq<char>,
    at: int,
    closed: bool,
    from: int,
    to: int,
)
    requires
        embedded(inner, s, at, closed),
        0 <= from <= to <= inner.len(),
    ensures
        s.subrange(from + at, to + at) == inner.subrange(from, to),
{
    assert(s.subrange(from + at, to + at) =~= inner.subrange(from, to));
}

/// A run of characters ends in the embedding text where it ends in the
/// embedded one, given that the line feed behind the embedded text ends it.
pub proof fn lemma_first_where_embedded(
    inner: Seq<char>,
    s: Seq<char>,
    at: int,
    closed: bool,
    from: int,
    p: spec_fn(char) -> bool,
)
    requires
        embedded(inner, s, at, closed),
        0 <= from <= inner.len(),
        p('\n'),
    ensures
        first_where(s, from + at, p) == first_where(inner, from, p) + at,
        from <= first_where(inner, from, p) <= inner.len(),
{
    let end = first_where(inner, from, p);
    lemma_first_where(inner, from, p);
    assert forall|i: int| from + at <= i < end + at implies !p(#[trigger] s[i]) by {
        assert(s[i] == inner[i - at]);
    }
    if end < inner.len() {
        assert(s[end + at] == inner[end]);
    }
    lemma_first_where_is(s, from + at, p, end + at);
}

/// A run of characters that ends within the embedded text ends at the same
/// place in the embedding text.
pub proof fn lemma_first_where_within(
    inner: Seq<char>,
    s: Seq<char>,
    at: int,
    closed: bool,
    from: int,
    p: spec_fn(char) -> bool,
)
    requires
        embedded(inner, s, at, closed),
        0 <= from <= inner.len(),
        first_where(inner, from, p) < inner.len(),
    ensures
        first_where(s, from + at, p) == first_where(inner, from, p) + at,
        from <= first_where(inner, from, p),
{
    let end = first_where(inner, from, p);
    lemma_first_where(inner, from, p);
    assert forall|i: int| from + at <= i < end + at implies !p(#[trigger] s[i]) by {
        assert(s[i] == inner[i - at]);
    }
    assert(s[end + at] == inner[end]);
    lemma_first_where_is(s, from + at, p, end + at);
}

/// A quoted string that closes within the embedded text closes at the same
/// place in the embedding text.
pub proof fn lemma_quote_end_embedded(
    inner: Seq<char>,
    s: Seq<char>,
    at: int,
    closed: bool,
    from: int,
    quote: char,
    escaped: bool,
)
    requires
        embedded(inner, s, at, closed),
        0 <= from,
        quote_end(inner, from, quote, escaped) is Closed,
    ensures
        quote_end(s, from + at, quote, escaped) == QuoteEnd::Closed(
            quote_end(inner, from, quote, escaped)->Closed_0 + at,
        ),
        from <= quote_end(inner, from, quote, escaped)->Closed_0 < inner.len(),
    decreases inner.len() - from,
{
    if from < inner.len() {
        assert(s[from + at] == inner[from]);
        if escaped {
            lemma_quote_end_embedded(inner, s, at, closed, from + 1, quote, false);
        } else if inner[from] == '\\' {
            lemma_quote_end_embedded(inner, s, at, closed, from + 1, quote, true);
        } else if inner[from] == quote {
        } else if inner[from] == '\n' {
        } else {
            lemma_quote_end_embedded(inner, s, at, closed, from + 1, quote, false);
        }
    }
}

/// White space is skipped alike in the embedded and in the embedding text,
/// up to the end of the embedded text; there the skipping goes on over the
/// line feed to the closing brace.
pub proof fn lemma_after_space_embedded(
    inner: Seq<char>,
    s: Seq<char>,
    at: int,
    closed: bool,
    ci: Cursor,
    cs: Cursor,
)
    requires
        embedded(inner, s, at, closed),
        0 <= ci.idx <= inner.len(),
        cs.idx == ci.idx + at,
    ensures
        after_space(inner, ci).idx < inner.len() ==> after_space(s, cs).idx == after_space(
            inner,
            ci,
        ).idx + at,
        after_space(inner, ci).idx >= inner.len() ==> after_space(s, cs).idx == at + inner.len()
            + 1,
        ci.idx <= after_space(inner, ci).idx <= inner.len(),
        after_space(inner, ci).idx < inner.len() ==> !is_space(
            inner[after_space(inner, ci).idx],
        ),
    decreases inner.len() - ci.idx,
{
    if ci.idx < inner.len() {
        assert(s[cs.idx] == inner[ci.idx]);
        if is_space(inner[ci.idx]) {
            if inner[ci.idx] == '\n' {
                lemma_after_space_embedded(
                    inner,
                    s,
                    at,
                    closed,
                    Cursor { idx: ci.idx + 1, line: ci.line + 1, col: 1 },
                    Cursor { idx: cs.idx + 1, line: cs.line + 1, col: 1 },
                );
            } else {
                lemma_after_space_embedded(
                    inner,
                    s,
                    at,
                    closed,
                    Cursor { idx: ci.idx + 1, line: ci.line, col: ci.col + 1 },
                    Cursor { idx: cs.idx + 1, line: cs.line, col: cs.col + 1 },
                );
            }
        }
    } else {
        let next = Cursor { idx: cs.idx + 1, line: cs.line + 1, col: 1 };
        assert(after_space(s, cs) == after_space(s, next));
        assert(after_space(s, next) == next);
    }
}

/// A token of the embedded text is read alike in the embedding text: the
/// same kind with the same text, ending at the same place.
pub proof fn lemma_token_embedded(
    inner: Seq<char>,
    s: Seq<char>,
    at: int,
    closed: bool,
    ci: Cursor,
    cs: Cursor,
)
    requires
        embedded(inner, s, at, closed),
        0 <= ci.idx < inner.len(),
        cs.idx == ci.idx + at,
        token_at(inner, ci) is Ok,
    ensures
        token_at(s, cs) matches Ok((kind, next)) && kind == token_at(inner, ci)->Ok_0.0
            && next.idx == token_at(inner, ci)->Ok_0.1.idx + at,
{
    let c = inner[ci.idx];
    let n = inner.len() as int;
    assert(s[cs.idx] == c);
    if c == '#' {
        lemma_first_where_embedded(inner, s, at, closed, ci.idx + 1, line_feed());
        let end = first_where(inner, ci.idx + 1, line_feed());
        lemma_embedded_range(inner, s, at, closed, ci.idx + 1, end);
    } else if c == '{' || c == '}' || c == ';' || c == '=' {
    } else if c == '"' || c == '\'' {
        lemma_quote_end_embedded(inner, s, at, closed, ci.idx + 1, c, false);
        let close = quote_end(inner, ci.idx + 1, c, false)->Closed_0;
        lemma_embedded_range(inner, s, at, closed, ci.idx + 1, close);
    } else if c == '$' {
        if ci.idx + 1 < n && inner[ci.idx + 1] == '{' {
            assert(s[cs.idx + 1] == inner[ci.idx + 1]);
            lemma_first_where_within(inner, s, at, closed, ci.idx + 2, close_brace());
            let end = first_where(inner, ci.idx + 2, close_brace());
            lemma_embedded_range(inner, s, at, closed, ci.idx + 2, end);
        } else {
            if ci.idx + 1 < n {
                assert(s[cs.idx + 1] == inner[ci.idx + 1]);
            }
            lemma_first_where_embedded(inner, s, at, closed, ci.idx + 1, not_word());
            let end = first_where(inner, ci.idx + 1, not_word());
            lemma_embedded_range(inner, s, at, closed, ci.idx + 1, end);
        }
    } else if is_digit(c) {
        lemma_first_where_embedded(inner, s, at, closed, ci.idx, not_number());
        let end = first_where(inner, ci.idx, not_number());
        lemma_embedded_range(inner, s, at, closed, ci.idx, end);
    } else if is_word_start(c) {
        lemma_first_where_embedded(inner, s, at, closed, ci.idx, not_word());
        let end = first_where(inner, ci.idx, not_word());
        lemma_embedded_range(inner, s, at, closed, ci.idx, end);
    }
}

/// The tokens of the embedded text are read alike in the embedding text, up
/// to its `Eof`, in whose place the closing brace and then `Eof` are read.
pub proof fn lemma_tokens_embedded(
    inner: Seq<char>,
    s: Seq<char>,
    at: int,
    closed: bool,
    ci: Cursor,
    cs: Cursor,
)
    requires
        embedded(inner, s, at, closed),
        0 <= ci.idx <= inner.len(),
        cs.idx == ci.idx + at,
        tokens_from(inner, ci) is Ok,
    ensures
        tokens_from(s, cs) matches Ok(ts) && ({
            let ti = tokens_from(inner, ci)->Ok_0;
            &&& ti.len() >= 1
            &&& ts.len() == ti.len() + if closed {
                1int
            } else {
                0int
            }
            &&& forall|j: int| 0 <= j < ti.len() - 1 ==> (#[trigger] ts[j]).kind == ti[j].kind
            &&& forall|j: int| 0 <= j < ti.len() - 1 ==> !((#[trigger] ti[j]).kind is Eof)
            &&& ti[ti.len() - 1].kind is Eof
            &&& closed ==> ts[ti.len() - 1].kind is RightBrace
            &&& ts[ts.len() - 1].kind is Eof
        }),
    decreases inner.len() - ci.idx,
{
    let n = inner.len() as int;
    lemma_after_space_embedded(inner, s, at, closed, ci, cs);
    let ai = after_space(inner, ci);
    let a_s = after_space(s, cs);
    if ai.idx >= n {
        if closed {
            let brace = moved(s, a_s, a_s.idx + 1);
            assert(token_at(s, a_s) == Ok::<(TokenKindView, Cursor), ErrorView>(
                (TokenKindView::RightBrace, brace),
            ));
            assert(after_space(s, brace) == brace);
            let last = next_token_at(s, brace);
            assert(last matches Ok((t, _)) && t.kind is Eof);
            assert(tokens_from(s, brace) matches Ok(r) && r.len() == 1 && r[0].kind is Eof);
            let closing = next_token_at(s, cs)->Ok_0.0;
            assert(closing.kind is RightBrace);
            assert(tokens_from(s, cs) == Ok::<Seq<TokenView>, ErrorView>(
                seq![closing] + tokens_from(s, brace)->Ok_0,
            ));
        } else {
            assert(next_token_at(s, cs) matches Ok((t, _)) && t.kind is Eof);
        }
    } else {
        assert(token_at(inner, ai) is Ok);
        lemma_token_embedded(inner, s, at, closed, ai, a_s);
        lemma_token_advances(inner, ci);
        let (ti_first, ni) = next_token_at(inner, ci)->Ok_0;
        let (ts_first, ns) = next_token_at(s, cs)->Ok_0;
        assert(ts_first.kind == ti_first.kind);
        assert(!(ti_first.kind is Eof)) by {
            crate::parser::lexer::lemma_token_at(inner, ai);
        }
        assert(ns.idx == ni.idx + at);
        lemma_token_advances(s, cs);
        lemma_tokens_embedded(inner, s, at, closed, ni, ns);
        let ti_rest = tokens_from(inner, ni)->Ok_0;
        let ts_rest = tokens_from(s, ns)->Ok_0;
        let ti = seq![ti_first] + ti_rest;
        let ts = seq![ts_first] + ts_rest;
        assert(tokens_from(inner, ci) == Ok::<Seq<TokenView>, ErrorView>(ti));
        assert(tokens_from(s, cs) == Ok::<Seq<TokenView>, ErrorView>(ts));
        assert forall|j: int| 0 <= j < ti.len() - 1 implies (#[trigger] ts[j]).kind
            == ti[j].kind by {
            if j > 0 {
                assert(ts[j] == ts_rest[j - 1]);
                assert(ti[j] == ti_rest[j - 1]);
            }
        }
        assert forall|j: int| 0 <= j < ti.len() - 1 implies !((#[trigger] ti[j]).kind is Eof) by {
            if j > 0 {
                assert(ti[j] == ti_rest[j - 1]);
            }
        }
        assert(ti[ti.len() - 1] == ti_rest[ti_rest.len() - 1]);
        assert(ts[ti.len() - 1] == ts_rest[ti_rest.len() - 1]);
        assert(ts[ts.len() - 1] == ts_rest[ts_rest.len() - 1]);
    }
}

/// The text `name {`, then `inner`, then a line feed and, where `closed`,
/// `}`.
pub open spec fn block_text(name: Seq<char>, inner: Seq<char>, closed: bool) -> Seq<char> {
    name + seq![' ', '{'] + inner + seq!['\n'] + if closed {
        seq!['}']
    } else {
        Seq::empty()
    }
}

/// The tokens of `name { <directives> }`, with or without the closing
/// brace: the name, `{`, the tokens of the directives up to their `Eof`,
/// then the closing brace where there is one, and `Eof`.
pub proof fn lemma_block_tokens(name: Seq<char>, inner: Seq<char>, closed: bool)
    requires
        plain_word(name),
        tokens_of(inner) is Ok,
    ensures
        tokens_of(block_text(name, inner, closed)) matches Ok(toks) && ({
            let ti = tokens_of(inner)->Ok_0;
            &&& one_end(ti)
            &&& toks.len() == ti.len() + if closed {
                3int
            } else {
                2int
            }
            &&& toks[0].kind == TokenKindView::Word(name)
            &&& toks[1].kind is LeftBrace
            &&& same_tokens(ti, toks, ti.len() - 1, 2)
            &&& closed ==> toks[toks.len() - 2].kind is RightBrace
            &&& toks[toks.len() - 1].kind is Eof
        }),
{
    let s = block_text(name, inner, closed);
    let at = name.len() as int + 2;
    let end = name.len() as int;
    assert(s.subrange(0, end) =~= name);
    assert(s[end] == ' ');
    assert(s[end + 1] == '{');
    assert(embedded(inner, s, at, closed)) by {
        assert forall|i: int| 0 <= i < inner.len() implies s[at + i] == #[trigger] inner[i] by {}
    }
    lemma_word_token(s, origin(), name);
    let (first, c1) = next_token_at(s, origin())->Ok_0;
    let spaced = Cursor { idx: c1.idx + 1, line: c1.line, col: c1.col + 1 };
    assert(after_space(s, spaced) == spaced);
    assert(after_space(s, c1) == spaced);
    let (second, c2) = next_token_at(s, c1)->Ok_0;
    assert(second.kind is LeftBrace);
    assert(c2.idx == at);
    let ti = tokens_of(inner)->Ok_0;
    lemma_tokens_embedded(inner, s, at, closed, origin(), c2);
    let ts = tokens_from(s, c2)->Ok_0;
    lemma_token_advances(s, origin());
    lemma_token_advances(s, c1);
    assert(tokens_from(s, c1) == Ok::<Seq<TokenView>, ErrorView>(seq![second] + ts));
    let toks = seq![first] + (seq![second] + ts);
    assert(tokens_of(s) == Ok::<Seq<TokenView>, ErrorView>(toks));
    assert(one_end(ti));
    assert(same_tokens(ti, toks, ti.len() - 1, 2)) by {
        assert forall|i: int| 0 <= i < ti.len() - 1 implies 0 <= i + 2 < toks.len() && toks[i
            + 2].kind == (#[trigger] ti[i]).kind by {
            assert(toks[i + 2] == ts[i]);
        }
    }
    assert(toks[toks.len() - 1] == ts[ts.len() - 1]);
    if closed {
        assert(toks[toks.len() - 2] == ts[ti.len() - 1]);
    }
}

/// The text `name { <directives> }`, where the name is a word and the
/// directives parse on their own, parses to exactly one top-level block
/// directive with that name and no arguments, whose children are what the
/// directives parse to on their own. The closing brace stands on a line of
/// its own, so that a comment at the end of the directives cannot take it.
pub proof fn theorem_block_text(name: Seq<char>, inner: Seq<char>)
    requires
        plain_word(name),
        parse_text(inner) is Ok,
    ensures
        parse_text(block_text(name, inner, true)) == Ok::<Seq<DirectiveView>, ErrorView>(
            seq![block(name, Seq::empty(), parse_text(inner)->Ok_0)],
        ),
{
    lemma_block_tokens(name, inner, true);
    let toks = tokens_of(block_text(name, inner, true))->Ok_0;
    let ti = tokens_of(inner)->Ok_0;
    assert(toks.subrange(1, 1) =~= Seq::<TokenView>::empty());
    theorem_block_directive(name, toks, 1, ti);
    assert(values_of(toks.subrange(1, 1)) =~= Seq::<ValueView>::empty());
}

/// The text `name { <directives>` without its closing brace is an error,
/// not a tree: the syntax error that expected `}` and found the end of the
/// file.
pub proof fn theorem_missing_brace_text(name: Seq<char>, inner: Seq<char>)
    requires
        plain_word(name),
        parse_text(inner) is Ok,
    ensures
        parse_text(block_text(name, inner, false)) matches Err(
            ErrorView::Syntax { expected, found, .. },
        ) && expected == Some("'}'"@) && found == Some("end of file"@),
{
    lemma_block_tokens(name, inner, false);
    let toks = tokens_of(block_text(name, inner, false))->Ok_0;
    let ti = tokens_of(inner)->Ok_0;
    assert(toks.subrange(1, 1) =~= Seq::<TokenView>::empty());
    theorem_missing_brace(name, toks, 1, ti);
}

} // verus!

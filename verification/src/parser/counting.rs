//! How the directives of a tree are counted in its tokens: each directive
//! ends with one `;` or opens one block, and each block is closed once.

use vstd::prelude::*;
use crate::ast::directive::{forest_size, tree_size, DirectiveView};
use crate::parser::lexer::{lemma_token_advances, next_token_at, tokens_from, tokens_of, Cursor};
use crate::parser::parse::{
    arguments_at, block_at, config_at, directive_at, ended, lemma_arguments_at,
    lemma_directive_at, parse_text, same_kind,
};
use crate::parser::theorems::one_end;
use crate::parser::token::{TokenKindView, TokenView};

verus! {

/// The number of tokens of the kind of `kind` in `toks[from..to]`.
pub open spec fn count_in(toks: Seq<TokenView>, from: int, to: int, kind: TokenKindView) -> nat
    decreases to - from,
{
    if to <= from {
        0
    } else {
        count_in(toks, from, to - 1, kind) + if same_kind(toks[to - 1].kind, kind) {
            1nat
        } else {
            0nat
        }
    }
}

/// The number of tokens of the kind of `kind` in `toks`.
pub open spec fn count_of(toks: Seq<TokenView>, kind: TokenKindView) -> nat {
    count_in(toks, 0, toks.len() as int, kind)
}

/// Whether `toks[from..to]` holds the marks of `n` directives and nothing
/// left open: `n` tokens that are `;` or `{`, as many `}` as `{`, and no
/// `Eof`.
pub open spec fn marks(toks: Seq<TokenView>, from: int, to: int, n: nat) -> bool {
    &&& count_in(toks, from, to, TokenKindView::Semicolon) + count_in(
        toks,
        from,
        to,
        TokenKindView::LeftBrace,
    ) == n
    &&& count_in(toks, from, to, TokenKindView::RightBrace) == count_in(
        toks,
        from,
        to,
        TokenKindView::LeftBrace,
    )
    &&& count_in(toks, from, to, TokenKindView::Eof) == 0
}

/// The tokens of a range are those of its two parts.
pub proof fn lemma_count_split(
    toks: Seq<TokenView>,
    from: int,
    mid: int,
    to: int,
    kind: TokenKindView,
)
    requires
        from <= mid <= to,
    ensures
        count_in(toks, from, to, kind) == count_in(toks, from, mid, kind) + count_in(
            toks,
            mid,
            to,
            kind,
        ),
    decreases to - mid,
{
    if mid < to {
        lemma_count_split(toks, from, mid, to - 1, kind);
    }
}

/// The marks of a range are those of its two parts.
pub proof fn lemma_marks_join(toks: Seq<TokenView>, from: int, mid: int, to: int, n: nat, m: nat)
    requires
        from <= mid <= to,
        marks(toks, from, mid, n),
        marks(toks, mid, to, m),
    ensures
        marks(toks, from, to, n + m),
{
    lemma_count_split(toks, from, mid, to, TokenKindView::Semicolon);
    lemma_count_split(toks, from, mid, to, TokenKindView::LeftBrace);
    lemma_count_split(toks, from, mid, to, TokenKindView::RightBrace);
    lemma_count_split(toks, from, mid, to, TokenKindView::Eof);
}

/// Whether a token is one of those that are counted.
pub open spec fn is_mark(kind: TokenKindView) -> bool {
    kind is Semicolon || kind is LeftBrace || kind is RightBrace || kind is Eof
}

/// A token that is no mark adds nothing to the marks behind it.
pub proof fn lemma_marks_skip(toks: Seq<TokenView>, at: int, to: int, n: nat)
    requires
        at < to,
        !is_mark(toks[at].kind),
        marks(toks, at + 1, to, n),
    ensures
        marks(toks, at, to, n),
{
    assert(marks(toks, at, at + 1, 0)) by {
        assert(count_in(toks, at, at, TokenKindView::Semicolon) == 0);
        assert(count_in(toks, at, at, TokenKindView::LeftBrace) == 0);
        assert(count_in(toks, at, at, TokenKindView::RightBrace) == 0);
        assert(count_in(toks, at, at, TokenKindView::Eof) == 0);
    }
    lemma_marks_join(toks, at, at + 1, to, 0, n);
}

/// A block's braces around the marks of `n` directives are the marks of
/// one directive more.
pub proof fn lemma_marks_block(toks: Seq<TokenView>, open: int, close: int, n: nat)
    requires
        open < close,
        toks[open].kind is LeftBrace,
        toks[close].kind is RightBrace,
        marks(toks, open + 1, close, n),
    ensures
        marks(toks, open, close + 1, n + 1),
{
    assert(count_in(toks, open, open, TokenKindView::Semicolon) == 0);
    assert(count_in(toks, open, open, TokenKindView::LeftBrace) == 0);
    assert(count_in(toks, open, open, TokenKindView::RightBrace) == 0);
    assert(count_in(toks, open, open, TokenKindView::Eof) == 0);
    lemma_count_split(toks, open, open + 1, close, TokenKindView::Semicolon);
    lemma_count_split(toks, open, open + 1, close, TokenKindView::LeftBrace);
    lemma_count_split(toks, open, open + 1, close, TokenKindView::RightBrace);
    lemma_count_split(toks, open, open + 1, close, TokenKindView::Eof);
}

/// A `;` is the mark of one directive.
pub proof fn lemma_marks_semicolon(toks: Seq<TokenView>, at: int)
    requires
        toks[at].kind is Semicolon,
    ensures
        marks(toks, at, at + 1, 1),
{
    assert(count_in(toks, at, at, TokenKindView::Semicolon) == 0);
    assert(count_in(toks, at, at, TokenKindView::LeftBrace) == 0);
    assert(count_in(toks, at, at, TokenKindView::RightBrace) == 0);
    assert(count_in(toks, at, at, TokenKindView::Eof) == 0);
}

/// A forest counts its first tree and the rest.
pub proof fn lemma_forest_front(d: DirectiveView, rest: Seq<DirectiveView>)
    ensures
        forest_size(seq![d] + rest) == tree_size(d) + forest_size(rest),
    decreases rest.len(),
{
    let all = seq![d] + rest;
    if rest.len() == 0 {
        assert(all.drop_last() =~= Seq::<DirectiveView>::empty());
        assert(all.last() == d);
        assert(forest_size(all.drop_last()) == 0);
    } else {
        lemma_forest_front(d, rest.drop_last());
        assert(all.drop_last() =~= seq![d] + rest.drop_last());
        assert(all.last() == rest.last());
    }
}

/// Arguments hold no mark.
pub proof fn lemma_arguments_marks(toks: Seq<TokenView>, pos: int)
    requires
        0 <= pos < toks.len(),
        ended(toks),
    ensures
        arguments_at(toks, pos) matches Ok((_, end)) ==> pos <= end && marks(toks, pos, end, 0),
    decreases toks.len() - pos,
{
    lemma_arguments_at(toks, pos);
    match toks[pos].kind {
        TokenKindView::Semicolon => {},
        TokenKindView::LeftBrace => {},
        TokenKindView::Eof => {},
        TokenKindView::RightBrace => {},
        _ => {
            lemma_arguments_marks(toks, pos + 1);
            if let Ok((_, end)) = arguments_at(toks, pos) {
                lemma_arguments_at(toks, pos + 1);
                lemma_marks_skip(toks, pos, end, 0);
            }
        },
    }
}

/// The tokens of a directive hold the marks of the directives in its tree.
pub proof fn lemma_directive_marks(toks: Seq<TokenView>, pos: int)
    requires
        0 <= pos < toks.len(),
        ended(toks),
    ensures
        directive_at(toks, pos) matches Ok((d, next)) ==> pos < next && marks(
            toks,
            pos,
            next,
            tree_size(d),
        ),
    decreases toks.len() - pos, 0int,
{
    lemma_directive_at(toks, pos);
    match toks[pos].kind {
        TokenKindView::Word(name) => {
            lemma_arguments_at(toks, pos + 1);
            lemma_arguments_marks(toks, pos + 1);
            match arguments_at(toks, pos + 1) {
                Ok((args, at)) => {
                    if toks[at].kind is LeftBrace {
                        lemma_directive_at(toks, at + 1);
                        lemma_block_marks(toks, at + 1);
                        match block_at(toks, at + 1) {
                            Ok((children, end)) => {
                                if toks[end].kind is RightBrace {
                                    lemma_marks_block(toks, at, end, forest_size(children));
                                    lemma_marks_join(
                                        toks,
                                        pos + 1,
                                        at,
                                        end + 1,
                                        0,
                                        forest_size(children) + 1,
                                    );
                                    lemma_marks_skip(
                                        toks,
                                        pos,
                                        end + 1,
                                        forest_size(children) + 1,
                                    );
                                }
                            },
                            Err(_) => {},
                        }
                    } else if toks[at].kind is Semicolon {
                        lemma_marks_semicolon(toks, at);
                        lemma_marks_join(toks, pos + 1, at, at + 1, 0, 1);
                        lemma_marks_skip(toks, pos, at + 1, 1);
                    }
                },
                Err(_) => {},
            }
        },
        _ => {},
    }
}

/// The tokens of a block's directives hold the marks of the directives in
/// their trees.
pub proof fn lemma_block_marks(toks: Seq<TokenView>, pos: int)
    requires
        0 <= pos < toks.len(),
        ended(toks),
    ensures
        block_at(toks, pos) matches Ok((ds, end)) ==> pos <= end && marks(
            toks,
            pos,
            end,
            forest_size(ds),
        ),
    decreases toks.len() - pos, 1int,
{
    lemma_directive_at(toks, pos);
    match toks[pos].kind {
        TokenKindView::RightBrace => {
            assert(forest_size(Seq::<DirectiveView>::empty()) == 0);
        },
        TokenKindView::Eof => {
            assert(forest_size(Seq::<DirectiveView>::empty()) == 0);
        },
        TokenKindView::Comment(_) => {
            lemma_block_marks(toks, pos + 1);
            lemma_directive_at(toks, pos + 1);
            if let Ok((ds, end)) = block_at(toks, pos) {
                lemma_marks_skip(toks, pos, end, forest_size(ds));
            }
        },
        _ => {
            lemma_directive_marks(toks, pos);
            match directive_at(toks, pos) {
                Ok((d, next)) => {
                    lemma_block_marks(toks, next);
                    lemma_directive_at(toks, next);
                    match block_at(toks, next) {
                        Ok((rest, end)) => {
                            lemma_forest_front(d, rest);
                            lemma_marks_join(
                                toks,
                                pos,
                                next,
                                end,
                                tree_size(d),
                                forest_size(rest),
                            );
                        },
                        Err(_) => {},
                    }
                },
                Err(_) => {},
            }
        },
    }
}

/// The index of the first `Eof` at or behind `pos`, or the length of `toks`
/// where there is none.
pub open spec fn end_from(toks: Seq<TokenView>, pos: int) -> int
    decreases toks.len() - pos,
{
    if pos < 0 || pos >= toks.len() {
        toks.len() as int
    } else if toks[pos].kind is Eof {
        pos
    } else {
        end_from(toks, pos + 1)
    }
}

/// Tokens without an `Eof` lie before the first `Eof`.
pub proof fn lemma_end_behind(toks: Seq<TokenView>, pos: int, next: int)
    requires
        0 <= pos <= next,
        count_in(toks, pos, next, TokenKindView::Eof) == 0,
    ensures
        end_from(toks, pos) == end_from(toks, next),
    decreases next - pos,
{
    if pos < next {
        lemma_count_split(toks, pos, next - 1, next, TokenKindView::Eof);
        assert(count_in(toks, next - 1, next - 1, TokenKindView::Eof) == 0);
        lemma_end_behind(toks, pos, next - 1);
        if next - 1 < toks.len() {
            assert(!(toks[next - 1].kind is Eof));
        }
    }
}

/// The tokens of a configuration, up to the `Eof` that ends it, hold the
/// marks of the directives in its tree.
pub proof fn lemma_config_marks(toks: Seq<TokenView>, pos: int)
    requires
        0 <= pos < toks.len(),
        ended(toks),
    ensures
        config_at(toks, pos) matches Ok(ds) ==> pos <= end_from(toks, pos) < toks.len() && marks(
            toks,
            pos,
            end_from(toks, pos),
            forest_size(ds),
        ),
    decreases toks.len() - pos,
{
    lemma_directive_at(toks, pos);
    match toks[pos].kind {
        TokenKindView::Eof => {
            assert(forest_size(Seq::<DirectiveView>::empty()) == 0);
        },
        TokenKindView::Comment(_) => {
            lemma_config_marks(toks, pos + 1);
            if let Ok(ds) = config_at(toks, pos) {
                lemma_marks_skip(toks, pos, end_from(toks, pos), forest_size(ds));
            }
        },
        _ => {
            lemma_directive_marks(toks, pos);
            match directive_at(toks, pos) {
                Ok((d, next)) => {
                    lemma_config_marks(toks, next);
                    lemma_end_behind(toks, pos, next);
                    match config_at(toks, next) {
                        Ok(rest) => {
                            lemma_forest_front(d, rest);
                            lemma_marks_join(
                                toks,
                                pos,
                                next,
                                end_from(toks, pos),
                                tree_size(d),
                                forest_size(rest),
                            );
                        },
                        Err(_) => {},
                    }
                },
                Err(_) => {},
            }
        },
    }
}

/// Directives are counted by their marks: where tokens with one `Eof`, at
/// their end, parse to a tree, the tree holds as many directives, nested
/// ones included, as the tokens hold `;` and `{` together, and the tokens
/// hold as many `}` as `{`.
pub proof fn theorem_directive_count(toks: Seq<TokenView>)
    requires
        one_end(toks),
    ensures
        config_at(toks, 0) matches Ok(ds) ==> {
            &&& forest_size(ds) == count_of(toks, TokenKindView::Semicolon) + count_of(
                toks,
                TokenKindView::LeftBrace,
            )
            &&& count_of(toks, TokenKindView::RightBrace) == count_of(
                toks,
                TokenKindView::LeftBrace,
            )
        },
{
    lemma_config_marks(toks, 0);
    if config_at(toks, 0) is Ok {
        let end = end_from(toks, 0);
        lemma_end_is_eof(toks, 0);
        assert(end == toks.len() - 1);
    }
}

/// The first `Eof` at or behind `pos` is an `Eof`, where it lies within the
/// tokens.
pub proof fn lemma_end_is_eof(toks: Seq<TokenView>, pos: int)
    requires
        0 <= pos,
    ensures
        pos <= end_from(toks, pos) <= toks.len() || pos > toks.len(),
        end_from(toks, pos) < toks.len() ==> toks[end_from(toks, pos)].kind is Eof,
    decreases toks.len() - pos,
{
    if pos < toks.len() && !(toks[pos].kind is Eof) {
        lemma_end_is_eof(toks, pos + 1);
    }
}

/// The tokens of a text hold one `Eof`, at their end.
pub proof fn lemma_tokens_one_end(s: Seq<char>, from: Cursor)
    requires
        0 <= from.idx,
    ensures
        tokens_from(s, from) matches Ok(toks) ==> one_end(toks),
    decreases s.len() - from.idx,
{
    match next_token_at(s, from) {
        Ok((token, next)) => {
            if !(token.kind is Eof) {
                lemma_token_advances(s, from);
                lemma_tokens_one_end(s, next);
                if let Ok(rest) = tokens_from(s, next) {
                    let toks = seq![token] + rest;
                    assert forall|i: int| 0 <= i < toks.len() - 1 implies !(
                    #[trigger] toks[i].kind is Eof) by {
                        if i > 0 {
                            assert(toks[i] == rest[i - 1]);
                        }
                    }
                }
            }
        },
        Err(_) => {},
    }
}

/// Directives are counted by their marks in a text: where a text parses to
/// a tree, the tree holds as many directives, nested ones included, as the
/// tokens of the text hold `;` and `{` together, and the tokens hold as many
/// `}` as `{`.
pub proof fn theorem_directive_count_text(s: Seq<char>)
    ensures
        parse_text(s) matches Ok(ds) ==> tokens_of(s) matches Ok(toks) && {
            &&& forest_size(ds) == count_of(toks, TokenKindView::Semicolon) + count_of(
                toks,
                TokenKindView::LeftBrace,
            )
            &&& count_of(toks, TokenKindView::RightBrace) == count_of(
                toks,
                TokenKindView::LeftBrace,
            )
        },
{
    lemma_tokens_one_end(s, Cursor { idx: 0, line: 1, col: 1 });
    if let Ok(toks) = tokens_of(s) {
        theorem_directive_count(toks);
    }
}

} // verus!

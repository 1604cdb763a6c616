//! Comments leave no trace in the tree: a text parses as it does with the
//! characters of its comments taken out.

use vstd::prelude::*;
use crate::ast::directive::DirectiveView;
use crate::error::ErrorView;
use crate::parser::lexer::{
    after_space, close_brace, is_word_start, lemma_after_space, lemma_token_advances,
    lemma_token_at, lemma_tokens_end, line_feed, next_token_at, not_number, not_word, quote_end,
    token_at, tokens_from, tokens_of, Cursor, QuoteEnd,
};
use crate::parser::parse::{config_at, directive_at, ended, lemma_directive_at, parse_text};
use crate::parser::theorems::{
    lemma_directive_frame, not_comment, origin, same_tokens, theorem_comments_leave_no_trace,
    without_comments,
};
use crate::parser::token::{TokenKindView, TokenView};
use crate::text::{first_where, is_digit, is_space, lemma_first_where, lemma_first_where_is};

verus! {

/// The text from `cur` on without its comments: token after token, what
/// stands up to the end of a token that is no comment is kept, and of a
/// comment only the white space before it. Behind the last token, and from
/// a place on at which no token can be read, the text is kept as it is.
pub open spec fn bare_from(s: Seq<char>, cur: Cursor) -> Seq<char>
    decreases s.len() - cur.idx,
    when cur.idx >= 0
{
    match next_token_at(s, cur) {
        Err(_) => s.subrange(cur.idx, s.len() as int),
        Ok((token, next)) => if token.kind is Eof {
            s.subrange(cur.idx, s.len() as int)
        } else {
            proof {
                lemma_token_advances(s, cur);
            }
            if token.kind is Comment {
                s.subrange(cur.idx, after_space(s, cur).idx) + bare_from(s, next)
            } else {
                s.subrange(cur.idx, next.idx) + bare_from(s, next)
            }
        },
    }
}

/// A text without its comments: the text with the characters of each of
/// its comment tokens, from `#` up to the line feed that ends the comment,
/// taken out.
pub open spec fn bare(s: Seq<char>) -> Seq<char> {
    bare_from(s, origin())
}

/// Whether `b` holds from `j` on the `n` characters that `a` holds from `i`
/// on.
pub open spec fn alike(a: Seq<char>, i: int, b: Seq<char>, j: int, n: int) -> bool {
    &&& 0 <= i
    &&& 0 <= j
    &&& 0 <= n
    &&& i + n <= a.len()
    &&& j + n <= b.len()
    &&& forall|p: int| i <= p < i + n ==> b[p - i + j] == #[trigger] a[p]
}

/// Whether two token sequences hold tokens of the same kinds and texts,
/// whatever their places in the source.
pub open spec fn same_kinds(x: Seq<TokenView>, y: Seq<TokenView>) -> bool {
    x.len() == y.len() && same_tokens(x, y, x.len() as int, 0)
}

/// A text that begins with a piece of another holds the characters of
/// that piece, and what follows the piece behind them.
proof fn lemma_tail_split(a: Seq<char>, i: int, m: int, b: Seq<char>, j: int, rest: Seq<char>)
    requires
        0 <= i <= m <= a.len(),
        0 <= j <= b.len(),
        b.subrange(j, b.len() as int) == a.subrange(i, m) + rest,
    ensures
        alike(a, i, b, j, m - i),
        j + (m - i) + rest.len() == b.len(),
        b.subrange(j + (m - i), b.len() as int) == rest,
{
    let tail = b.subrange(j, b.len() as int);
    let piece = a.subrange(i, m);
    assert(tail.len() == piece.len() + rest.len());
    assert forall|p: int| i <= p < m implies b[p - i + j] == #[trigger] a[p] by {
        assert(tail[p - i] == piece[p - i]);
    }
    assert forall|k: int| 0 <= k < rest.len() implies b.subrange(j + (m - i), b.len() as int)[k]
        == rest[k] by {
        assert(tail[(m - i) + k] == rest[k]);
    }
    assert(b.subrange(j + (m - i), b.len() as int) =~= rest);
}

/// Characters that are alike are alike from any place among them on.
proof fn lemma_alike_from(a: Seq<char>, i: int, b: Seq<char>, j: int, n: int, w: int)
    requires
        alike(a, i, b, j, n),
        0 <= w <= n,
    ensures
        alike(a, i + w, b, j + w, n - w),
{
    assert forall|p: int| i + w <= p < i + n implies b[p - (i + w) + (j + w)]
        == #[trigger] a[p] by {
        assert(b[p - i + j] == a[p]);
    }
}

/// A piece of characters that are alike is the same text in both.
proof fn lemma_alike_range(
    a: Seq<char>,
    i: int,
    b: Seq<char>,
    j: int,
    n: int,
    from: int,
    to: int,
)
    requires
        alike(a, i, b, j, n),
        i <= from <= to <= i + n,
    ensures
        b.subrange(from - i + j, to - i + j) == a.subrange(from, to),
{
    assert forall|k: int| 0 <= k < to - from implies b.subrange(from - i + j, to - i + j)[k]
        == a.subrange(from, to)[k] by {
        assert(b[(from + k) - i + j] == a[from + k]);
    }
    assert(b.subrange(from - i + j, to - i + j) =~= a.subrange(from, to));
}

/// A run of characters ends alike where the characters are alike up to its
/// end, and what ends it in one text ends it in the other.
proof fn lemma_run_alike(
    a: Seq<char>,
    i: int,
    b: Seq<char>,
    j: int,
    n: int,
    from: int,
    p: spec_fn(char) -> bool,
)
    requires
        alike(a, i, b, j, n),
        i <= from <= i + n,
        first_where(a, from, p) <= i + n,
        first_where(a, from, p) == i + n ==> j + n == b.len() || p(b[j + n]),
    ensures
        first_where(b, from - i + j, p) == first_where(a, from, p) - i + j,
        from <= first_where(a, from, p),
{
    let e = first_where(a, from, p);
    lemma_first_where(a, from, p);
    assert forall|q: int| from - i + j <= q < e - i + j implies !p(#[trigger] b[q]) by {
        assert(b[q] == a[q - j + i]);
    }
    if e < i + n {
        assert(b[e - i + j] == a[e]);
    }
    lemma_first_where_is(b, from - i + j, p, e - i + j);
}

/// A quoted string ends alike where the characters are alike up to its
/// end; where both texts end together, it is left open alike.
proof fn lemma_quote_alike(
    a: Seq<char>,
    i: int,
    b: Seq<char>,
    j: int,
    n: int,
    from: int,
    quote: char,
    escaped: bool,
)
    requires
        alike(a, i, b, j, n),
        i <= from,
    ensures
        match quote_end(a, from, quote, escaped) {
            QuoteEnd::Closed(at) => from <= at < a.len() && (at < i + n ==> quote_end(
                b,
                from - i + j,
                quote,
                escaped,
            ) == QuoteEnd::Closed(at - i + j)),
            QuoteEnd::LineFeed(at) => at < i + n ==> quote_end(b, from - i + j, quote, escaped)
                is LineFeed,
            QuoteEnd::Missing => i + n == a.len() && j + n == b.len() ==> quote_end(
                b,
                from - i + j,
                quote,
                escaped,
            ) is Missing,
        },
    decreases a.len() - from,
{
    if from < a.len() {
        if from < i + n {
            assert(b[from - i + j] == a[from]);
            if escaped {
                lemma_quote_alike(a, i, b, j, n, from + 1, quote, false);
            } else if a[from] == '\\' {
                lemma_quote_alike(a, i, b, j, n, from + 1, quote, true);
            } else if a[from] == quote {
            } else if a[from] == '\n' {
            } else {
                lemma_quote_alike(a, i, b, j, n, from + 1, quote, false);
            }
        } else {
            lemma_quote_within(a, from, quote, escaped);
        }
    }
}

/// A quoted string closes, or meets a line feed, at or behind the place it
/// is read from.
proof fn lemma_quote_within(a: Seq<char>, from: int, quote: char, escaped: bool)
    requires
        0 <= from,
    ensures
        match quote_end(a, from, quote, escaped) {
            QuoteEnd::Closed(at) => from <= at < a.len(),
            QuoteEnd::LineFeed(at) => from <= at < a.len(),
            QuoteEnd::Missing => true,
        },
    decreases a.len() - from,
{
    if from < a.len() {
        if escaped {
            lemma_quote_within(a, from + 1, quote, false);
        } else if a[from] == '\\' {
            lemma_quote_within(a, from + 1, quote, true);
        } else if a[from] == quote {
        } else if a[from] == '\n' {
        } else {
            lemma_quote_within(a, from + 1, quote, false);
        }
    }
}

/// A token that is no comment is read alike where the characters are alike
/// up to its end and what follows it ends it in both texts; where both
/// texts end together, what is no token in one is none in the other.
proof fn lemma_token_alike(a: Seq<char>, ca: Cursor, b: Seq<char>, cb: Cursor, n: int)
    requires
        alike(a, ca.idx, b, cb.idx, n),
        n >= 1,
        a[ca.idx] != '#',
        cb.idx + n == b.len() || b[cb.idx + n] == '\n' || (ca.idx + n < a.len() && b[cb.idx + n]
            == a[ca.idx + n]),
    ensures
        token_at(a, ca) matches Ok((kind, next)) ==> next.idx <= ca.idx + n ==> (token_at(
            b,
            cb,
        ) matches Ok((other, behind)) && other == kind && behind.idx == next.idx - ca.idx
            + cb.idx),
        token_at(a, ca) is Err ==> ca.idx + n == a.len() ==> cb.idx + n == b.len() ==> token_at(
            b,
            cb,
        ) is Err,
{
    let i = ca.idx;
    let j = cb.idx;
    let c = a[i];
    assert(b[i - i + j] == a[i]);
    assert(b[j] == c);
    let whole = i + n == a.len() && j + n == b.len();
    if c == '{' || c == '}' || c == ';' || c == '=' {
    } else if c == '"' || c == '\'' {
        lemma_quote_alike(a, i, b, j, n, i + 1, c, false);
        lemma_quote_within(a, i + 1, c, false);
        match quote_end(a, i + 1, c, false) {
            QuoteEnd::Closed(at) => {
                if at + 1 <= i + n {
                    lemma_alike_range(a, i, b, j, n, i + 1, at);
                }
            },
            _ => {},
        }
    } else if c == '$' {
        if i + 1 < a.len() && a[i + 1] == '{' {
            let end = first_where(a, i + 2, close_brace());
            lemma_first_where(a, i + 2, close_brace());
            if end < a.len() {
                if end + 1 <= i + n {
                    assert(b[(i + 1) - i + j] == a[i + 1]);
                    lemma_run_alike(a, i, b, j, n, i + 2, close_brace());
                    lemma_alike_range(a, i, b, j, n, i + 2, end);
                }
            } else if whole {
                assert(b[(i + 1) - i + j] == a[i + 1]);
                lemma_run_alike(a, i, b, j, n, i + 2, close_brace());
            }
        } else {
            let end = first_where(a, i + 1, not_word());
            lemma_first_where(a, i + 1, not_word());
            if end != i + 1 {
                if end <= i + n {
                    assert(b[(i + 1) - i + j] == a[i + 1]);
                    lemma_run_alike(a, i, b, j, n, i + 1, not_word());
                    lemma_alike_range(a, i, b, j, n, i + 1, end);
                }
            } else if whole {
                if n >= 2 {
                    assert(b[(i + 1) - i + j] == a[i + 1]);
                }
                lemma_run_alike(a, i, b, j, n, i + 1, not_word());
            }
        }
    } else if is_digit(c) {
        let end = first_where(a, i, not_number());
        lemma_first_where(a, i, not_number());
        if end <= i + n {
            lemma_run_alike(a, i, b, j, n, i, not_number());
            lemma_alike_range(a, i, b, j, n, i, end);
        }
    } else if is_word_start(c) {
        let end = first_where(a, i, not_word());
        lemma_first_where(a, i, not_word());
        if end <= i + n {
            lemma_run_alike(a, i, b, j, n, i, not_word());
            lemma_alike_range(a, i, b, j, n, i, end);
        }
    }
}

/// What is skipped as white space is white space, and what the skipping
/// stops at is none.
proof fn lemma_space_run(a: Seq<char>, c: Cursor)
    requires
        0 <= c.idx <= a.len(),
    ensures
        c.idx <= after_space(a, c).idx <= a.len(),
        forall|p: int| c.idx <= p < after_space(a, c).idx ==> is_space(#[trigger] a[p]),
        after_space(a, c).idx < a.len() ==> !is_space(a[after_space(a, c).idx]),
    decreases a.len() - c.idx,
{
    if c.idx < a.len() && is_space(a[c.idx]) {
        if a[c.idx] == '\n' {
            lemma_space_run(a, Cursor { idx: c.idx + 1, line: c.line + 1, col: 1 });
        } else {
            lemma_space_run(a, Cursor { idx: c.idx + 1, line: c.line, col: c.col + 1 });
        }
    }
}

/// The cursor that stands `w` characters of white space further on: from
/// it the skipping of white space ends where it ends from `c`.
proof fn lemma_skip(b: Seq<char>, c: Cursor, w: int) -> (r: Cursor)
    requires
        0 <= c.idx,
        0 <= w,
        c.idx + w <= b.len(),
        forall|q: int| c.idx <= q < c.idx + w ==> is_space(#[trigger] b[q]),
    ensures
        r.idx == c.idx + w,
        after_space(b, r) == after_space(b, c),
    decreases w,
{
    if w == 0 {
        c
    } else {
        assert(is_space(b[c.idx]));
        let step = if b[c.idx] == '\n' {
            Cursor { idx: c.idx + 1, line: c.line + 1, col: 1 }
        } else {
            Cursor { idx: c.idx + 1, line: c.line, col: c.col + 1 }
        };
        lemma_skip(b, step, w - 1)
    }
}

/// A text without its comments is empty, or begins as the text does, or
/// with the line feed that ended a comment.
proof fn lemma_bare_head(a: Seq<char>, c: Cursor)
    requires
        0 <= c.idx <= a.len(),
    ensures
        bare_from(a, c).len() == 0 || bare_from(a, c)[0] == '\n' || (c.idx < a.len() && bare_from(
            a,
            c,
        )[0] == a[c.idx]),
    decreases a.len() - c.idx,
{
    lemma_after_space(a, c);
    let begin = after_space(a, c);
    match next_token_at(a, c) {
        Err(_) => {},
        Ok((token, next)) => {
            if !(token.kind is Eof) {
                lemma_token_at(a, begin);
                if token.kind is Comment {
                    if begin.idx == c.idx {
                        lemma_first_where(a, begin.idx + 1, line_feed());
                        lemma_bare_head(a, next);
                        assert(a.subrange(c.idx, begin.idx) + bare_from(a, next) =~= bare_from(
                            a,
                            next,
                        ));
                    }
                }
            }
        },
    }
}

/// One token before others is kept among them unless it is a comment.
proof fn lemma_without_comments_front(token: TokenView, rest: Seq<TokenView>)
    ensures
        without_comments(seq![token] + rest) == if token.kind is Comment {
            without_comments(rest)
        } else {
            seq![token] + without_comments(rest)
        },
{
    let one = seq![token];
    Seq::filter_distributes_over_add(one, rest, not_comment());
    assert(one =~= Seq::<TokenView>::empty().push(token));
    Seq::<TokenView>::empty().lemma_filter_push(token, not_comment());
    Seq::<TokenView>::empty().lemma_filter_len(not_comment());
    if token.kind is Comment {
        assert(one.filter(not_comment()) =~= Seq::<TokenView>::empty());
        assert(Seq::<TokenView>::empty() + without_comments(rest) =~= without_comments(rest));
    } else {
        assert(one.filter(not_comment()) =~= one);
    }
}

/// The tokens of a text without its comments are the tokens of the text
/// that are no comments, by kind and text; and where the text has no
/// tokens, it has none without its comments.
proof fn lemma_tokens_bare(a: Seq<char>, ca: Cursor, b: Seq<char>, cb: Cursor)
    requires
        0 <= ca.idx <= a.len(),
        0 <= cb.idx <= b.len(),
        b.subrange(cb.idx, b.len() as int) == bare_from(a, ca),
    ensures
        tokens_from(a, ca) matches Ok(ta) ==> (tokens_from(b, cb) matches Ok(tb) && same_kinds(
            without_comments(ta),
            tb,
        )),
        tokens_from(a, ca) is Err ==> tokens_from(b, cb) is Err,
    decreases a.len() - ca.idx,
{
    let begin = after_space(a, ca);
    lemma_space_run(a, ca);
    let w = begin.idx - ca.idx;
    let none = Seq::<char>::empty();
    match next_token_at(a, ca) {
        Err(_) => {
            let n = a.len() - begin.idx;
            assert(a.subrange(ca.idx, a.len() as int) + none =~= a.subrange(
                ca.idx,
                a.len() as int,
            ));
            lemma_tail_split(a, ca.idx, a.len() as int, b, cb.idx, none);
            assert forall|q: int| cb.idx <= q < cb.idx + w implies is_space(#[trigger] b[q]) by {
                assert(b[q] == a[q - cb.idx + ca.idx]);
            }
            let c1 = lemma_skip(b, cb, w);
            lemma_alike_from(a, ca.idx, b, cb.idx, a.len() - ca.idx, w);
            assert(b[begin.idx - begin.idx + c1.idx] == a[begin.idx]);
            assert(after_space(b, c1) == c1);
            lemma_token_alike(a, begin, b, c1, n);
        },
        Ok((token, next)) => {
            if token.kind is Eof {
                assert(a.subrange(ca.idx, a.len() as int) + none =~= a.subrange(
                    ca.idx,
                    a.len() as int,
                ));
                lemma_tail_split(a, ca.idx, a.len() as int, b, cb.idx, none);
                assert forall|q: int| cb.idx <= q < cb.idx + w implies is_space(
                    #[trigger] b[q],
                ) by {
                    assert(b[q] == a[q - cb.idx + ca.idx]);
                }
                let c1 = lemma_skip(b, cb, w);
                assert(after_space(b, c1) == c1);
                let last = next_token_at(b, cb)->Ok_0.0;
                assert(tokens_from(b, cb) == Ok::<Seq<TokenView>, ErrorView>(seq![last]));
                lemma_without_comments_front(token, Seq::<TokenView>::empty());
                Seq::<TokenView>::empty().lemma_filter_len(not_comment());
                assert(seq![token] + Seq::<TokenView>::empty() =~= seq![token]);
                assert(without_comments(seq![token]) =~= seq![token]);
            } else {
                lemma_token_advances(a, ca);
                lemma_token_at(a, begin);
                if token.kind is Comment {
                    lemma_tail_split(a, ca.idx, begin.idx, b, cb.idx, bare_from(a, next));
                    assert forall|q: int| cb.idx <= q < cb.idx + w implies is_space(
                        #[trigger] b[q],
                    ) by {
                        assert(b[q] == a[q - cb.idx + ca.idx]);
                    }
                    let c1 = lemma_skip(b, cb, w);
                    lemma_tokens_bare(a, next, b, c1);
                    assert(next_token_at(b, cb) == next_token_at(b, c1));
                    assert(tokens_from(b, cb) == tokens_from(b, c1));
                    if let Ok(rest) = tokens_from(a, next) {
                        lemma_without_comments_front(token, rest);
                    }
                } else {
                    let n = next.idx - begin.idx;
                    lemma_tail_split(a, ca.idx, next.idx, b, cb.idx, bare_from(a, next));
                    assert forall|q: int| cb.idx <= q < cb.idx + w implies is_space(
                        #[trigger] b[q],
                    ) by {
                        assert(b[q] == a[q - cb.idx + ca.idx]);
                    }
                    let c1 = lemma_skip(b, cb, w);
                    lemma_alike_from(a, ca.idx, b, cb.idx, next.idx - ca.idx, w);
                    assert(b[begin.idx - begin.idx + c1.idx] == a[begin.idx]);
                    assert(after_space(b, c1) == c1);
                    lemma_bare_head(a, next);
                    let behind = bare_from(a, next);
                    if behind.len() > 0 {
                        assert(b.subrange(c1.idx + n, b.len() as int)[0] == b[c1.idx + n]);
                    }
                    lemma_token_alike(a, begin, b, c1, n);
                    let (found, nb) = next_token_at(b, cb)->Ok_0;
                    assert(found.kind == token.kind);
                    assert(nb.idx == c1.idx + n);
                    lemma_tokens_bare(a, next, b, nb);
                    lemma_token_advances(b, cb);
                    if let Ok(rest) = tokens_from(a, next) {
                        lemma_without_comments_front(token, rest);
                        let others = tokens_from(b, nb)->Ok_0;
                        let kept = without_comments(rest);
                        let x = seq![token] + kept;
                        let y = seq![found] + others;
                        assert(tokens_from(b, cb) == Ok::<Seq<TokenView>, ErrorView>(y));
                        assert forall|k: int| 0 <= k < x.len() implies 0 <= k + 0 < y.len() && y[k
                            + 0].kind == (#[trigger] x[k]).kind by {
                            if k > 0 {
                                assert(x[k] == kept[k - 1]);
                                assert(y[k] == others[k - 1]);
                            }
                        }
                    }
                }
            }
        },
    }
}

/// A configuration is read alike from tokens of the same kinds and texts.
proof fn lemma_config_frame(x: Seq<TokenView>, y: Seq<TokenView>, at: int)
    requires
        ended(x),
        ended(y),
        same_kinds(x, y),
        0 <= at < x.len(),
        config_at(x, at) is Ok,
    ensures
        config_at(y, at) == config_at(x, at),
    decreases x.len() - at,
{
    assert(y[at + 0].kind == x[at].kind);
    match x[at].kind {
        TokenKindView::Eof => {},
        TokenKindView::Comment(_) => {
            lemma_config_frame(x, y, at + 1);
        },
        _ => {
            lemma_directive_at(x, at);
            match directive_at(x, at) {
                Ok((d, next)) => {
                    lemma_directive_frame(x, y, at, x.len() as int, 0);
                    lemma_config_frame(x, y, next);
                },
                Err(_) => {},
            }
        },
    }
}

/// Comments leave no trace in the tree: a text and the same text without
/// the characters of its comments both fail to parse, or both parse, and
/// then to the same tree. No name and no value of the tree is taken from a
/// comment.
pub proof fn theorem_comments_in_text(s: Seq<char>)
    ensures
        parse_text(s) is Ok <==> parse_text(bare(s)) is Ok,
        parse_text(s) matches Ok(ds) ==> parse_text(bare(s)) == Ok::<
            Seq<DirectiveView>,
            ErrorView,
        >(ds),
{
    let b = bare(s);
    assert(b.subrange(0, b.len() as int) =~= b);
    lemma_tokens_bare(s, origin(), b, origin());
    lemma_tokens_end(s, origin());
    lemma_tokens_end(b, origin());
    if let Ok(ta) = tokens_of(s) {
        let tb = tokens_of(b)->Ok_0;
        let x = without_comments(ta);
        theorem_comments_leave_no_trace(ta);
        assert(ended(x)) by {
            assert(tb[(x.len() - 1) + 0].kind == x[x.len() - 1].kind);
        }
        if config_at(x, 0) is Ok {
            lemma_config_frame(x, tb, 0);
        }
        if config_at(tb, 0) is Ok {
            assert(same_kinds(tb, x)) by {
                assert forall|k: int| 0 <= k < tb.len() implies 0 <= k + 0 < x.len() && x[k
                    + 0].kind == (#[trigger] tb[k]).kind by {
                    assert(tb[k + 0].kind == x[k].kind);
                }
            }
            lemma_config_frame(tb, x, 0);
        }
    }
}

} // verus!

//! Tokens: what the lexer hands to the parser.

use vstd::prelude::*;
use crate::ast::span::Span;

verus! {

/// A token and the place it was read from.
#[derive(Debug, PartialEq, Eq)]
pub struct Token {
    /// What kind of token this is, with its text where it has one.
    pub kind: TokenKind,
    /// Where it stood in the source.
    pub span: Span,
}

/// The kinds of token.
#[derive(Debug, PartialEq, Eq)]
pub enum TokenKind {
    /// A word: `server`, `listen`, `/var/www`, ...
    Word(String),
    /// The content of a quoted string, without the quotes.
    String(String),
    /// A number: `80`, `1.5`, ...
    Number(String),
    /// A variable reference; the name without `$` and braces.
    Variable(String),
    /// `{`
    LeftBrace,
    /// `}`
    RightBrace,
    /// `;`
    Semicolon,
    /// A comment; the text after `#`, trimmed.
    Comment(String),
    /// The end of the input.
    Eof,
}

/// The mathematical value of a [`TokenKind`].
pub enum TokenKindView {
    Word(Seq<char>),
    String(Seq<char>),
    Number(Seq<char>),
    Variable(Seq<char>),
    LeftBrace,
    RightBrace,
    Semicolon,
    Comment(Seq<char>),
    Eof,
}

/// The mathematical value of a [`Token`].
pub struct TokenView {
    pub kind: TokenKindView,
    pub span: Span,
}

impl TokenKindView {
    /// The text of a word, string, number or variable token.
    pub open spec fn text(self) -> Option<Seq<char>> {
        match self {
            TokenKindView::Word(s) => Some(s),
            TokenKindView::String(s) => Some(s),
            TokenKindView::Number(s) => Some(s),
            TokenKindView::Variable(s) => Some(s),
            _ => None,
        }
    }

    /// How the kind is named in a diagnostic.
    pub open spec fn display_text(self) -> Seq<char> {
        match self {
            TokenKindView::Word(s) => "word '"@ + s + "'"@,
            TokenKindView::String(s) => "string \""@ + s + "\""@,
            TokenKindView::Number(s) => "number '"@ + s + "'"@,
            TokenKindView::Variable(s) => "variable '$"@ + s + "'"@,
            TokenKindView::LeftBrace => "'{'"@,
            TokenKindView::RightBrace => "'}'"@,
            TokenKindView::Semicolon => "';'"@,
            TokenKindView::Comment(s) => "comment '# "@ + s + "'"@,
            TokenKindView::Eof => "end of file"@,
        }
    }
}

impl View for TokenKind {
    type V = TokenKindView;

    open spec fn view(&self) -> TokenKindView {
        match self {
            TokenKind::Word(s) => TokenKindView::Word(s@),
            TokenKind::String(s) => TokenKindView::String(s@),
            TokenKind::Number(s) => TokenKindView::Number(s@),
            TokenKind::Variable(s) => TokenKindView::Variable(s@),
            TokenKind::LeftBrace => TokenKindView::LeftBrace,
            TokenKind::RightBrace => TokenKindView::RightBrace,
            TokenKind::Semicolon => TokenKindView::Semicolon,
            TokenKind::Comment(s) => TokenKindView::Comment(s@),
            TokenKind::Eof => TokenKindView::Eof,
        }
    }
}

impl View for Token {
    type V = TokenView;

    open spec fn view(&self) -> TokenView {
        TokenView { kind: self.kind@, span: self.span }
    }
}

/// The views of a sequence of tokens, element by element.
pub open spec fn tokens_view(ts: Seq<Token>) -> Seq<TokenView> {
    Seq::new(ts.len(), |i: int| ts[i]@)
}

impl Clone for TokenKind {
    fn clone(&self) -> (r: TokenKind)
        ensures
            r@ == self@,
    {
        match self {
            TokenKind::Word(s) => TokenKind::Word(s.clone()),
            TokenKind::String(s) => TokenKind::String(s.clone()),
            TokenKind::Number(s) => TokenKind::Number(s.clone()),
            TokenKind::Variable(s) => TokenKind::Variable(s.clone()),
            TokenKind::LeftBrace => TokenKind::LeftBrace,
            TokenKind::RightBrace => TokenKind::RightBrace,
            TokenKind::Semicolon => TokenKind::Semicolon,
            TokenKind::Comment(s) => TokenKind::Comment(s.clone()),
            TokenKind::Eof => TokenKind::Eof,
        }
    }
}

impl Clone for Token {
    fn clone(&self) -> (r: Token)
        ensures
            r@ == self@,
    {
        Token { kind: self.kind.clone(), span: self.span }
    }
}

impl Token {
    /// A token of the given kind at the given place.
    pub fn new(kind: TokenKind, span: Span) -> (r: Token)
        ensures
            r.kind == kind,
            r.span == span,
            r@ == (TokenView { kind: kind@, span }),
    {
        Token { kind, span }
    }
}

impl TokenKind {
    /// Whether this is a word.
    pub fn is_word(&self) -> (r: bool)
        ensures
            r == (self@ is Word),
    {
        match self {
            TokenKind::Word(_) => true,
            _ => false,
        }
    }

    /// Whether this is a quoted string.
    pub fn is_string(&self) -> (r: bool)
        ensures
            r == (self@ is String),
    {
        match self {
            TokenKind::String(_) => true,
            _ => false,
        }
    }

    /// Whether this is a number.
    pub fn is_number(&self) -> (r: bool)
        ensures
            r == (self@ is Number),
    {
        match self {
            TokenKind::Number(_) => true,
            _ => false,
        }
    }

    /// Whether this is a variable reference.
    pub fn is_variable(&self) -> (r: bool)
        ensures
            r == (self@ is Variable),
    {
        match self {
            TokenKind::Variable(_) => true,
            _ => false,
        }
    }

    /// The text of a word, string, number or variable token; `None` for the
    /// other kinds, comments included.
    pub fn as_string(&self) -> (r: Option<&str>)
        ensures
            match r {
                Some(s) => self@.text() == Some(s@),
                None => self@.text() is None,
            },
    {
        match self {
            TokenKind::Word(s) => Some(s.as_str()),
            TokenKind::String(s) => Some(s.as_str()),
            TokenKind::Variable(s) => Some(s.as_str()),
            TokenKind::Number(s) => Some(s.as_str()),
            _ => None,
        }
    }

    /// How the kind is named in a diagnostic: `word 'x'`, `';'`,
    /// `end of file`, ...
    pub fn to_string(&self) -> (r: String)
        ensures
            r@ == self@.display_text(),
    {
        let mut out = String::new();
        match self {
            TokenKind::Word(s) => {
                out.append("word '");
                out.append(s.as_str());
                out.append("'");
            },
            TokenKind::String(s) => {
                out.append("string \"");
                out.append(s.as_str());
                out.append("\"");
            },
            TokenKind::Number(s) => {
                out.append("number '");
                out.append(s.as_str());
                out.append("'");
            },
            TokenKind::Variable(s) => {
                out.append("variable '$");
                out.append(s.as_str());
                out.append("'");
            },
            TokenKind::LeftBrace => {
                out.append("'{'");
            },
            TokenKind::RightBrace => {
                out.append("'}'");
            },
            TokenKind::Semicolon => {
                out.append("';'");
            },
            TokenKind::Comment(s) => {
                out.append("comment '# ");
                out.append(s.as_str());
                out.append("'");
            },
            TokenKind::Eof => {
                out.append("end of file");
            },
        }
        assert(out@ =~= self@.display_text());
        out
    }
}

} // verus!

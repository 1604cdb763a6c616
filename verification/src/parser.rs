//! From configuration text to tokens, and from tokens to the tree.

pub mod comments;
pub mod counting;
pub mod lexer;
pub mod parse;
pub mod theorems;
pub mod token;

pub use lexer::Lexer;
pub use parse::{parse, Parser};
pub use token::{Token, TokenKind, TokenKindView, TokenView};

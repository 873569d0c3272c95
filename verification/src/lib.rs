//! A lexer for the nyxx scripting language.

pub mod chars;
pub mod error;
pub mod grammar;
pub mod keywords;
pub mod laws;
pub mod lexer;
pub mod span;
pub mod text;
pub mod token;

pub use crate::chars::{is_alpha, is_alphanum, is_digit, is_whitespace};
pub use crate::error::{LexError, LexErrorKind};
pub use crate::keywords::lookup_keyword;
pub use crate::lexer::{LexContext, Lexer, LexerIter};
pub use crate::span::Span;
pub use crate::token::{Token, TokenValue, TokenView, ValueView};

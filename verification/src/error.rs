//! What ends a scan before the end of the input.

use vstd::prelude::*;
use crate::span::Span;
use crate::text::push_text;

verus! {

/// Why a lexeme could not be read.
#[derive(Clone, Copy, Debug, PartialEq, Eq, Structural)]
pub enum LexErrorKind {
    /// The input ended inside a string literal.
    UnterminatedString,
    /// A number's dot was not followed by a digit.
    MalformedNumber,
    /// A character that starts no lexeme.
    UnrecognizedChar(char),
}

/// A lexical error: its kind, and the span from the start of the lexeme to
/// the place at which the scan gave up.
#[derive(Clone, Copy, Debug, PartialEq, Eq, Structural)]
pub struct LexError {
    pub kind: LexErrorKind,
    pub span: Span,
}

impl LexErrorKind {
    /// The text that `message` gives.
    pub open spec fn spec_message(self) -> Seq<char> {
        match self {
            LexErrorKind::UnterminatedString => "unterminated string"@,
            LexErrorKind::MalformedNumber => "malformed number"@,
            LexErrorKind::UnrecognizedChar(c) => "unrecognized character "@.push(c),
        }
    }

    /// The kind in words; an unrecognized character is named.
    pub fn message(&self) -> (text: String)
        ensures
            text@ == self.spec_message(),
    {
        let mut text = String::new();
        match self {
            LexErrorKind::UnterminatedString => push_text(&mut text, "unterminated string"),
            LexErrorKind::MalformedNumber => push_text(&mut text, "malformed number"),
            LexErrorKind::UnrecognizedChar(c) => {
                push_text(&mut text, "unrecognized character ");
                text.push(*c);
            },
        }
        assert(text@ =~= self.spec_message());
        text
    }
}

impl LexError {
    /// The text that `message` gives.
    pub open spec fn spec_message(self) -> Seq<char> {
        self.kind.spec_message() + " at "@ + self.span.spec_text()
    }

    /// The error in words, with its span.
    pub fn message(&self) -> (text: String)
        ensures
            text@ == self.spec_message(),
    {
        let mut text = self.kind.message();
        push_text(&mut text, " at ");
        let span = self.span.display_text();
        push_text(&mut text, span.as_str());
        assert(text@ =~= self.spec_message());
        text
    }
}

} // verus!

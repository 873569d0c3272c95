//! Source positions and the running span of the lexeme being scanned.

use vstd::prelude::*;
use crate::text::{decimal, push_decimal, push_text};

verus! {

/// A range of source text, from `start_line:start_col` up to, but not
/// including, `end_line:end_col`. Lines count from 1, columns from 0.
///
/// A span is also the tracker that a scan carries along: its end runs
/// ahead with every character consumed, and `extract` hands out the window
/// covered so far and starts the next one where this one ended.
#[derive(Clone, Copy, Debug, PartialEq, Eq, Structural)]
pub struct Span {
    pub start_line: usize,
    pub start_col: usize,
    pub end_line: usize,
    pub end_col: usize,
}

impl Span {
    /// The start does not lie behind the end, lines compared before columns.
    pub open spec fn wf(&self) -> bool {
        self.start_line < self.end_line || (self.start_line == self.end_line && self.start_col
            <= self.end_col)
    }

    /// Nothing lies between start and end.
    pub open spec fn is_empty(&self) -> bool {
        self.start_line == self.end_line && self.start_col == self.end_col
    }

    /// The empty span at the place where this one ends.
    pub open spec fn rest(&self) -> Span {
        Span {
            start_line: self.end_line,
            start_col: self.end_col,
            end_line: self.end_line,
            end_col: self.end_col,
        }
    }

    /// This span ends where `next` starts.
    pub open spec fn meets(&self, next: Span) -> bool {
        self.end_line == next.start_line && self.end_col == next.start_col
    }

    /// The text that `display_text` gives.
    pub open spec fn spec_text(&self) -> Seq<char> {
        if self.start_line == self.end_line {
            if self.end_col - self.start_col == 1 {
                seq!['['] + decimal(self.start_line as nat) + seq![':'] + decimal(
                    self.start_col as nat,
                ) + seq![']']
            } else {
                seq!['['] + decimal(self.start_line as nat) + seq![':'] + decimal(
                    self.start_col as nat,
                ) + seq!['.', '.'] + decimal(self.end_col as nat) + seq![']']
            }
        } else {
            seq!['('] + decimal(self.start_line as nat) + seq![':'] + decimal(
                self.start_col as nat,
            ) + seq!['.', '.'] + decimal(self.end_line as nat) + seq![':'] + decimal(
                self.end_col as nat,
            ) + seq![')']
        }
    }

    /// An empty span at the beginning of the text.
    pub fn new() -> (span: Span)
        ensures
            span == (Span { start_line: 1, start_col: 0, end_line: 1, end_col: 0 }),
            span.wf(),
            span.is_empty(),
    {
        Span { start_line: 1, start_col: 0, end_line: 1, end_col: 0 }
    }

    /// Moves the end one column on: one character was consumed.
    pub fn new_column(&mut self)
        requires
            old(self).end_col < usize::MAX,
        ensures
            *final(self) == (Span { end_col: (old(self).end_col + 1) as usize, ..*old(self) }),
            old(self).wf() ==> final(self).wf(),
    {
        self.end_col += 1;
    }

    /// Moves the end to the first column of the next line: the character
    /// consumed was a newline.
    pub fn new_line(&mut self)
        requires
            old(self).end_line < usize::MAX,
        ensures
            *final(self) == (Span {
                end_line: (old(self).end_line + 1) as usize,
                end_col: 0,
                ..*old(self)
            }),
            old(self).wf() ==> final(self).wf(),
    {
        self.end_line += 1;
        self.end_col = 0;
    }

    /// Hands out the window covered so far; the tracker goes on with an
    /// empty window at the place where the one handed out ends.
    pub fn extract(&mut self) -> (span: Span)
        ensures
            span == *old(self),
            *final(self) == old(self).rest(),
            span.meets(*final(self)),
            final(self).is_empty(),
            final(self).wf(),
    {
        let span = Span {
            start_line: self.start_line,
            start_col: self.start_col,
            end_line: self.end_line,
            end_col: self.end_col,
        };
        self.start_line = self.end_line;
        self.start_col = self.end_col;
        span
    }

    /// The span as text: `[line:col]` for one column, `[line:col..col]`
    /// within a line, `(line:col..line:col)` across lines.
    pub fn display_text(&self) -> (text: String)
        ensures
            text@ == self.spec_text(),
    {
        let mut text = String::new();
        if self.start_line == self.end_line {
            push_text(&mut text, "[");
            push_decimal(&mut text, self.start_line);
            push_text(&mut text, ":");
            push_decimal(&mut text, self.start_col);
            if self.end_col > self.start_col && self.end_col - self.start_col == 1 {
                push_text(&mut text, "]");
            } else {
                push_text(&mut text, "..");
                push_decimal(&mut text, self.end_col);
                push_text(&mut text, "]");
            }
        } else {
            push_text(&mut text, "(");
            push_decimal(&mut text, self.start_line);
            push_text(&mut text, ":");
            push_decimal(&mut text, self.start_col);
            push_text(&mut text, "..");
            push_decimal(&mut text, self.end_line);
            push_text(&mut text, ":");
            push_decimal(&mut text, self.end_col);
            push_text(&mut text, ")");
        }
        proof {
            reveal_strlit("[");
            reveal_strlit("]");
            reveal_strlit("(");
            reveal_strlit(")");
            reveal_strlit(":");
            reveal_strlit("..");
            assert("["@ =~= seq!['[']);
            assert("]"@ =~= seq![']']);
            assert("("@ =~= seq!['(']);
            assert(")"@ =~= seq![')']);
            assert(":"@ =~= seq![':']);
            assert(".."@ =~= seq!['.', '.']);
            assert(text@ =~= self.spec_text());
        }
        text
    }
}

impl Default for Span {
    /// The empty span at the beginning of the text.
    fn default() -> (span: Span)
        ensures
            span == (Span { start_line: 1, start_col: 0, end_line: 1, end_col: 0 }),
    {
        Span::new()
    }
}

/// `span + n` is the span with its end `n` columns on.
impl core::ops::Add<usize> for Span {
    type Output = Span;

    fn add(self, rhs: usize) -> (span: Span) {
        Span {
            start_line: self.start_line,
            start_col: self.start_col,
            end_line: self.end_line,
            end_col: self.end_col + rhs,
        }
    }
}

impl vstd::std_specs::ops::AddSpecImpl<usize> for Span {
    open spec fn obeys_add_spec() -> bool {
        true
    }

    open spec fn add_req(self, rhs: usize) -> bool {
        self.end_col + rhs <= usize::MAX
    }

    open spec fn add_spec(self, rhs: usize) -> Span {
        Span { end_col: (self.end_col + rhs) as usize, ..self }
    }
}

/// `span * n` is the span with its end at the first column, `n` lines on.
impl core::ops::Mul<usize> for Span {
    type Output = Span;

    fn mul(self, rhs: usize) -> (span: Span) {
        Span {
            start_line: self.start_line,
            start_col: self.start_col,
            end_line: self.end_line + rhs,
            end_col: 0,
        }
    }
}

impl vstd::std_specs::ops::MulSpecImpl<usize> for Span {
    open spec fn obeys_mul_spec() -> bool {
        true
    }

    open spec fn mul_req(self, rhs: usize) -> bool {
        self.end_line + rhs <= usize::MAX
    }

    open spec fn mul_spec(self, rhs: usize) -> Span {
        Span { end_line: (self.end_line + rhs) as usize, end_col: 0, ..self }
    }
}

} // verus!

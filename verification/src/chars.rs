//! The character classes of the language.

use vstd::prelude::*;

verus! {

/// A decimal digit, `0` to `9`.
pub open spec fn spec_is_digit(c: char) -> bool {
    '0' <= c && c <= '9'
}

/// An ASCII letter or the underscore.
pub open spec fn spec_is_alpha(c: char) -> bool {
    ('a' <= c && c <= 'z') || ('A' <= c && c <= 'Z') || c == '_'
}

/// A character that may continue an identifier.
pub open spec fn spec_is_alphanum(c: char) -> bool {
    spec_is_alpha(c) || spec_is_digit(c)
}

/// A blank within a line: space, tab or carriage return. The newline is
/// not one of them.
pub open spec fn spec_is_whitespace(c: char) -> bool {
    c == ' ' || c == '\t' || c == '\r'
}

#[verifier::when_used_as_spec(spec_is_digit)]
pub fn is_digit(c: char) -> (b: bool)
    ensures
        b == spec_is_digit(c),
{
    c >= '0' && c <= '9'
}

#[verifier::when_used_as_spec(spec_is_alpha)]
pub fn is_alpha(c: char) -> (b: bool)
    ensures
        b == spec_is_alpha(c),
{
    c >= 'a' && c <= 'z' || c >= 'A' && c <= 'Z' || c == '_'
}

#[verifier::when_used_as_spec(spec_is_alphanum)]
pub fn is_alphanum(c: char) -> (b: bool)
    ensures
        b == spec_is_alphanum(c),
{
    is_alpha(c) || is_digit(c)
}

#[verifier::when_used_as_spec(spec_is_whitespace)]
pub fn is_whitespace(c: char) -> (b: bool)
    ensures
        b == spec_is_whitespace(c),
{
    c == ' ' || c == '\t' || c == '\r'
}

/// The classes of characters of which a lexeme takes a longest run.
#[derive(Clone, Copy)]
pub enum CharClass {
    /// Decimal digits.
    Digit,
    /// Letters, digits and the underscore.
    AlphaNum,
    /// Space, tab and carriage return.
    Blank,
    /// Every character but the given one.
    Except(char),
}

impl CharClass {
    /// Whether `c` belongs to the class.
    pub open spec fn holds(self, c: char) -> bool {
        match self {
            CharClass::Digit => spec_is_digit(c),
            CharClass::AlphaNum => spec_is_alphanum(c),
            CharClass::Blank => spec_is_whitespace(c),
            CharClass::Except(stop) => c != stop,
        }
    }

    /// Whether `c` belongs to the class.
    pub fn contains(&self, c: char) -> (b: bool)
        ensures
            b == self.holds(c),
    {
        match self {
            CharClass::Digit => is_digit(c),
            CharClass::AlphaNum => is_alphanum(c),
            CharClass::Blank => is_whitespace(c),
            CharClass::Except(stop) => c != *stop,
        }
    }
}

/// The classes are pairwise disjoint, and none of them holds the newline,
/// so the first character of a lexeme decides its class.
pub proof fn lemma_classes_disjoint(c: char)
    ensures
        !(is_digit(c) && is_alpha(c)),
        !(is_digit(c) && is_whitespace(c)),
        !(is_alpha(c) && is_whitespace(c)),
        c == '\n' ==> !is_alphanum(c) && !is_whitespace(c),
{
}

} // verus!

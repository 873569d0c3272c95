//! The lexical grammar, as functions on the characters of a source text.
//!
//! `lex_at` says what the lexeme at an index is and where it ends, `scan`
//! what a whole text yields. Everything here is ghost code: the scanner is
//! proved against it.

use vstd::prelude::*;
use crate::chars::{spec_is_alpha, spec_is_digit, spec_is_whitespace, CharClass};
use crate::error::{LexError, LexErrorKind};
use crate::keywords::word_value;
use crate::span::Span;
use crate::token::{TokenView, ValueView};

verus! {

/// A line, counted from 1, and a column, counted from 0.
pub struct Place {
    pub line: int,
    pub col: int,
}

/// The place behind a character `c` that stands at `p`: the first column
/// of the next line behind a newline, the next column behind any other.
pub open spec fn place_behind(p: Place, c: char) -> Place {
    if c == '\n' {
        Place { line: p.line + 1, col: 0 }
    } else {
        Place { line: p.line, col: p.col + 1 }
    }
}

/// The place of index `n` in `s`: where a reader stands that has consumed
/// the first `n` characters.
pub open spec fn place_at(s: Seq<char>, n: int) -> Place
    decreases n,
{
    if n <= 0 {
        Place { line: 1, col: 0 }
    } else {
        place_behind(place_at(s, n - 1), s[n - 1])
    }
}

/// The span of the characters of `s` from index `from` up to `to`.
pub open spec fn span_of(s: Seq<char>, from: int, to: int) -> Span {
    Span {
        start_line: place_at(s, from).line as usize,
        start_col: place_at(s, from).col as usize,
        end_line: place_at(s, to).line as usize,
        end_col: place_at(s, to).col as usize,
    }
}

/// The end of the longest run of characters of `class` that starts at
/// index `i`: the first index from `i` on at which `s` ends or holds a
/// character outside the class.
pub open spec fn run_end(s: Seq<char>, class: CharClass, i: int) -> int
    decreases s.len() - i,
{
    if 0 <= i < s.len() && class.holds(s[i]) {
        run_end(s, class, i + 1)
    } else {
        i
    }
}

/// The index behind the line that holds index `i`: behind its newline, or
/// the end of the text where no newline follows.
pub open spec fn line_end(s: Seq<char>, i: int) -> int {
    let stop = run_end(s, CharClass::Except('\n'), i);
    if stop < s.len() {
        stop + 1
    } else {
        stop
    }
}

/// What stands at an index of the text.
pub enum Scan {
    /// A lexeme of the given value, which ends before index `end`.
    Token { value: ValueView, end: int },
    /// No lexeme: the scan gives up at index `end`.
    Error { kind: LexErrorKind, end: int },
}

impl Scan {
    /// The index up to which the text was consumed.
    pub open spec fn end(self) -> int {
        match self {
            Scan::Token { end, .. } => end,
            Scan::Error { end, .. } => end,
        }
    }
}

/// Whether the character at index `i` of `s` is `c`.
pub open spec fn has_char(s: Seq<char>, i: int, c: char) -> bool {
    0 <= i < s.len() && s[i] == c
}

/// An operator of one character that an `=` behind it makes another.
pub open spec fn operator_at(s: Seq<char>, i: int, alone: ValueView, with_equal: ValueView) -> Scan {
    if has_char(s, i + 1, '=') {
        Scan::Token { value: with_equal, end: i + 2 }
    } else {
        Scan::Token { value: alone, end: i + 1 }
    }
}

/// A slash: a second slash behind it starts a comment, which runs to the
/// end of the line and takes the newline with it. The comment's text is
/// what follows the first slash.
pub open spec fn slash_at(s: Seq<char>, i: int) -> Scan {
    if has_char(s, i + 1, '/') {
        let end = line_end(s, i + 1);
        Scan::Token { value: ValueView::Comment(s.subrange(i + 1, end)), end }
    } else {
        Scan::Token { value: ValueView::Slash, end: i + 1 }
    }
}

/// A string: everything up to the next double quote, with no escapes. The
/// text is what stands between the quotes.
pub open spec fn string_at(s: Seq<char>, i: int) -> Scan {
    let close = run_end(s, CharClass::Except('"'), i + 1);
    if close < s.len() {
        Scan::Token { value: ValueView::String(s.subrange(i + 1, close)), end: close + 1 }
    } else {
        Scan::Error { kind: LexErrorKind::UnterminatedString, end: close }
    }
}

/// A number: digits, and then perhaps a dot and digits. A dot behind the
/// digits belongs to the number, and must have a digit behind it.
pub open spec fn number_at(s: Seq<char>, i: int) -> Scan {
    let whole = run_end(s, CharClass::Digit, i + 1);
    if has_char(s, whole, '.') {
        let fraction = run_end(s, CharClass::Digit, whole + 1);
        if fraction == whole + 1 {
            Scan::Error { kind: LexErrorKind::MalformedNumber, end: whole + 1 }
        } else {
            Scan::Token { value: ValueView::Number(s.subrange(i, fraction)), end: fraction }
        }
    } else {
        Scan::Token { value: ValueView::Number(s.subrange(i, whole)), end: whole }
    }
}

/// A word: letters, digits and underscores. It is a keyword where its
/// whole text is one, else an identifier.
pub open spec fn word_at(s: Seq<char>, i: int) -> Scan {
    let end = run_end(s, CharClass::AlphaNum, i + 1);
    Scan::Token { value: word_value(s.subrange(i, end)), end }
}

/// A run of blanks.
pub open spec fn blank_at(s: Seq<char>, i: int) -> Scan {
    let end = run_end(s, CharClass::Blank, i + 1);
    Scan::Token { value: ValueView::Whitespace(s.subrange(i, end)), end }
}

/// What stands at index `i` of `s`, for `0 <= i < s.len()`: the first
/// character decides the kind of lexeme, and the lexeme is the longest of
/// its kind.
pub open spec fn lex_at(s: Seq<char>, i: int) -> Scan {
    let c = s[i];
    if c == '(' {
        Scan::Token { value: ValueView::LeftParen, end: i + 1 }
    } else if c == ')' {
        Scan::Token { value: ValueView::RightParen, end: i + 1 }
    } else if c == '{' {
        Scan::Token { value: ValueView::LeftBrace, end: i + 1 }
    } else if c == '}' {
        Scan::Token { value: ValueView::RightBrace, end: i + 1 }
    } else if c == ',' {
        Scan::Token { value: ValueView::Comma, end: i + 1 }
    } else if c == '.' {
        Scan::Token { value: ValueView::Dot, end: i + 1 }
    } else if c == '-' {
        Scan::Token { value: ValueView::Minus, end: i + 1 }
    } else if c == '+' {
        Scan::Token { value: ValueView::Plus, end: i + 1 }
    } else if c == ';' {
        Scan::Token { value: ValueView::Semicolon, end: i + 1 }
    } else if c == '*' {
        Scan::Token { value: ValueView::Star, end: i + 1 }
    } else if c == '!' {
        operator_at(s, i, ValueView::Bang, ValueView::BangEqual)
    } else if c == '=' {
        operator_at(s, i, ValueView::Equal, ValueView::EqualEqual)
    } else if c == '<' {
        operator_at(s, i, ValueView::Less, ValueView::LessEqual)
    } else if c == '>' {
        operator_at(s, i, ValueView::Greater, ValueView::GreaterEqual)
    } else if c == '/' {
        slash_at(s, i)
    } else if c == '"' {
        string_at(s, i)
    } else if c == '\n' {
        Scan::Token { value: ValueView::NewLine, end: i + 1 }
    } else if spec_is_whitespace(c) {
        blank_at(s, i)
    } else if spec_is_digit(c) {
        number_at(s, i)
    } else if spec_is_alpha(c) {
        word_at(s, i)
    } else {
        Scan::Error { kind: LexErrorKind::UnrecognizedChar(c), end: i + 1 }
    }
}

/// The end-of-input token of `s`: an empty span at the end of the text.
pub open spec fn eof_token(s: Seq<char>) -> TokenView {
    TokenView { value: ValueView::Eof, span: span_of(s, s.len() as int, s.len() as int) }
}

/// What a scan yields: the tokens up to the end of the input or to the
/// first error, and that error.
pub struct Outcome {
    pub tokens: Seq<TokenView>,
    pub error: Option<LexError>,
}

/// What the text yields from index `i` on: lexeme after lexeme, and the
/// end-of-input token last. An error ends the sequence in its place.
pub open spec fn scan_from(s: Seq<char>, i: int) -> Outcome
    decreases s.len() - i,
    via scan_from_decreases
{
    if i < 0 || i >= s.len() {
        Outcome { tokens: seq![eof_token(s)], error: None }
    } else {
        match lex_at(s, i) {
            Scan::Token { value, end } => {
                let rest = scan_from(s, end);
                Outcome {
                    tokens: seq![TokenView { value, span: span_of(s, i, end) }] + rest.tokens,
                    error: rest.error,
                }
            },
            Scan::Error { kind, end } => Outcome {
                tokens: seq![],
                error: Some(LexError { kind, span: span_of(s, i, end) }),
            },
        }
    }
}

#[via_fn]
proof fn scan_from_decreases(s: Seq<char>, i: int) {
    if 0 <= i < s.len() {
        lemma_lex_at_advances(s, i);
    }
}

/// What the whole text yields.
pub open spec fn scan(s: Seq<char>) -> Outcome {
    scan_from(s, 0)
}

/// The tokens that are no trivia, in their order.
pub open spec fn significant(tokens: Seq<TokenView>) -> Seq<TokenView> {
    tokens.filter(|t: TokenView| !t.value.is_trivia())
}

/// The tokens that a scan hands out: all of them where trivia is
/// preserved, else those that are no trivia.
pub open spec fn emitted(tokens: Seq<TokenView>, preserve_trivia: bool) -> Seq<TokenView> {
    if preserve_trivia {
        tokens
    } else {
        significant(tokens)
    }
}

/// The index of the first lexeme from `i` on that is no trivia: behind
/// every whitespace, line break and comment that stands there.
pub open spec fn skip_trivia(s: Seq<char>, i: int) -> int
    decreases s.len() - i,
    via skip_trivia_decreases
{
    if 0 <= i < s.len() {
        match lex_at(s, i) {
            Scan::Token { value, end } => if value.is_trivia() {
                skip_trivia(s, end)
            } else {
                i
            },
            Scan::Error { .. } => i,
        }
    } else {
        i
    }
}

#[via_fn]
proof fn skip_trivia_decreases(s: Seq<char>, i: int) {
    if 0 <= i < s.len() {
        lemma_lex_at_advances(s, i);
    }
}

/// What one pull hands out.
pub enum Pulled {
    /// Nothing: the scan has ended.
    Nothing,
    /// The next token.
    Token(TokenView),
    /// The error that ends the scan.
    Error(LexError),
}

/// One pull: what it hands out, the index up to which the text is consumed
/// after it, and whether the scan has ended with it.
pub struct Pull {
    pub out: Pulled,
    pub offset: int,
    pub finished: bool,
}

/// A pull at index `offset` that passes over nothing. A scan that has
/// finished hands out nothing more and stays where it is. At the end of
/// the text the end-of-input token comes, once, and the scan has finished;
/// so it has with an error. Else the lexeme at `offset` is handed out.
pub open spec fn pull_at(s: Seq<char>, offset: int, finished: bool) -> Pull {
    if finished {
        Pull { out: Pulled::Nothing, offset, finished: true }
    } else if offset >= s.len() {
        Pull { out: Pulled::Token(eof_token(s)), offset, finished: true }
    } else {
        match lex_at(s, offset) {
            Scan::Token { value, end } => Pull {
                out: Pulled::Token(TokenView { value, span: span_of(s, offset, end) }),
                offset: end,
                finished: false,
            },
            Scan::Error { kind, end } => Pull {
                out: Pulled::Error(LexError { kind, span: span_of(s, offset, end) }),
                offset: end,
                finished: true,
            },
        }
    }
}

/// A pull at index `offset`: as `pull_at`, but where trivia is not
/// preserved, behind the trivia that stands at `offset`.
pub open spec fn pull(s: Seq<char>, offset: int, finished: bool, preserve_trivia: bool) -> Pull {
    if finished || preserve_trivia {
        pull_at(s, offset, finished)
    } else {
        pull_at(s, skip_trivia(s, offset), false)
    }
}

/// A run ends within the text and not before its start; it holds
/// characters of its class only, and the character behind it, if there is
/// one, is not of the class: the run is the longest.
pub proof fn lemma_run_end(s: Seq<char>, class: CharClass, i: int)
    requires
        0 <= i <= s.len(),
    ensures
        i <= run_end(s, class, i) <= s.len(),
        forall|j: int| i <= j < run_end(s, class, i) ==> class.holds(#[trigger] s[j]),
        run_end(s, class, i) < s.len() ==> !class.holds(s[run_end(s, class, i)]),
    decreases s.len() - i,
{
    if i < s.len() && class.holds(s[i]) {
        lemma_run_end(s, class, i + 1);
    }
}

/// A run that is entered in its middle ends where the whole run ends.
pub proof fn lemma_run_end_step(s: Seq<char>, class: CharClass, i: int, j: int)
    requires
        0 <= i <= j <= s.len(),
        forall|k: int| i <= k < j ==> class.holds(#[trigger] s[k]),
    ensures
        run_end(s, class, i) == run_end(s, class, j),
    decreases j - i,
{
    if i < j {
        lemma_run_end_step(s, class, i + 1, j);
    }
}

/// Every lexeme ends within the text and takes at least one character.
pub proof fn lemma_lex_at_advances(s: Seq<char>, i: int)
    requires
        0 <= i < s.len(),
    ensures
        i < lex_at(s, i).end() <= s.len(),
{
    lemma_run_end(s, CharClass::Digit, i + 1);
    lemma_run_end(s, CharClass::AlphaNum, i + 1);
    lemma_run_end(s, CharClass::Blank, i + 1);
    lemma_run_end(s, CharClass::Except('"'), i + 1);
    lemma_run_end(s, CharClass::Except('\n'), i + 1);
    let whole = run_end(s, CharClass::Digit, i + 1);
    if whole < s.len() {
        lemma_run_end(s, CharClass::Digit, whole + 1);
    }
}

/// Lines start at 1 and columns at 0, and a place is never farther from
/// the start than the characters before it reach.
pub proof fn lemma_place_bounds(s: Seq<char>, n: int)
    requires
        0 <= n,
    ensures
        1 <= place_at(s, n).line,
        0 <= place_at(s, n).col,
        place_at(s, n).line - 1 + place_at(s, n).col <= n,
    decreases n,
{
    if n > 0 {
        lemma_place_bounds(s, n - 1);
    }
}

/// Places come in the order of their indices, lines compared before
/// columns.
pub proof fn lemma_place_monotonic(s: Seq<char>, i: int, j: int)
    requires
        0 <= i <= j,
    ensures
        place_at(s, i).line < place_at(s, j).line || (place_at(s, i).line == place_at(s, j).line
            && place_at(s, i).col <= place_at(s, j).col),
    decreases j - i,
{
    if i < j {
        lemma_place_monotonic(s, i, j - 1);
        lemma_place_bounds(s, j - 1);
    }
}

/// The span of a stretch of a text that fits the machine is well formed,
/// and its fields are the places of the stretch's two ends.
pub proof fn lemma_span_of(s: Seq<char>, from: int, to: int)
    requires
        0 <= from <= to <= s.len() < usize::MAX,
    ensures
        span_of(s, from, to).wf(),
        span_of(s, from, to).start_line == place_at(s, from).line,
        span_of(s, from, to).start_col == place_at(s, from).col,
        span_of(s, from, to).end_line == place_at(s, to).line,
        span_of(s, from, to).end_col == place_at(s, to).col,
{
    lemma_place_bounds(s, from);
    lemma_place_bounds(s, to);
    lemma_place_monotonic(s, from, to);
}

/// One step of a scan, spelled out.
pub proof fn lemma_scan_unfolds(s: Seq<char>, i: int)
    requires
        0 <= i <= s.len(),
    ensures
        i == s.len() ==> scan_from(s, i) == (Outcome { tokens: seq![eof_token(s)], error: None }),
        i < s.len() ==> (match lex_at(s, i) {
            Scan::Token { value, end } => {
                &&& scan_from(s, i).tokens == seq![TokenView { value, span: span_of(s, i, end) }]
                    + scan_from(s, end).tokens
                &&& scan_from(s, i).error == scan_from(s, end).error
            },
            Scan::Error { kind, end } => scan_from(s, i) == (Outcome {
                tokens: seq![],
                error: Some(LexError { kind, span: span_of(s, i, end) }),
            }),
        }),
{
}

/// One step of a scan that passes over trivia, spelled out: a token that
/// is trivia adds nothing to the tokens that are not, and any other token
/// stands before those that follow it.
pub proof fn lemma_significant_unfolds(s: Seq<char>, i: int)
    requires
        0 <= i <= s.len(),
    ensures
        i == s.len() ==> significant(scan_from(s, i).tokens) == seq![eof_token(s)],
        i < s.len() ==> (match lex_at(s, i) {
            Scan::Token { value, end } => significant(scan_from(s, i).tokens) == if value.is_trivia() {
                significant(scan_from(s, end).tokens)
            } else {
                seq![TokenView { value, span: span_of(s, i, end) }] + significant(
                    scan_from(s, end).tokens,
                )
            },
            Scan::Error { .. } => significant(scan_from(s, i).tokens) == Seq::<TokenView>::empty(),
        }),
{
    let keep = |t: TokenView| !t.value.is_trivia();
    if i == s.len() {
        let one = seq![eof_token(s)];
        assert(one.drop_last() =~= Seq::<TokenView>::empty());
        reveal_with_fuel(Seq::filter, 2);
        assert(one.filter(keep) =~= one);
    } else {
        match lex_at(s, i) {
            Scan::Token { value, end } => {
                let first = seq![TokenView { value, span: span_of(s, i, end) }];
                let rest = scan_from(s, end).tokens;
                assert(first.drop_last() =~= Seq::<TokenView>::empty());
                reveal_with_fuel(Seq::filter, 2);
                Seq::filter_distributes_over_add(first, rest, keep);
                if value.is_trivia() {
                    assert(first.filter(keep) =~= Seq::<TokenView>::empty());
                    assert(first.filter(keep) + rest.filter(keep) =~= rest.filter(keep));
                } else {
                    assert(first.filter(keep) =~= first);
                }
            },
            Scan::Error { .. } => {
                reveal_with_fuel(Seq::filter, 1);
                assert(Seq::<TokenView>::empty().filter(keep) =~= Seq::<TokenView>::empty());
            },
        }
    }
}

} // verus!

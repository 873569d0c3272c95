//! The scanner: a cursor over the characters of a source text that hands
//! out one token per pull.

use vstd::prelude::*;
use vstd::string::*;
use crate::chars::{is_alpha, is_digit, is_whitespace, CharClass};
use crate::error::{LexError, LexErrorKind};
use crate::grammar::{
    has_char, lemma_lex_at_advances, lemma_place_bounds, lemma_run_end, lemma_run_end_step,
    lemma_scan_unfolds, lemma_significant_unfolds, lemma_span_of, lex_at, line_end, place_at,
    pull, pull_at, run_end, scan, scan_from, emitted, Pull, Pulled,
};
use crate::keywords::lookup_keyword;
use crate::laws::{contiguous, ends_with_eof, lemma_scan_ends_with_eof, lemma_spans_contiguous};
use crate::span::Span;
use crate::token::{Token, TokenValue, TokenView, ValueView};

verus! {

/// What a pull handed out, as `Pull` names it.
pub open spec fn pulled(item: Option<Result<Token, LexError>>) -> Pulled {
    match item {
        None => Pulled::Nothing,
        Some(Ok(token)) => Pulled::Token(token@),
        Some(Err(error)) => Pulled::Error(error),
    }
}

/// The cursor of a scan: the characters of the source, the index of the
/// next one to read, the span tracker, and whether the scan has ended.
///
/// The tracker's end is always the place of the cursor. Its start is the
/// place where the lexeme that is being read began.
pub struct LexContext {
    source: Vec<char>,
    pos: usize,
    span: Span,
    finished: bool,
}

impl LexContext {
    /// The characters of the source.
    pub closed spec fn source(&self) -> Seq<char> {
        self.source@
    }

    /// The index of the next character to read.
    pub closed spec fn offset(&self) -> int {
        self.pos as int
    }

    /// The span tracker.
    pub closed spec fn tracker(&self) -> Span {
        self.span
    }

    /// Whether the end-of-input token or an error was handed out.
    pub closed spec fn finished(&self) -> bool {
        self.finished
    }

    /// The cursor lies within the text, the text fits the machine, and the
    /// tracker's end is the place of the cursor.
    pub open spec fn wf(&self) -> bool {
        &&& self.source().len() < usize::MAX
        &&& 0 <= self.offset() <= self.source().len()
        &&& self.tracker().wf()
        &&& self.tracker().end_line == place_at(self.source(), self.offset()).line
        &&& self.tracker().end_col == place_at(self.source(), self.offset()).col
    }

    /// No lexeme is being read: the tracker's window is empty.
    pub open spec fn settled(&self) -> bool {
        self.tracker().is_empty()
    }

    /// The next character, if one is left.
    pub open spec fn peek(&self) -> Option<char> {
        if self.offset() < self.source().len() {
            Some(self.source()[self.offset()])
        } else {
            None
        }
    }

    /// `self` is `before` but for the cursor, which has moved on to
    /// `offset`, and the tracker's end.
    pub open spec fn moved_on(&self, before: &LexContext, offset: int) -> bool {
        &&& self.wf()
        &&& self.source() == before.source()
        &&& self.finished() == before.finished()
        &&& self.offset() == offset
        &&& self.tracker().start_line == before.tracker().start_line
        &&& self.tracker().start_col == before.tracker().start_col
    }

    /// A cursor at the start of `source`.
    pub fn new(source: &str) -> (ctx: LexContext)
        requires
            source@.len() < usize::MAX,
        ensures
            ctx.wf(),
            ctx.settled(),
            ctx.source() == source@,
            ctx.offset() == 0,
            !ctx.finished(),
    {
        let mut chars: Vec<char> = Vec::new();
        for c in it: source.chars()
            invariant
                it.seq() == source@,
                chars@ == it.seq().take(it.index() as int),
        {
            chars.push(c);
        }
        LexContext { source: chars, pos: 0, span: Span::new(), finished: false }
    }

    /// The next character, which stays unread.
    pub fn peek_char(&self) -> (c: Option<char>)
        requires
            self.wf(),
        ensures
            c == self.peek(),
    {
        if self.pos < self.source.len() {
            Some(self.source[self.pos])
        } else {
            None
        }
    }

    /// Reads the next character, and moves the tracker's end behind it.
    pub fn read_char(&mut self) -> (c: Option<char>)
        requires
            old(self).wf(),
        ensures
            c == old(self).peek(),
            final(self).moved_on(
                old(self),
                if c is Some {
                    old(self).offset() + 1
                } else {
                    old(self).offset()
                },
            ),
    {
        if self.pos < self.source.len() {
            let c = self.source[self.pos];
            proof {
                lemma_place_bounds(self.source@, self.pos as int);
            }
            self.pos += 1;
            self.span.new_column();
            if c == '\n' {
                self.span.new_line();
            }
            Some(c)
        } else {
            None
        }
    }

    /// Reads the longest run of characters of `class` that starts at the
    /// cursor, and appends it to `buffer`.
    fn read_run(&mut self, class: CharClass, buffer: &mut String)
        requires
            old(self).wf(),
        ensures
            final(self).moved_on(old(self), run_end(old(self).source(), class, old(self).offset())),
            final(buffer)@ == old(buffer)@ + old(self).source().subrange(
                old(self).offset(),
                final(self).offset(),
            ),
    {
        let ghost before = *self;
        let ghost text = buffer@;
        loop
            invariant
                self.moved_on(&before, self.offset()),
                before.offset() <= self.offset(),
                forall|k: int| before.offset() <= k < self.offset() ==> class.holds(#[trigger] before.source()[k]),
                buffer@ == text + before.source().subrange(before.offset(), self.offset()),
            ensures
                self.moved_on(&before, run_end(before.source(), class, before.offset())),
                buffer@ == text + before.source().subrange(before.offset(), self.offset()),
            decreases self.source().len() - self.offset(),
        {
            match self.peek_char() {
                Some(c) if class.contains(c) => {
                    buffer.push(c);
                    self.read_char();
                    assert(buffer@ =~= text + before.source().subrange(
                        before.offset(),
                        self.offset(),
                    ));
                },
                _ => {
                    proof {
                        lemma_run_end_step(
                            before.source(),
                            class,
                            before.offset(),
                            self.offset(),
                        );
                    }
                    break ;
                },
            }
        }
    }

    /// Reads to the end of the line, the newline included, and gives what
    /// was read.
    pub fn read_line(&mut self) -> (line: String)
        requires
            old(self).wf(),
        ensures
            final(self).moved_on(old(self), line_end(old(self).source(), old(self).offset())),
            line@ == old(self).source().subrange(old(self).offset(), final(self).offset()),
    {
        let ghost before = *self;
        let mut buffer = String::new();
        self.read_run(CharClass::Except('\n'), &mut buffer);
        proof {
            lemma_run_end(before.source(), CharClass::Except('\n'), before.offset());
        }
        if let Some(c) = self.read_char() {
            buffer.push(c);
        }
        assert(buffer@ =~= before.source().subrange(before.offset(), self.offset()));
        buffer
    }

    /// Reads the rest of an identifier whose first character,
    /// `first_alpha`, was read, and gives the identifier's text.
    pub fn read_identifier(&mut self, first_alpha: char) -> (word: String)
        requires
            old(self).wf(),
        ensures
            final(self).moved_on(
                old(self),
                run_end(old(self).source(), CharClass::AlphaNum, old(self).offset()),
            ),
            word@ == seq![first_alpha] + old(self).source().subrange(
                old(self).offset(),
                final(self).offset(),
            ),
    {
        let mut buffer = String::new();
        buffer.push(first_alpha);
        self.read_run(CharClass::AlphaNum, &mut buffer);
        assert(buffer@ =~= seq![first_alpha] + old(self).source().subrange(
            old(self).offset(),
            self.offset(),
        ));
        buffer
    }

    /// Reads a string whose opening quote was read: up to the closing
    /// quote, which is consumed. Gives the text before that quote, or
    /// `None` where the input ends before one comes; the cursor then stands
    /// at the end of the text.
    pub fn read_string(&mut self) -> (text: Option<String>)
        requires
            old(self).wf(),
        ensures
            ({
                let close = run_end(old(self).source(), CharClass::Except('"'), old(self).offset());
                if close < old(self).source().len() {
                    &&& final(self).moved_on(old(self), close + 1)
                    &&& text is Some
                    &&& text->0@ == old(self).source().subrange(old(self).offset(), close)
                } else {
                    &&& final(self).moved_on(old(self), close)
                    &&& text is None
                }
            }),
    {
        let ghost before = *self;
        let mut buffer = String::new();
        self.read_run(CharClass::Except('"'), &mut buffer);
        proof {
            lemma_run_end(before.source(), CharClass::Except('"'), before.offset());
        }
        match self.read_char() {
            Some(_) => {
                assert(buffer@ =~= before.source().subrange(before.offset(), self.offset() - 1));
                Some(buffer)
            },
            None => None,
        }
    }

    /// Reads the rest of a number whose first digit, `first_digit`, was
    /// read: more digits, and then a dot and digits where a dot follows.
    /// Gives the number as written, or `None` where no digit follows the
    /// dot; the dot is consumed then.
    pub fn read_number(&mut self, first_digit: char) -> (digits: Option<String>)
        requires
            old(self).wf(),
        ensures
            ({
                let s = old(self).source();
                let whole = run_end(s, CharClass::Digit, old(self).offset());
                if has_char(s, whole, '.') {
                    let fraction = run_end(s, CharClass::Digit, whole + 1);
                    if fraction == whole + 1 {
                        &&& final(self).moved_on(old(self), whole + 1)
                        &&& digits is None
                    } else {
                        &&& final(self).moved_on(old(self), fraction)
                        &&& digits is Some
                        &&& digits->0@ == seq![first_digit] + s.subrange(
                            old(self).offset(),
                            fraction,
                        )
                    }
                } else {
                    &&& final(self).moved_on(old(self), whole)
                    &&& digits is Some
                    &&& digits->0@ == seq![first_digit] + s.subrange(old(self).offset(), whole)
                }
            }),
    {
        let ghost before = *self;
        let ghost s = self.source();
        let mut buffer = String::new();
        buffer.push(first_digit);
        self.read_run(CharClass::Digit, &mut buffer);
        let ghost whole = self.offset();
        proof {
            lemma_run_end(s, CharClass::Digit, before.offset());
        }
        if let Some(maybe_dot) = self.peek_char() {
            if maybe_dot == '.' {
                buffer.push(maybe_dot);
                self.read_char();
                let dot_end = self.pos;
                self.read_run(CharClass::Digit, &mut buffer);
                proof {
                    lemma_run_end(s, CharClass::Digit, whole + 1);
                }
                if self.pos == dot_end {
                    return None;
                }
                assert(buffer@ =~= seq![first_digit] + s.subrange(before.offset(), self.offset()));
                return Some(buffer);
            }
        }
        assert(buffer@ =~= seq![first_digit] + s.subrange(before.offset(), whole));
        Some(buffer)
    }

    /// Reads the rest of a run of blanks whose first character, `first_ws`,
    /// was read, and gives the run.
    pub fn read_ws(&mut self, first_ws: char) -> (blanks: String)
        requires
            old(self).wf(),
        ensures
            final(self).moved_on(
                old(self),
                run_end(old(self).source(), CharClass::Blank, old(self).offset()),
            ),
            blanks@ == seq![first_ws] + old(self).source().subrange(
                old(self).offset(),
                final(self).offset(),
            ),
    {
        let mut buffer = String::new();
        buffer.push(first_ws);
        self.read_run(CharClass::Blank, &mut buffer);
        assert(buffer@ =~= seq![first_ws] + old(self).source().subrange(
            old(self).offset(),
            self.offset(),
        ));
        buffer
    }

    /// A token of the given value over the tracker's window; the next
    /// window starts where this one ends.
    pub fn token(&mut self, token_value: TokenValue) -> (token: Token)
        requires
            old(self).wf(),
        ensures
            token@ == (TokenView { value: token_value@, span: old(self).tracker() }),
            final(self).wf(),
            final(self).settled(),
            final(self).source() == old(self).source(),
            final(self).offset() == old(self).offset(),
            final(self).finished() == old(self).finished(),
    {
        Token::new(token_value, self.span.extract())
    }

    /// The error of the given kind over the tracker's window. The scan has
    /// ended with it.
    fn fail(&mut self, kind: LexErrorKind) -> (error: LexError)
        requires
            old(self).wf(),
        ensures
            error == (LexError { kind, span: old(self).tracker() }),
            final(self).wf(),
            final(self).settled(),
            final(self).source() == old(self).source(),
            final(self).offset() == old(self).offset(),
            final(self).finished(),
    {
        self.finished = true;
        LexError { kind, span: self.span.extract() }
    }

    /// The end-of-input token, with an empty span at the cursor. The scan
    /// has ended with it.
    pub fn eof(&mut self) -> (token: Token)
        requires
            old(self).wf(),
        ensures
            token@ == (TokenView { value: ValueView::Eof, span: old(self).tracker() }),
            final(self).wf(),
            final(self).settled(),
            final(self).source() == old(self).source(),
            final(self).offset() == old(self).offset(),
            final(self).finished(),
    {
        self.finished = true;
        Token::new(TokenValue::Eof, self.span.extract())
    }

    /// Reads an `=` where one stands at the cursor, and says whether it
    /// did.
    fn read_equal(&mut self) -> (found: bool)
        requires
            old(self).wf(),
        ensures
            found == has_char(old(self).source(), old(self).offset(), '='),
            final(self).moved_on(
                old(self),
                if found {
                    old(self).offset() + 1
                } else {
                    old(self).offset()
                },
            ),
    {
        match self.peek_char() {
            Some('=') => {
                self.read_char();
                true
            },
            _ => false,
        }
    }

    /// Reads the next lexeme and hands out its token. At the end of the
    /// text it hands out the end-of-input token, once; after that, and
    /// after an error, it hands out nothing.
    pub fn read_token(&mut self) -> (item: Option<Result<Token, LexError>>)
        requires
            old(self).wf(),
            old(self).settled(),
        ensures
            final(self).wf(),
            final(self).settled(),
            final(self).source() == old(self).source(),
            (Pull { out: pulled(item), offset: final(self).offset(), finished: final(self).finished() })
                == pull_at(old(self).source(), old(self).offset(), old(self).finished()),
    {
        if self.finished {
            return None;
        }
        let ghost s = self.source();
        let ghost i = self.offset();
        proof {
            lemma_span_of(s, i, i);
            if i < s.len() {
                lemma_lex_at_advances(s, i);
                lemma_span_of(s, i, lex_at(s, i).end());
            }
        }
        if let Some(c) = self.read_char() {
            let value = match c {
                '(' => TokenValue::LeftParen,
                ')' => TokenValue::RightParen,
                '{' => TokenValue::LeftBrace,
                '}' => TokenValue::RightBrace,
                ',' => TokenValue::Comma,
                '.' => TokenValue::Dot,
                '-' => TokenValue::Minus,
                '+' => TokenValue::Plus,
                ';' => TokenValue::Semicolon,
                '*' => TokenValue::Star,
                '!' => {
                    if self.read_equal() {
                        TokenValue::BangEqual
                    } else {
                        TokenValue::Bang
                    }
                },
                '=' => {
                    if self.read_equal() {
                        TokenValue::EqualEqual
                    } else {
                        TokenValue::Equal
                    }
                },
                '<' => {
                    if self.read_equal() {
                        TokenValue::LessEqual
                    } else {
                        TokenValue::Less
                    }
                },
                '>' => {
                    if self.read_equal() {
                        TokenValue::GreaterEqual
                    } else {
                        TokenValue::Greater
                    }
                },
                '/' => {
                    if let Some('/') = self.peek_char() {
                        TokenValue::Comment(self.read_line())
                    } else {
                        TokenValue::Slash
                    }
                },
                '"' => {
                    match self.read_string() {
                        Some(text) => TokenValue::String(text),
                        None => {
                            return Some(Err(self.fail(LexErrorKind::UnterminatedString)));
                        },
                    }
                },
                '\n' => TokenValue::NewLine,
                ws if is_whitespace(ws) => TokenValue::Whitespace(self.read_ws(ws)),
                digit if is_digit(digit) => {
                    match self.read_number(digit) {
                        Some(digits) => {
                            assert(digits@ =~= s.subrange(i, self.offset()));
                            TokenValue::Number(digits)
                        },
                        None => {
                            return Some(Err(self.fail(LexErrorKind::MalformedNumber)));
                        },
                    }
                },
                alpha if is_alpha(alpha) => {
                    let ident = self.read_identifier(alpha);
                    assert(ident@ =~= s.subrange(i, self.offset()));
                    match lookup_keyword(ident.as_str()) {
                        Some(keyword) => keyword,
                        None => TokenValue::Ident(ident),
                    }
                },
                unexpected => {
                    return Some(Err(self.fail(LexErrorKind::UnrecognizedChar(unexpected))));
                },
            };
            assert(value@ == lex_at(s, i)->value) by {
                if c == ' ' || c == '\t' || c == '\r' {
                    assert(value@->Whitespace_0 =~= s.subrange(i, self.offset()));
                }
            }
            Some(Ok(self.token(value)))
        } else {
            Some(Ok(self.eof()))
        }
    }
}

/// The tokens of a source, one per pull. A scan runs once, from the start
/// of the text to its end-of-input token or to its first error.
pub struct LexerIter {
    ctx: LexContext,
    preserve_trivia: bool,
}

impl LexerIter {
    /// The scan stands between two lexemes, at a place within the text.
    /// Every constructor gives such a scan and every method keeps it so.
    pub closed spec fn wf(&self) -> bool {
        self.ctx.wf() && self.ctx.settled()
    }

    /// The characters of the source.
    pub closed spec fn source(&self) -> Seq<char> {
        self.ctx.source()
    }

    /// The index up to which the source is consumed.
    pub closed spec fn offset(&self) -> int {
        self.ctx.offset()
    }

    /// Whether the end-of-input token or an error was handed out.
    pub closed spec fn finished(&self) -> bool {
        self.ctx.finished()
    }

    /// Whether whitespace, line breaks and comments are handed out.
    pub closed spec fn preserves_trivia(&self) -> bool {
        self.preserve_trivia
    }

    /// What is still to come: how far the scan is from its end.
    pub open spec fn remaining(&self) -> int {
        if self.finished() {
            0
        } else {
            self.source().len() - self.offset() + 1
        }
    }

    /// The next token, or the error that ends the scan. The end-of-input
    /// token is the last token; `None` comes after it, and after an error,
    /// every time. Where trivia is not preserved, whitespace, line breaks
    /// and comments are passed over.
    pub fn next(&mut self) -> (item: Option<Result<Token, LexError>>)
        requires
            old(self).wf(),
        ensures
            final(self).wf(),
            final(self).source() == old(self).source(),
            final(self).preserves_trivia() == old(self).preserves_trivia(),
            (Pull { out: pulled(item), offset: final(self).offset(), finished: final(self).finished() })
                == pull(
                old(self).source(),
                old(self).offset(),
                old(self).finished(),
                old(self).preserves_trivia(),
            ),
            0 <= final(self).offset() <= final(self).source().len(),
            item is Some ==> final(self).remaining() < old(self).remaining(),
    {
        let ghost s = self.source();
        let ghost start = self.offset();
        let ghost was_finished = self.finished();
        loop
            invariant
                self.ctx.wf(),
                self.ctx.settled(),
                self.source() == s,
                s == old(self).source(),
                start == old(self).offset(),
                was_finished == old(self).finished(),
                self.preserves_trivia() == old(self).preserves_trivia(),
                start <= self.offset(),
                self.finished() == was_finished,
                pull(s, self.offset(), was_finished, self.preserve_trivia) == pull(
                    s,
                    start,
                    was_finished,
                    self.preserve_trivia,
                ),
            decreases self.source().len() - self.offset(),
        {
            let ghost at = self.offset();
            proof {
                if at < s.len() {
                    lemma_lex_at_advances(s, at);
                }
            }
            let item = self.ctx.read_token();
            match &item {
                Some(Ok(token)) => {
                    if self.preserve_trivia || !token.tkn_value.is_trivia() {
                        return item;
                    }
                },
                _ => {
                    return item;
                },
            }
        }
    }
}

/// The lexer of a source text.
pub struct Lexer {
    source: String,
    preserve_trivia: bool,
}

impl Lexer {
    #[verifier::type_invariant]
    spec fn fits(self) -> bool {
        self.source@.len() < usize::MAX
    }

    /// The characters of the source.
    pub closed spec fn source(&self) -> Seq<char> {
        self.source@
    }

    /// Whether whitespace, line breaks and comments are handed out.
    pub closed spec fn preserves_trivia(&self) -> bool {
        self.preserve_trivia
    }

    /// A lexer of `source` that hands out every lexeme, trivia included.
    pub fn new(source: String) -> (lexer: Lexer)
        requires
            source@.len() < usize::MAX,
        ensures
            lexer.source() == source@,
            lexer.preserves_trivia(),
    {
        Lexer { source, preserve_trivia: true }
    }

    /// A lexer of `source` as `new` gives it, or `None` where the text
    /// is too long for its places to be counted.
    pub fn try_new(source: String) -> (lexer: Option<Lexer>)
        ensures
            lexer is Some <==> source@.len() < usize::MAX,
            lexer matches Some(lexer) ==> lexer.source() == source@ && lexer.preserves_trivia(),
    {
        if source.as_str().unicode_len() < usize::MAX {
            Some(Lexer::new(source))
        } else {
            None
        }
    }

    /// The same lexer, which hands out whitespace, line breaks and
    /// comments where `preserve` holds and passes over them where not.
    pub fn preserve_trivia(self, preserve: bool) -> (lexer: Lexer)
        ensures
            lexer.source() == self.source(),
            lexer.preserves_trivia() == preserve,
    {
        proof {
            use_type_invariant(&self);
        }
        Lexer { source: self.source, preserve_trivia: preserve }
    }

    /// A scan of `source` from its start, with trivia preserved.
    pub fn with_source(source: &str) -> (tokens: LexerIter)
        requires
            source@.len() < usize::MAX,
        ensures
            tokens.wf(),
            tokens.source() == source@,
            tokens.offset() == 0,
            !tokens.finished(),
            tokens.preserves_trivia(),
    {
        LexerIter { ctx: LexContext::new(source), preserve_trivia: true }
    }

    /// A scan of the source from its start.
    pub fn iter(&self) -> (tokens: LexerIter)
        ensures
            tokens.wf(),
            tokens.source() == self.source(),
            tokens.offset() == 0,
            !tokens.finished(),
            tokens.preserves_trivia() == self.preserves_trivia(),
    {
        proof {
            use_type_invariant(self);
        }
        LexerIter { ctx: LexContext::new(self.source.as_str()), preserve_trivia: self.preserve_trivia }
    }

    /// Scans the whole source. Gives the tokens in their order, the
    /// end-of-input token last, or the first error, without the tokens
    /// before it. Where trivia is preserved, each token ends where the
    /// next one starts.
    pub fn tokenize(&self) -> (tokens: Result<Vec<Token>, LexError>)
        ensures
            match tokens {
                Ok(tokens) => {
                    &&& scan(self.source()).error is None
                    &&& views(tokens@) == emitted(
                        scan(self.source()).tokens,
                        self.preserves_trivia(),
                    )
                    &&& ends_with_eof(views(tokens@))
                    &&& self.preserves_trivia() ==> contiguous(views(tokens@))
                },
                Err(error) => scan(self.source()).error == Some(error),
            },
    {
        let mut it = self.iter();
        let mut tokens: Vec<Token> = Vec::new();
        let ghost s = self.source();
        let ghost keep = self.preserves_trivia();
        let ghost whole = scan(s);
        loop
            invariant
                it.wf(),
                it.source() == s,
                it.preserves_trivia() == keep,
                s == self.source(),
                keep == self.preserves_trivia(),
                0 <= it.offset() <= s.len(),
                whole == scan(s),
                if it.finished() {
                    whole.error is None && views(tokens@) == emitted(whole.tokens, keep)
                } else {
                    &&& scan_from(s, it.offset()).error == whole.error
                    &&& views(tokens@) + emitted(scan_from(s, it.offset()).tokens, keep) == emitted(
                        whole.tokens,
                        keep,
                    )
                },
            decreases it.remaining(),
        {
            let ghost at = it.offset();
            let ghost before = tokens@;
            proof {
                if !it.finished() {
                    lemma_pull_unfolds(s, at, keep);
                }
            }
            match it.next() {
                Some(Ok(token)) => {
                    tokens.push(token);
                    proof {
                        assert(views(tokens@) =~= views(before) + seq![token@]);
                        if it.finished() {
                            assert(views(tokens@) =~= emitted(whole.tokens, keep));
                        } else {
                            assert(views(tokens@) + emitted(scan_from(s, it.offset()).tokens, keep)
                                =~= emitted(whole.tokens, keep));
                        }
                    }
                },
                Some(Err(error)) => {
                    return Err(error);
                },
                None => {
                    proof {
                        lemma_scan_ends_with_eof(s, keep);
                        lemma_spans_contiguous(s);
                    }
                    return Ok(tokens);
                },
            }
        }
    }
}

/// The tokens as contracts see them.
pub open spec fn views(tokens: Seq<Token>) -> Seq<TokenView> {
    Seq::new(tokens.len(), |i: int| tokens[i]@)
}

/// What the rest of a scan yields, by what the next pull hands out: a
/// token, and then what the scan yields behind it; the end-of-input token,
/// and nothing more; or the error that the rest of the scan ends with.
proof fn lemma_pull_unfolds(s: Seq<char>, at: int, keep: bool)
    requires
        0 <= at <= s.len(),
    ensures
        ({
            let next = pull(s, at, false, keep);
            let rest = scan_from(s, at);
            match next.out {
                Pulled::Token(token) => if next.finished {
                    rest.error is None && emitted(rest.tokens, keep) == seq![token]
                } else {
                    &&& 0 <= next.offset <= s.len()
                    &&& rest.error == scan_from(s, next.offset).error
                    &&& emitted(rest.tokens, keep) == seq![token] + emitted(
                        scan_from(s, next.offset).tokens,
                        keep,
                    )
                },
                Pulled::Error(error) => rest.error == Some(error),
                Pulled::Nothing => false,
            }
        }),
    decreases s.len() - at,
{
    lemma_scan_unfolds(s, at);
    if at < s.len() {
        lemma_lex_at_advances(s, at);
        let step = lex_at(s, at);
        if !keep {
            lemma_significant_unfolds(s, at);
            if step is Token && step->value.is_trivia() {
                lemma_pull_unfolds(s, step.end(), keep);
            }
        }
    } else if !keep {
        lemma_significant_unfolds(s, at);
    }
}

} // verus!

//! What holds of every scan.

use vstd::prelude::*;
use crate::chars::{spec_is_alpha, spec_is_alphanum, spec_is_digit, spec_is_whitespace, CharClass};
use crate::grammar::{
    emitted, eof_token, has_char, lemma_lex_at_advances, lemma_run_end, lemma_scan_unfolds,
    lemma_significant_unfolds, lex_at, place_at, pull, run_end, scan, scan_from, significant,
    skip_trivia, Pulled, Scan,
};
use crate::keywords::{keyword_of, lemma_keyword_shape};
use crate::token::{TokenView, ValueView};

verus! {

/// Each token but the last ends where the next one starts.
pub open spec fn contiguous(tokens: Seq<TokenView>) -> bool {
    forall|k: int| 0 <= k < tokens.len() - 1 ==> (#[trigger] tokens[k]).span.meets(tokens[k + 1].span)
}

/// The end-of-input token is the last of the tokens, and the only one of
/// its kind.
pub open spec fn ends_with_eof(tokens: Seq<TokenView>) -> bool {
    &&& tokens.len() >= 1
    &&& tokens.last().value is Eof
    &&& forall|k: int| 0 <= k < tokens.len() - 1 ==> !((#[trigger] tokens[k]).value is Eof)
}

/// A number as it is written: digits, with at most one dot among them,
/// which stands neither first nor last.
pub open spec fn is_number_literal(text: Seq<char>) -> bool {
    &&& text.len() >= 1
    &&& spec_is_digit(text.first())
    &&& spec_is_digit(text.last())
    &&& forall|j: int| 0 <= j < text.len() ==> spec_is_digit(#[trigger] text[j]) || text[j] == '.'
    &&& forall|j: int, k: int|
        0 <= j < k < text.len() ==> !(#[trigger] text[j] == '.' && #[trigger] text[k] == '.')
}

/// A word as it is written: a letter or underscore, and letters, digits
/// and underscores behind it.
pub open spec fn is_word(text: Seq<char>) -> bool {
    &&& text.len() >= 1
    &&& spec_is_alpha(text.first())
    &&& forall|j: int| 0 <= j < text.len() ==> spec_is_alphanum(#[trigger] text[j])
}

proof fn lemma_contiguous_from(s: Seq<char>, i: int)
    requires
        0 <= i <= s.len(),
    ensures
        contiguous(scan_from(s, i).tokens),
        scan_from(s, i).tokens.len() > 0 ==> {
            &&& scan_from(s, i).tokens[0].span.start_line == place_at(s, i).line as usize
            &&& scan_from(s, i).tokens[0].span.start_col == place_at(s, i).col as usize
        },
    decreases s.len() - i,
{
    lemma_scan_unfolds(s, i);
    if i < s.len() {
        lemma_lex_at_advances(s, i);
        match lex_at(s, i) {
            Scan::Token { value, end } => {
                lemma_contiguous_from(s, end);
                let tokens = scan_from(s, i).tokens;
                let rest = scan_from(s, end).tokens;
                assert forall|k: int| 0 <= k < tokens.len() - 1 implies (#[trigger] tokens[k]).span.meets(
                    tokens[k + 1].span,
                ) by {
                    assert(tokens[k + 1] == rest[k]);
                    if k > 0 {
                        assert(tokens[k] == rest[k - 1]);
                    }
                }
            },
            Scan::Error { .. } => {},
        }
    }
}

/// Span contiguity: in the tokens of a scan that preserves trivia, each
/// token ends at the place where the next one starts, and the first one
/// starts at the beginning of the text. This holds up to an error too.
pub proof fn lemma_spans_contiguous(s: Seq<char>)
    ensures
        contiguous(scan(s).tokens),
        scan(s).tokens.len() > 0 ==> {
            &&& scan(s).tokens[0].span.start_line == 1
            &&& scan(s).tokens[0].span.start_col == 0
        },
{
    lemma_contiguous_from(s, 0);
}

/// No lexeme is the end-of-input token.
pub proof fn lemma_lexeme_is_not_eof(s: Seq<char>, i: int)
    requires
        0 <= i < s.len(),
    ensures
        lex_at(s, i) matches Scan::Token { value, .. } ==> !(value is Eof),
{
}

proof fn lemma_ends_from(s: Seq<char>, i: int)
    requires
        0 <= i <= s.len(),
    ensures
        scan_from(s, i).error is None ==> {
            &&& ends_with_eof(scan_from(s, i).tokens)
            &&& scan_from(s, i).tokens.last() == eof_token(s)
            &&& ends_with_eof(significant(scan_from(s, i).tokens))
            &&& significant(scan_from(s, i).tokens).last() == eof_token(s)
        },
        scan_from(s, i).error is Some ==> forall|k: int|
            0 <= k < scan_from(s, i).tokens.len() ==> !((#[trigger] scan_from(s, i).tokens[k]).value
                is Eof),
    decreases s.len() - i,
{
    lemma_scan_unfolds(s, i);
    lemma_significant_unfolds(s, i);
    if i < s.len() {
        lemma_lex_at_advances(s, i);
        lemma_lexeme_is_not_eof(s, i);
        match lex_at(s, i) {
            Scan::Token { value, end } => {
                lemma_ends_from(s, end);
                let tokens = scan_from(s, i).tokens;
                let rest = scan_from(s, end).tokens;
                assert forall|k: int| 0 < k < tokens.len() implies tokens[k] == rest[k - 1] by {}
                if scan_from(s, i).error is None {
                    assert(tokens.last() == rest.last());
                    let kept = significant(tokens);
                    let kept_rest = significant(rest);
                    if !value.is_trivia() {
                        assert forall|k: int| 0 < k < kept.len() implies kept[k] == kept_rest[k - 1] by {}
                        assert(kept.last() == kept_rest.last());
                    }
                }
            },
            Scan::Error { .. } => {},
        }
    }
}

/// Termination: a scan that meets no error yields a finite sequence of
/// tokens whose last one is the end-of-input token, at the end of the
/// text, and no other token is one; so it is of the tokens that are left
/// where trivia is passed over. A scan that meets an error yields no
/// end-of-input token.
pub proof fn lemma_scan_ends_with_eof(s: Seq<char>, preserve_trivia: bool)
    ensures
        scan(s).error is None ==> ends_with_eof(emitted(scan(s).tokens, preserve_trivia)),
        scan(s).error is None ==> emitted(scan(s).tokens, preserve_trivia).last() == eof_token(s),
        scan(s).error is Some ==> forall|k: int|
            0 <= k < scan(s).tokens.len() ==> !((#[trigger] scan(s).tokens[k]).value is Eof),
{
    lemma_ends_from(s, 0);
}

/// Exhaustion: the pull that hands out the end-of-input token, or an
/// error, ends the scan, and every pull after it hands out nothing and
/// leaves the scan as it is. No other pull ends the scan.
pub proof fn lemma_pull_after_end(s: Seq<char>, offset: int, preserve_trivia: bool)
    requires
        0 <= offset <= s.len(),
    ensures
        ({
            let first = pull(s, offset, false, preserve_trivia);
            let second = pull(s, first.offset, first.finished, preserve_trivia);
            &&& first.finished <==> (first.out is Error || (first.out matches Pulled::Token(t)
                && t.value is Eof))
            &&& first.finished ==> second.out is Nothing && second.offset == first.offset
                && second.finished
            &&& !(first.out is Nothing)
        }),
{
    let at = if preserve_trivia {
        offset
    } else {
        skip_trivia(s, offset)
    };
    lemma_skip_trivia_stays(s, offset);
    if at < s.len() {
        lemma_lexeme_is_not_eof(s, at);
    }
}

/// Passing over trivia ends within the text, not before its start, at a
/// lexeme that is no trivia, or at an error, or at the end.
pub proof fn lemma_skip_trivia_stays(s: Seq<char>, i: int)
    requires
        0 <= i <= s.len(),
    ensures
        i <= skip_trivia(s, i) <= s.len(),
        skip_trivia(s, i) < s.len() ==> !(lex_at(s, skip_trivia(s, i))
            matches Scan::Token { value, .. } && value.is_trivia()),
    decreases s.len() - i,
{
    if i < s.len() {
        lemma_lex_at_advances(s, i);
        match lex_at(s, i) {
            Scan::Token { value, end } => {
                if value.is_trivia() {
                    lemma_skip_trivia_stays(s, end);
                }
            },
            Scan::Error { .. } => {},
        }
    }
}

/// Maximal munch: a lexeme is the longest of its kind. An operator of one
/// character has no `=` behind it. A word, a number and a run of blanks
/// end where the text ends or a character follows that could not go on
/// with them; a number that ends before a dot holds a dot already.
pub proof fn lemma_maximal_munch(s: Seq<char>, i: int)
    requires
        0 <= i < s.len(),
        lex_at(s, i) is Token,
    ensures
        ({
            let value = lex_at(s, i)->value;
            let end = lex_at(s, i)->Token_end;
            &&& i < end <= s.len()
            &&& (value is Bang || value is Equal || value is Less || value is Greater) ==> !has_char(
                s,
                end,
                '=',
            )
            &&& value is Slash ==> !has_char(s, end, '/')
            &&& (value is Ident || keyword_of(s.subrange(i, end)) == Some(value)) ==> {
                &&& is_word(s.subrange(i, end))
                &&& end < s.len() ==> !spec_is_alphanum(s[end])
            }
            &&& value is Ident ==> value == ValueView::Ident(s.subrange(i, end)) && keyword_of(
                s.subrange(i, end),
            ) is None
            &&& value is Number ==> {
                &&& value == ValueView::Number(s.subrange(i, end))
                &&& is_number_literal(s.subrange(i, end))
                &&& end < s.len() ==> !spec_is_digit(s[end])
                &&& has_char(s, end, '.') ==> s.subrange(i, end).contains('.')
            }
            &&& value is Whitespace ==> {
                &&& value == ValueView::Whitespace(s.subrange(i, end))
                &&& forall|j: int| i <= j < end ==> spec_is_whitespace(#[trigger] s[j])
                &&& end < s.len() ==> !spec_is_whitespace(s[end])
            }
        }),
{
    lemma_lex_at_advances(s, i);
    let c = s[i];
    let end = lex_at(s, i)->Token_end;
    let text = s.subrange(i, end);
    if spec_is_whitespace(c) {
        lemma_run_end(s, CharClass::Blank, i + 1);
    } else if spec_is_digit(c) {
        lemma_run_end(s, CharClass::Digit, i + 1);
        let whole = run_end(s, CharClass::Digit, i + 1);
        if has_char(s, whole, '.') {
            lemma_run_end(s, CharClass::Digit, whole + 1);
            assert(text[whole - i] == '.');
            assert forall|j: int, k: int| 0 <= j < k < text.len() implies !(#[trigger] text[j] == '.'
                && #[trigger] text[k] == '.') by {
                if text[j] == '.' && text[k] == '.' {
                    assert(!spec_is_digit(s[i + j]));
                    assert(!spec_is_digit(s[i + k]));
                }
            }
        }
        assert(is_number_literal(text));
    } else if spec_is_alpha(c) {
        lemma_run_end(s, CharClass::AlphaNum, i + 1);
        assert(is_word(text));
    } else {
        if keyword_of(text) is Some {
            lemma_keyword_shape(text);
            assert(text[0] == c);
        }
    }
}

/// The text that a token of the given value was read from: what it
/// displays as, but for a line break, which is a newline, the end of the
/// input, which is nothing, whitespace, which is its text, a string, which
/// stands in quotes, and a comment, which stands behind a slash.
pub open spec fn lexeme(value: ValueView) -> Seq<char> {
    match value {
        ValueView::NewLine => seq!['\n'],
        ValueView::Eof => Seq::empty(),
        ValueView::Whitespace(text) => text,
        ValueView::String(text) => seq!['"'] + text + seq!['"'],
        ValueView::Comment(text) => seq!['/'] + text,
        _ => value.display(),
    }
}

/// The texts that the tokens were read from, joined in their order.
pub open spec fn lexemes(tokens: Seq<TokenView>) -> Seq<char>
    decreases tokens.len(),
{
    if tokens.len() == 0 {
        Seq::empty()
    } else {
        lexeme(tokens.first().value) + lexemes(tokens.drop_first())
    }
}

/// A token's lexeme is the stretch of the text that it was read from.
pub proof fn lemma_lexeme_is_the_text(s: Seq<char>, i: int)
    requires
        0 <= i < s.len(),
        lex_at(s, i) is Token,
    ensures
        lexeme(lex_at(s, i)->value) == s.subrange(i, lex_at(s, i)->Token_end),
{
    lemma_maximal_munch(s, i);
    lemma_run_end(s, CharClass::Except('"'), i + 1);
    lemma_run_end(s, CharClass::Except('\n'), i + 1);
    reveal_strlit("(");
    reveal_strlit(")");
    reveal_strlit("{");
    reveal_strlit("}");
    reveal_strlit(",");
    reveal_strlit(".");
    reveal_strlit("-");
    reveal_strlit("+");
    reveal_strlit(";");
    reveal_strlit("/");
    reveal_strlit("*");
    reveal_strlit("!");
    reveal_strlit("!=");
    reveal_strlit("=");
    reveal_strlit("==");
    reveal_strlit(">");
    reveal_strlit(">=");
    reveal_strlit("<");
    reveal_strlit("<=");
    let value = lex_at(s, i)->value;
    let end = lex_at(s, i)->Token_end;
    assert(lexeme(value) =~= s.subrange(i, end));
}

proof fn lemma_lossless_from(s: Seq<char>, i: int)
    requires
        0 <= i <= s.len(),
        scan_from(s, i).error is None,
    ensures
        lexemes(scan_from(s, i).tokens) == s.subrange(i, s.len() as int),
    decreases s.len() - i,
{
    lemma_scan_unfolds(s, i);
    let tokens = scan_from(s, i).tokens;
    if i < s.len() {
        lemma_lex_at_advances(s, i);
        match lex_at(s, i) {
            Scan::Token { value, end } => {
                lemma_lossless_from(s, end);
                lemma_lexeme_is_the_text(s, i);
                assert(tokens.drop_first() =~= scan_from(s, end).tokens);
                assert(s.subrange(i, end) + s.subrange(end, s.len() as int) =~= s.subrange(
                    i,
                    s.len() as int,
                ));
            },
            Scan::Error { .. } => {},
        }
    } else {
        assert(tokens.drop_first() =~= Seq::<TokenView>::empty());
        assert(lexemes(tokens.drop_first()) =~= Seq::<char>::empty());
        assert(lexemes(tokens) =~= s.subrange(i, s.len() as int));
    }
}

/// Lossless scanning: a scan that preserves trivia and meets no error
/// loses no character. The lexemes of its tokens, joined in their order,
/// are the source.
pub proof fn lemma_scan_is_lossless(s: Seq<char>)
    requires
        scan(s).error is None,
    ensures
        lexemes(scan(s).tokens) == s,
{
    lemma_lossless_from(s, 0);
    assert(s.subrange(0, s.len() as int) =~= s);
}

} // verus!

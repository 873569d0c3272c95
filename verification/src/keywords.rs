//! The reserved words, and how an identifier's text is told from them.

use vstd::prelude::*;
use vstd::string::*;
use crate::token::{TokenValue, ValueView};

verus! {

/// The keyword that `text` spells, if it spells one. The match is on the
/// whole text and minds the case.
pub open spec fn keyword_of(text: Seq<char>) -> Option<ValueView> {
    if text == "and"@ {
        Some(ValueView::And)
    } else if text == "class"@ {
        Some(ValueView::Class)
    } else if text == "else"@ {
        Some(ValueView::Else)
    } else if text == "false"@ {
        Some(ValueView::False)
    } else if text == "for"@ {
        Some(ValueView::For)
    } else if text == "fun"@ {
        Some(ValueView::Fun)
    } else if text == "if"@ {
        Some(ValueView::If)
    } else if text == "nil"@ {
        Some(ValueView::Nil)
    } else if text == "or"@ {
        Some(ValueView::Or)
    } else if text == "print"@ {
        Some(ValueView::Print)
    } else if text == "return"@ {
        Some(ValueView::Return)
    } else if text == "super"@ {
        Some(ValueView::Super)
    } else if text == "this"@ {
        Some(ValueView::This)
    } else if text == "true"@ {
        Some(ValueView::True)
    } else if text == "var"@ {
        Some(ValueView::Var)
    } else if text == "while"@ {
        Some(ValueView::While)
    } else {
        None
    }
}

/// What a token of the text `text` is: the keyword it spells, else an
/// identifier of that text.
pub open spec fn word_value(text: Seq<char>) -> ValueView {
    match keyword_of(text) {
        Some(keyword) => keyword,
        None => ValueView::Ident(text),
    }
}

/// The keywords in the order of the table that is searched.
pub closed spec fn table() -> Seq<Seq<char>> {
    seq![
        "and"@,
        "class"@,
        "else"@,
        "false"@,
        "for"@,
        "fun"@,
        "if"@,
        "nil"@,
        "or"@,
        "print"@,
        "return"@,
        "super"@,
        "this"@,
        "true"@,
        "var"@,
        "while"@,
    ]
}

/// `a` and `b` agree before index `k`, and there `a` ends or holds the
/// smaller character.
spec fn smaller_at(a: Seq<char>, b: Seq<char>, k: int) -> bool {
    &&& 0 <= k <= a.len()
    &&& k < b.len()
    &&& forall|j: int| 0 <= j < k ==> a[j] == b[j]
    &&& k < a.len() ==> a[k] < b[k]
}

/// `a` comes before `b` in the order of a dictionary.
spec fn before(a: Seq<char>, b: Seq<char>) -> bool {
    exists|k: int| smaller_at(a, b, k)
}

proof fn lemma_before_is_transitive(a: Seq<char>, b: Seq<char>, c: Seq<char>)
    requires
        before(a, b),
        before(b, c),
    ensures
        before(a, c),
{
    let k1 = choose|k: int| smaller_at(a, b, k);
    let k2 = choose|k: int| smaller_at(b, c, k);
    if k1 <= k2 {
        assert(smaller_at(a, c, k1));
    } else {
        assert(smaller_at(a, c, k2));
    }
}

proof fn lemma_before_excludes_equal(a: Seq<char>, b: Seq<char>)
    requires
        before(a, b),
    ensures
        a != b,
{
}

proof fn reveal_keywords()
    ensures
        "and"@ == seq!['a', 'n', 'd'],
        "class"@ == seq!['c', 'l', 'a', 's', 's'],
        "else"@ == seq!['e', 'l', 's', 'e'],
        "false"@ == seq!['f', 'a', 'l', 's', 'e'],
        "for"@ == seq!['f', 'o', 'r'],
        "fun"@ == seq!['f', 'u', 'n'],
        "if"@ == seq!['i', 'f'],
        "nil"@ == seq!['n', 'i', 'l'],
        "or"@ == seq!['o', 'r'],
        "print"@ == seq!['p', 'r', 'i', 'n', 't'],
        "return"@ == seq!['r', 'e', 't', 'u', 'r', 'n'],
        "super"@ == seq!['s', 'u', 'p', 'e', 'r'],
        "this"@ == seq!['t', 'h', 'i', 's'],
        "true"@ == seq!['t', 'r', 'u', 'e'],
        "var"@ == seq!['v', 'a', 'r'],
        "while"@ == seq!['w', 'h', 'i', 'l', 'e'],
{
    reveal_strlit("and");
    reveal_strlit("class");
    reveal_strlit("else");
    reveal_strlit("false");
    reveal_strlit("for");
    reveal_strlit("fun");
    reveal_strlit("if");
    reveal_strlit("nil");
    reveal_strlit("or");
    reveal_strlit("print");
    reveal_strlit("return");
    reveal_strlit("super");
    reveal_strlit("this");
    reveal_strlit("true");
    reveal_strlit("var");
    reveal_strlit("while");
    assert("and"@ =~= seq!['a', 'n', 'd']);
    assert("class"@ =~= seq!['c', 'l', 'a', 's', 's']);
    assert("else"@ =~= seq!['e', 'l', 's', 'e']);
    assert("false"@ =~= seq!['f', 'a', 'l', 's', 'e']);
    assert("for"@ =~= seq!['f', 'o', 'r']);
    assert("fun"@ =~= seq!['f', 'u', 'n']);
    assert("if"@ =~= seq!['i', 'f']);
    assert("nil"@ =~= seq!['n', 'i', 'l']);
    assert("or"@ =~= seq!['o', 'r']);
    assert("print"@ =~= seq!['p', 'r', 'i', 'n', 't']);
    assert("return"@ =~= seq!['r', 'e', 't', 'u', 'r', 'n']);
    assert("super"@ =~= seq!['s', 'u', 'p', 'e', 'r']);
    assert("this"@ =~= seq!['t', 'h', 'i', 's']);
    assert("true"@ =~= seq!['t', 'r', 'u', 'e']);
    assert("var"@ =~= seq!['v', 'a', 'r']);
    assert("while"@ =~= seq!['w', 'h', 'i', 'l', 'e']);
}

/// Each entry of the table comes before the one behind it.
proof fn lemma_table_steps(i: int)
    requires
        0 <= i < 15,
    ensures
        before(table()[i], table()[i + 1]),
{
    reveal_keywords();
    let t = table();
    let k: int = if i == 3 || i == 4 || i == 12 {
        1
    } else {
        0
    };
    assert(smaller_at(t[i], t[i + 1], k));
}

/// The table is sorted, with no entry twice.
proof fn lemma_table_sorted(i: int, j: int)
    requires
        0 <= i < j < 16,
    ensures
        before(table()[i], table()[j]),
    decreases j - i,
{
    if j == i + 1 {
        lemma_table_steps(i);
    } else {
        lemma_table_sorted(i, j - 1);
        lemma_table_steps(j - 1);
        lemma_before_is_transitive(table()[i], table()[j - 1], table()[j]);
    }
}

/// How a text stands to a keyword in the order of a dictionary.
enum Side {
    Before,
    Same,
    After,
}

/// The text of the table's entry `i`.
fn keyword_text(i: usize) -> (text: &'static str)
    requires
        i < 16,
    ensures
        text@ == table()[i as int],
{
    match i {
        0 => "and",
        1 => "class",
        2 => "else",
        3 => "false",
        4 => "for",
        5 => "fun",
        6 => "if",
        7 => "nil",
        8 => "or",
        9 => "print",
        10 => "return",
        11 => "super",
        12 => "this",
        13 => "true",
        14 => "var",
        _ => "while",
    }
}

/// The token value of the table's entry `i`.
fn keyword_value(i: usize) -> (value: TokenValue)
    requires
        i < 16,
    ensures
        keyword_of(table()[i as int]) == Some(value@),
{
    proof {
        reveal_keywords();
    }
    match i {
        0 => TokenValue::And,
        1 => TokenValue::Class,
        2 => TokenValue::Else,
        3 => TokenValue::False,
        4 => TokenValue::For,
        5 => TokenValue::Fun,
        6 => TokenValue::If,
        7 => TokenValue::Nil,
        8 => TokenValue::Or,
        9 => TokenValue::Print,
        10 => TokenValue::Return,
        11 => TokenValue::Super,
        12 => TokenValue::This,
        13 => TokenValue::True,
        14 => TokenValue::Var,
        _ => TokenValue::While,
    }
}

/// Where `text`, of `len` characters, stands to `keyword`.
fn side_of(text: &str, len: usize, keyword: &str) -> (side: Side)
    requires
        len == text@.len(),
    ensures
        side is Before ==> before(text@, keyword@),
        side is Same ==> text@ == keyword@,
        side is After ==> before(keyword@, text@),
{
    let keyword_len = keyword.unicode_len();
    let mut j: usize = 0;
    while j < len && j < keyword_len
        invariant
            j <= len,
            j <= keyword_len,
            len == text@.len(),
            keyword_len == keyword@.len(),
            forall|i: int| 0 <= i < j ==> text@[i] == keyword@[i],
        decreases len - j,
    {
        let a = text.get_char(j);
        let b = keyword.get_char(j);
        if a < b {
            assert(smaller_at(text@, keyword@, j as int));
            return Side::Before;
        }
        if a > b {
            assert(smaller_at(keyword@, text@, j as int));
            return Side::After;
        }
        j = j + 1;
    }
    if len < keyword_len {
        assert(smaller_at(text@, keyword@, len as int));
        Side::Before
    } else if len > keyword_len {
        assert(smaller_at(keyword@, text@, keyword_len as int));
        Side::After
    } else {
        assert(text@ =~= keyword@);
        Side::Same
    }
}

/// Looks `text` up among the keywords, by binary search in the sorted
/// table. Gives the keyword's token value, or `None` where `text` is no
/// keyword.
pub fn lookup_keyword(text: &str) -> (found: Option<TokenValue>)
    ensures
        match found {
            Some(value) => keyword_of(text@) == Some(value@),
            None => keyword_of(text@) is None,
        },
{
    let len = text.unicode_len();
    let mut lo: usize = 0;
    let mut hi: usize = 16;
    while lo < hi
        invariant
            lo <= hi <= 16,
            len == text@.len(),
            forall|k: int| 0 <= k < lo ==> before(#[trigger] table()[k], text@),
            forall|k: int| hi <= k < 16 ==> before(text@, #[trigger] table()[k]),
        decreases hi - lo,
    {
        let mid = lo + (hi - lo) / 2;
        match side_of(text, len, keyword_text(mid)) {
            Side::Same => {
                return Some(keyword_value(mid));
            },
            Side::Before => {
                assert forall|k: int| mid <= k < 16 implies before(text@, #[trigger] table()[k]) by {
                    if mid < k {
                        lemma_table_sorted(mid as int, k);
                        lemma_before_is_transitive(text@, table()[mid as int], table()[k]);
                    }
                }
                hi = mid;
            },
            Side::After => {
                assert forall|k: int| 0 <= k <= mid implies before(#[trigger] table()[k], text@) by {
                    if k < mid {
                        lemma_table_sorted(k, mid as int);
                        lemma_before_is_transitive(table()[k], table()[mid as int], text@);
                    }
                }
                lo = mid + 1;
            },
        }
    }
    proof {
        assert forall|k: int| 0 <= k < 16 implies text@ != #[trigger] table()[k] by {
            if k < lo {
                lemma_before_excludes_equal(table()[k], text@);
            } else {
                lemma_before_excludes_equal(text@, table()[k]);
            }
        }
        let t = table();
        assert(text@ != t[0] && text@ != t[1] && text@ != t[2] && text@ != t[3]);
        assert(text@ != t[4] && text@ != t[5] && text@ != t[6] && text@ != t[7]);
        assert(text@ != t[8] && text@ != t[9] && text@ != t[10] && text@ != t[11]);
        assert(text@ != t[12] && text@ != t[13] && text@ != t[14] && text@ != t[15]);
    }
    None
}

/// No keyword holds anything but lower-case letters, and none is longer
/// than six characters.
pub proof fn lemma_keyword_shape(text: Seq<char>)
    requires
        keyword_of(text) is Some,
    ensures
        2 <= text.len() <= 6,
        forall|i: int| 0 <= i < text.len() ==> 'a' <= #[trigger] text[i] <= 'z',
{
    reveal_keywords();
}

} // verus!

use nyxx_lexer::{lookup_keyword, TokenValue};

#[test]
fn test_every_keyword_is_found() {
    let table = [
        ("and", TokenValue::And),
        ("class", TokenValue::Class),
        ("else", TokenValue::Else),
        ("false", TokenValue::False),
        ("for", TokenValue::For),
        ("fun", TokenValue::Fun),
        ("if", TokenValue::If),
        ("nil", TokenValue::Nil),
        ("or", TokenValue::Or),
        ("print", TokenValue::Print),
        ("return", TokenValue::Return),
        ("super", TokenValue::Super),
        ("this", TokenValue::This),
        ("true", TokenValue::True),
        ("var", TokenValue::Var),
        ("while", TokenValue::While),
    ];
    for (text, value) in table {
        assert_eq!(lookup_keyword(text), Some(value));
    }
}

#[test]
fn test_other_words_are_not_found() {
    for text in [
        "", "a", "an", "andy", "ann", "className", "clas", "Class", "CLASS", "fo", "fort", "fum",
        "iff", "i", "zebra", "_", "while_", "whilf", "whild", "language", "nul", "tru", "truest",
    ] {
        assert_eq!(lookup_keyword(text), None, "{:?}", text);
    }
}

#[test]
fn test_lookup_minds_characters_outside_ascii() {
    assert_eq!(lookup_keyword("é"), None);
    assert_eq!(lookup_keyword("forê"), None);
}

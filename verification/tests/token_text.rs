use nyxx_lexer::{Span, Token, TokenValue};

#[test]
fn test_display_text_of_fixed_tokens() {
    let table = [
        (TokenValue::LeftParen, "("),
        (TokenValue::RightParen, ")"),
        (TokenValue::LeftBrace, "{"),
        (TokenValue::RightBrace, "}"),
        (TokenValue::Comma, ","),
        (TokenValue::Dot, "."),
        (TokenValue::Minus, "-"),
        (TokenValue::Plus, "+"),
        (TokenValue::Semicolon, ";"),
        (TokenValue::Slash, "/"),
        (TokenValue::Star, "*"),
        (TokenValue::Bang, "!"),
        (TokenValue::BangEqual, "!="),
        (TokenValue::Equal, "="),
        (TokenValue::EqualEqual, "=="),
        (TokenValue::Greater, ">"),
        (TokenValue::GreaterEqual, ">="),
        (TokenValue::Less, "<"),
        (TokenValue::LessEqual, "<="),
        (TokenValue::And, "and"),
        (TokenValue::Class, "class"),
        (TokenValue::Else, "else"),
        (TokenValue::False, "false"),
        (TokenValue::Fun, "fun"),
        (TokenValue::For, "for"),
        (TokenValue::If, "if"),
        (TokenValue::Nil, "nil"),
        (TokenValue::Or, "or"),
        (TokenValue::Print, "print"),
        (TokenValue::Return, "return"),
        (TokenValue::Super, "super"),
        (TokenValue::This, "this"),
        (TokenValue::True, "true"),
        (TokenValue::Var, "var"),
        (TokenValue::While, "while"),
        (TokenValue::NewLine, "<nl>"),
        (TokenValue::Eof, "eof"),
    ];
    for (value, text) in table {
        assert_eq!(value.display_text(), text);
    }
}

#[test]
fn test_display_text_of_tokens_with_text() {
    assert_eq!(TokenValue::Ident("language".to_string()).display_text(), "language");
    assert_eq!(TokenValue::String("lox".to_string()).display_text(), "lox");
    assert_eq!(TokenValue::Number("1.5".to_string()).display_text(), "1.5");
    assert_eq!(TokenValue::Comment("note".to_string()).display_text(), "// note");
    assert_eq!(TokenValue::Whitespace(" \t".to_string()).display_text(), "<ws>");
}

#[test]
fn test_debug_text_of_fixed_tokens() {
    let table = [
        (TokenValue::LeftParen, "LEFT_PAREN"),
        (TokenValue::RightParen, "RIGHT_PAREN"),
        (TokenValue::LeftBrace, "LEFT_BRACE"),
        (TokenValue::RightBrace, "RIGHT_BRACE"),
        (TokenValue::Comma, "COMMA"),
        (TokenValue::Dot, "DOT"),
        (TokenValue::Minus, "MINUS"),
        (TokenValue::Plus, "PLUS"),
        (TokenValue::Semicolon, "SEMICOLON"),
        (TokenValue::Slash, "SLASH"),
        (TokenValue::Star, "STAR"),
        (TokenValue::Bang, "BANG"),
        (TokenValue::BangEqual, "BANG_EQUAL"),
        (TokenValue::Equal, "EQUAL"),
        (TokenValue::EqualEqual, "EQUAL_EQUAL"),
        (TokenValue::Greater, "GREATER"),
        (TokenValue::GreaterEqual, "GREATER_EQUAL"),
        (TokenValue::Less, "LESS"),
        (TokenValue::LessEqual, "LESS_EQUAL"),
        (TokenValue::And, "AND"),
        (TokenValue::Class, "CLASS"),
        (TokenValue::Else, "ELSE"),
        (TokenValue::False, "FALSE"),
        (TokenValue::Fun, "FUN"),
        (TokenValue::For, "FOR"),
        (TokenValue::If, "IF"),
        (TokenValue::Nil, "NIL"),
        (TokenValue::Or, "OR"),
        (TokenValue::Print, "PRINT"),
        (TokenValue::Return, "RETURN"),
        (TokenValue::Super, "SUPER"),
        (TokenValue::This, "THIS"),
        (TokenValue::True, "TRUE"),
        (TokenValue::Var, "VAR"),
        (TokenValue::While, "WHILE"),
        (TokenValue::NewLine, "NEWLINE"),
        (TokenValue::Eof, "EOF"),
    ];
    for (value, text) in table {
        assert_eq!(value.debug_text(), text);
    }
}

#[test]
fn test_debug_text_of_tokens_with_text() {
    assert_eq!(TokenValue::Ident("language".to_string()).debug_text(), "IDENT(language)");
    assert_eq!(TokenValue::String("lox".to_string()).debug_text(), "STRING(lox)");
    assert_eq!(TokenValue::Number("10".to_string()).debug_text(), "NUMBER(10)");
    assert_eq!(TokenValue::Comment("test".to_string()).debug_text(), "COMM(test)");
    assert_eq!(TokenValue::Whitespace(" ".to_string()).debug_text(), "WS( )");
}

#[test]
fn test_token_display_and_debug_text() {
    let span = Span { start_line: 1, start_col: 4, end_line: 1, end_col: 12 };
    let token = Token::identifier("language", span);
    assert_eq!(token.display_text(), "language ([1:4..12])");
    assert_eq!(token.debug_text(), "IDENT(language) @ [1:4..12]");
    let token = Token::newline(Span { start_line: 1, start_col: 13, end_line: 2, end_col: 0 });
    assert_eq!(token.display_text(), "<nl> ((1:13..2:0))");
    assert_eq!(token.debug_text(), "NEWLINE @ (1:13..2:0)");
    let token = Token::plus(Span { start_line: 2, start_col: 3, end_line: 2, end_col: 4 });
    assert_eq!(token.display_text(), "+ ([2:3])");
    assert_eq!(token.debug_text(), "PLUS @ [2:3]");
}

#[test]
fn test_token_new_keeps_value_and_span() {
    let span = Span { start_line: 4, start_col: 1, end_line: 4, end_col: 6 };
    let token = Token::new(TokenValue::While, span);
    assert_eq!(token.tkn_value, TokenValue::While);
    assert_eq!(token.span, span);
}

#[test]
fn test_token_clone_is_equal() {
    let token = Token::string("lox".to_string(), Span::new());
    assert_eq!(token.clone(), token);
    assert!(token != Token::string("lux".to_string(), Span::new()));
}

use nyxx_lexer::{Span, Token, TokenValue};

#[test]
fn test_token_left_paren() {
    let t = Token::left_paren(Span::new());
    assert!(!t.display_text().is_empty());
    assert!(!format!("{:?}", t).is_empty());
    assert!(matches!(t.tkn_value, TokenValue::LeftParen));
}

#[test]
fn test_token_right_paren() {
    let t = Token::right_paren(Span::new());
    assert!(!t.display_text().is_empty());
    assert!(!format!("{:?}", t).is_empty());
    assert!(matches!(t.tkn_value, TokenValue::RightParen));
}

#[test]
fn test_token_left_brace() {
    let t = Token::left_brace(Span::new());
    assert!(!t.display_text().is_empty());
    assert!(!format!("{:?}", t).is_empty());
    assert!(matches!(t.tkn_value, TokenValue::LeftBrace));
}

#[test]
fn test_token_right_brace() {
    let t = Token::right_brace(Span::new());
    assert!(!t.display_text().is_empty());
    assert!(!format!("{:?}", t).is_empty());
    assert!(matches!(t.tkn_value, TokenValue::RightBrace));
}

#[test]
fn test_token_comma() {
    let t = Token::comma(Span::new());
    assert!(!t.display_text().is_empty());
    assert!(!format!("{:?}", t).is_empty());
    assert!(matches!(t.tkn_value, TokenValue::Comma));
}

#[test]
fn test_token_dot() {
    let t = Token::dot(Span::new());
    assert!(!t.display_text().is_empty());
    assert!(!format!("{:?}", t).is_empty());
    assert!(matches!(t.tkn_value, TokenValue::Dot));
}

#[test]
fn test_token_minus() {
    let t = Token::minus(Span::new());
    assert!(!t.display_text().is_empty());
    assert!(!format!("{:?}", t).is_empty());
    assert!(matches!(t.tkn_value, TokenValue::Minus));
}

#[test]
fn test_token_plus() {
    let t = Token::plus(Span::new());
    assert!(!t.display_text().is_empty());
    assert!(!format!("{:?}", t).is_empty());
    assert!(matches!(t.tkn_value, TokenValue::Plus));
}

#[test]
fn test_token_semicolon() {
    let t = Token::semicolon(Span::new());
    assert!(!t.display_text().is_empty());
    assert!(!format!("{:?}", t).is_empty());
    assert!(matches!(t.tkn_value, TokenValue::Semicolon));
}

#[test]
fn test_token_star() {
    let t = Token::star(Span::new());
    assert!(!t.display_text().is_empty());
    assert!(!format!("{:?}", t).is_empty());
    assert!(matches!(t.tkn_value, TokenValue::Star));
}

#[test]
fn test_token_bang() {
    let t = Token::bang(Span::new());
    assert!(!t.display_text().is_empty());
    assert!(!format!("{:?}", t).is_empty());
    assert!(matches!(t.tkn_value, TokenValue::Bang));
}

#[test]
fn test_token_bang_equal() {
    let t = Token::bang_equal(Span::new());
    assert!(!t.display_text().is_empty());
    assert!(!format!("{:?}", t).is_empty());
    assert!(matches!(t.tkn_value, TokenValue::BangEqual));
}

#[test]
fn test_token_equal() {
    let t = Token::equal(Span::new());
    assert!(!t.display_text().is_empty());
    assert!(!format!("{:?}", t).is_empty());
    assert!(matches!(t.tkn_value, TokenValue::Equal));
}

#[test]
fn test_token_equal_equal() {
    let t = Token::equal_equal(Span::new());
    assert!(!t.display_text().is_empty());
    assert!(!format!("{:?}", t).is_empty());
    assert!(matches!(t.tkn_value, TokenValue::EqualEqual));
}

#[test]
fn test_token_less() {
    let t = Token::less(Span::new());
    assert!(!t.display_text().is_empty());
    assert!(!format!("{:?}", t).is_empty());
    assert!(matches!(t.tkn_value, TokenValue::Less));
}

#[test]
fn test_token_less_equal() {
    let t = Token::less_equal(Span::new());
    assert!(!t.display_text().is_empty());
    assert!(!format!("{:?}", t).is_empty());
    assert!(matches!(t.tkn_value, TokenValue::LessEqual));
}

#[test]
fn test_token_greater() {
    let t = Token::greater(Span::new());
    assert!(!t.display_text().is_empty());
    assert!(!format!("{:?}", t).is_empty());
    assert!(matches!(t.tkn_value, TokenValue::Greater));
}

#[test]
fn test_token_greater_equal() {
    let t = Token::greater_equal(Span::new());
    assert!(!t.display_text().is_empty());
    assert!(!format!("{:?}", t).is_empty());
    assert!(matches!(t.tkn_value, TokenValue::GreaterEqual));
}

#[test]
fn test_token_slash() {
    let t = Token::slash(Span::new());
    assert!(!t.display_text().is_empty());
    assert!(!format!("{:?}", t).is_empty());
    assert!(matches!(t.tkn_value, TokenValue::Slash));
}

#[test]
fn test_token_comment() {
    let t = Token::comment("test".to_string(), Span::new());
    assert!(!t.display_text().is_empty());
    assert!(!format!("{:?}", t).is_empty());
    match t.tkn_value {
        TokenValue::Comment(c) => assert_eq!(c, "test"),
        _ => unreachable!(),
    }
}

#[test]
fn test_token_string() {
    let t = Token::string("test".to_string(), Span::new());
    assert!(!t.display_text().is_empty());
    assert!(!format!("{:?}", t).is_empty());
    match t.tkn_value {
        TokenValue::String(c) => assert_eq!(c, "test"),
        _ => unreachable!(),
    }
}

#[test]
fn test_token_number() {
    let t = Token::number("10".to_string(), Span::new());
    assert!(!t.display_text().is_empty());
    assert!(!format!("{:?}", t).is_empty());
    match t.tkn_value {
        TokenValue::Number(c) => {
            let c: f64 = c.parse().unwrap();
            assert!((c - 10.) * (c - 10.) < f64::EPSILON)
        }
        _ => unreachable!(),
    }
}

#[test]
fn test_token_ws() {
    let t = Token::whitespace("test".to_string(), Span::new());
    assert!(!t.display_text().is_empty());
    assert!(!format!("{:?}", t).is_empty());
    match t.tkn_value {
        TokenValue::Whitespace(c) => assert_eq!(c, "test"),
        _ => unreachable!(),
    }
}

#[test]
fn test_identifier() {
    let t = Token::identifier("language", Span::new());
    assert!(!t.display_text().is_empty());
    assert!(!format!("{:?}", t).is_empty());
    match t.tkn_value {
        TokenValue::Ident(c) => assert_eq!(c, "language"),
        _ => unreachable!(),
    }
}

#[test]
fn test_token_newline() {
    let t = Token::newline(Span::new());
    assert!(!t.display_text().is_empty());
    assert!(!format!("{:?}", t).is_empty());
    assert!(matches!(t.tkn_value, TokenValue::NewLine));
}

#[test]
fn test_token_eof() {
    let t = Token::new(TokenValue::Eof, Span::new());
    assert!(!t.display_text().is_empty());
    assert!(!format!("{:?}", t).is_empty());
    assert!(matches!(t.tkn_value, TokenValue::Eof));
}

#[test]
fn test_token_and() {
    let t = Token::new(TokenValue::And, Span::new());
    assert!(!t.display_text().is_empty());
    assert!(!format!("{:?}", t).is_empty());
    assert!(matches!(t.tkn_value, TokenValue::And));
}

#[test]
fn test_token_or() {
    let t = Token::new(TokenValue::Or, Span::new());
    assert!(!t.display_text().is_empty());
    assert!(!format!("{:?}", t).is_empty());
    assert!(matches!(t.tkn_value, TokenValue::Or));
}

#[test]
fn test_token_class() {
    let t = Token::new(TokenValue::Class, Span::new());
    assert!(!t.display_text().is_empty());
    assert!(!format!("{:?}", t).is_empty());
    assert!(matches!(t.tkn_value, TokenValue::Class));
}

#[test]
fn test_token_this() {
    let t = Token::new(TokenValue::This, Span::new());
    assert!(!t.display_text().is_empty());
    assert!(!format!("{:?}", t).is_empty());
    assert!(matches!(t.tkn_value, TokenValue::This));
}

#[test]
fn test_token_else() {
    let t = Token::new(TokenValue::Else, Span::new());
    assert!(!t.display_text().is_empty());
    assert!(!format!("{:?}", t).is_empty());
    assert!(matches!(t.tkn_value, TokenValue::Else));
}

#[test]
fn test_token_false() {
    let t = Token::new(TokenValue::False, Span::new());
    assert!(!t.display_text().is_empty());
    assert!(!format!("{:?}", t).is_empty());
    assert!(matches!(t.tkn_value, TokenValue::False));
}

#[test]
fn test_token_true() {
    let t = Token::new(TokenValue::True, Span::new());
    assert!(!t.display_text().is_empty());
    assert!(!format!("{:?}", t).is_empty());
    assert!(matches!(t.tkn_value, TokenValue::True));
}

#[test]
fn test_token_fun() {
    let t = Token::new(TokenValue::Fun, Span::new());
    assert!(!t.display_text().is_empty());
    assert!(!format!("{:?}", t).is_empty());
    assert!(matches!(t.tkn_value, TokenValue::Fun));
}

#[test]
fn test_token_for() {
    let t = Token::new(TokenValue::For, Span::new());
    assert!(!t.display_text().is_empty());
    assert!(!format!("{:?}", t).is_empty());
    assert!(matches!(t.tkn_value, TokenValue::For));
}

#[test]
fn test_token_if() {
    let t = Token::new(TokenValue::If, Span::new());
    assert!(!t.display_text().is_empty());
    assert!(!format!("{:?}", t).is_empty());
    assert!(matches!(t.tkn_value, TokenValue::If));
}

#[test]
fn test_token_nil() {
    let t = Token::new(TokenValue::Nil, Span::new());
    assert!(!t.display_text().is_empty());
    assert!(!format!("{:?}", t).is_empty());
    assert!(matches!(t.tkn_value, TokenValue::Nil));
}

#[test]
fn test_token_print() {
    let t = Token::new(TokenValue::Print, Span::new());
    assert!(!t.display_text().is_empty());
    assert!(!format!("{:?}", t).is_empty());
    assert!(matches!(t.tkn_value, TokenValue::Print));
}

#[test]
fn test_token_return() {
    let t = Token::new(TokenValue::Return, Span::new());
    assert!(!t.display_text().is_empty());
    assert!(!format!("{:?}", t).is_empty());
    assert!(matches!(t.tkn_value, TokenValue::Return));
}

#[test]
fn test_token_super() {
    let t = Token::new(TokenValue::Super, Span::new());
    assert!(!t.display_text().is_empty());
    assert!(!format!("{:?}", t).is_empty());
    assert!(matches!(t.tkn_value, TokenValue::Super));
}

#[test]
fn test_token_var() {
    let t = Token::new(TokenValue::Var, Span::new());
    assert!(!t.display_text().is_empty());
    assert!(!format!("{:?}", t).is_empty());
    assert!(matches!(t.tkn_value, TokenValue::Var));
}

#[test]
fn test_token_while() {
    let t = Token::new(TokenValue::While, Span::new());
    assert!(!t.display_text().is_empty());
    assert!(!format!("{:?}", t).is_empty());
    assert!(matches!(t.tkn_value, TokenValue::While));
}

use nyxx_lexer::chars::CharClass;
use nyxx_lexer::{is_alpha, is_alphanum, is_digit, is_whitespace};

#[test]
fn test_is_digit() {
    assert!(!is_digit(10 as char));
    assert!(is_digit('0'));
    assert!(is_digit('9'));
    assert!(!is_digit('a'));
}

#[test]
fn test_is_digit_bounds() {
    assert!(!is_digit('/'));
    assert!(!is_digit(':'));
    assert!(is_digit('5'));
}

#[test]
fn test_is_alpha() {
    assert!(is_alpha('a'));
    assert!(is_alpha('z'));
    assert!(is_alpha('A'));
    assert!(is_alpha('Z'));
    assert!(is_alpha('_'));
    assert!(!is_alpha('`'));
    assert!(!is_alpha('{'));
    assert!(!is_alpha('@'));
    assert!(!is_alpha('['));
    assert!(!is_alpha('0'));
    assert!(!is_alpha('é'));
}

#[test]
fn test_is_alphanum() {
    assert!(is_alphanum('a'));
    assert!(is_alphanum('7'));
    assert!(is_alphanum('_'));
    assert!(!is_alphanum('-'));
    assert!(!is_alphanum(' '));
}

#[test]
fn test_is_whitespace() {
    assert!(is_whitespace(' '));
    assert!(is_whitespace('\t'));
    assert!(is_whitespace('\r'));
    assert!(!is_whitespace('\n'));
    assert!(!is_whitespace('a'));
}

#[test]
fn test_char_class_contains() {
    assert!(CharClass::Digit.contains('3'));
    assert!(!CharClass::Digit.contains('x'));
    assert!(CharClass::AlphaNum.contains('x'));
    assert!(!CharClass::AlphaNum.contains('.'));
    assert!(CharClass::Blank.contains('\t'));
    assert!(!CharClass::Blank.contains('\n'));
    assert!(CharClass::Except('"').contains('a'));
    assert!(!CharClass::Except('"').contains('"'));
}

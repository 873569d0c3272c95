//! Tokens: what a lexeme is, and where it stands.

use vstd::prelude::*;
use crate::span::Span;
use crate::text::push_text;

verus! {

/// What a token is. Identifiers, literals, comments and blanks carry their
/// text; a number carries its digits as they were written.
#[derive(Clone, Debug, PartialEq, Eq)]
pub enum TokenValue {
    /// Left parenthesis
    LeftParen,
    /// Right parenthesis
    RightParen,
    /// Left brace
    LeftBrace,
    /// Right brace
    RightBrace,
    /// Comma
    Comma,
    /// Dot
    Dot,
    /// Minus
    Minus,
    /// Plus
    Plus,
    /// Semicolon
    Semicolon,
    /// Slash
    Slash,
    /// Star
    Star,
    /// Bang
    Bang,
    /// Bang followed by equal
    BangEqual,
    /// Equal
    Equal,
    /// Two equals
    EqualEqual,
    /// Greater
    Greater,
    /// Greater followed by equal
    GreaterEqual,
    /// Less
    Less,
    /// Less followed by equal
    LessEqual,
    /// An identifier, with its text
    Ident(String),
    /// A string literal, with the text between its quotes
    String(String),
    /// A number literal, with its digits as written
    Number(String),
    /// A line comment, with its text
    Comment(String),
    /// The keyword `and`
    And,
    /// The keyword `class`
    Class,
    /// The keyword `else`
    Else,
    /// The keyword `false`
    False,
    /// The keyword `fun`
    Fun,
    /// The keyword `for`
    For,
    /// The keyword `if`
    If,
    /// The keyword `nil`
    Nil,
    /// The keyword `or`
    Or,
    /// The keyword `print`
    Print,
    /// The keyword `return`
    Return,
    /// The keyword `super`
    Super,
    /// The keyword `this`
    This,
    /// The keyword `true`
    True,
    /// The keyword `var`
    Var,
    /// The keyword `while`
    While,
    /// A run of blanks, with its text
    Whitespace(String),
    /// A line break
    NewLine,
    /// The end of the input
    Eof,
}

/// A token value as contracts see it: the same variants, with each text as
/// a sequence of characters.
pub enum ValueView {
    LeftParen,
    RightParen,
    LeftBrace,
    RightBrace,
    Comma,
    Dot,
    Minus,
    Plus,
    Semicolon,
    Slash,
    Star,
    Bang,
    BangEqual,
    Equal,
    EqualEqual,
    Greater,
    GreaterEqual,
    Less,
    LessEqual,
    Ident(Seq<char>),
    String(Seq<char>),
    Number(Seq<char>),
    Comment(Seq<char>),
    And,
    Class,
    Else,
    False,
    Fun,
    For,
    If,
    Nil,
    Or,
    Print,
    Return,
    Super,
    This,
    True,
    Var,
    While,
    Whitespace(Seq<char>),
    NewLine,
    Eof,
}

impl View for TokenValue {
    type V = ValueView;

    open spec fn view(&self) -> ValueView {
        match self {
            TokenValue::LeftParen => ValueView::LeftParen,
            TokenValue::RightParen => ValueView::RightParen,
            TokenValue::LeftBrace => ValueView::LeftBrace,
            TokenValue::RightBrace => ValueView::RightBrace,
            TokenValue::Comma => ValueView::Comma,
            TokenValue::Dot => ValueView::Dot,
            TokenValue::Minus => ValueView::Minus,
            TokenValue::Plus => ValueView::Plus,
            TokenValue::Semicolon => ValueView::Semicolon,
            TokenValue::Slash => ValueView::Slash,
            TokenValue::Star => ValueView::Star,
            TokenValue::Bang => ValueView::Bang,
            TokenValue::BangEqual => ValueView::BangEqual,
            TokenValue::Equal => ValueView::Equal,
            TokenValue::EqualEqual => ValueView::EqualEqual,
            TokenValue::Greater => ValueView::Greater,
            TokenValue::GreaterEqual => ValueView::GreaterEqual,
            TokenValue::Less => ValueView::Less,
            TokenValue::LessEqual => ValueView::LessEqual,
            TokenValue::NewLine => ValueView::NewLine,
            TokenValue::Eof => ValueView::Eof,
            TokenValue::And => ValueView::And,
            TokenValue::Class => ValueView::Class,
            TokenValue::Else => ValueView::Else,
            TokenValue::False => ValueView::False,
            TokenValue::Fun => ValueView::Fun,
            TokenValue::For => ValueView::For,
            TokenValue::If => ValueView::If,
            TokenValue::Nil => ValueView::Nil,
            TokenValue::Or => ValueView::Or,
            TokenValue::Print => ValueView::Print,
            TokenValue::Return => ValueView::Return,
            TokenValue::Super => ValueView::Super,
            TokenValue::This => ValueView::This,
            TokenValue::True => ValueView::True,
            TokenValue::Var => ValueView::Var,
            TokenValue::While => ValueView::While,
            TokenValue::Ident(t) => ValueView::Ident(t@),
            TokenValue::String(t) => ValueView::String(t@),
            TokenValue::Number(t) => ValueView::Number(t@),
            TokenValue::Comment(t) => ValueView::Comment(t@),
            TokenValue::Whitespace(t) => ValueView::Whitespace(t@),
        }
    }
}

impl ValueView {
    /// Whitespace, line breaks and comments: what a parser passes over.
    pub open spec fn is_trivia(self) -> bool {
        self is Whitespace || self is NewLine || self is Comment
    }

    /// The value as it reads in source text.
    pub open spec fn display(self) -> Seq<char> {
        match self {
            ValueView::LeftParen => "("@,
            ValueView::RightParen => ")"@,
            ValueView::LeftBrace => "{"@,
            ValueView::RightBrace => "}"@,
            ValueView::Comma => ","@,
            ValueView::Dot => "."@,
            ValueView::Minus => "-"@,
            ValueView::Plus => "+"@,
            ValueView::Semicolon => ";"@,
            ValueView::Slash => "/"@,
            ValueView::Star => "*"@,
            ValueView::Bang => "!"@,
            ValueView::BangEqual => "!="@,
            ValueView::Equal => "="@,
            ValueView::EqualEqual => "=="@,
            ValueView::Greater => ">"@,
            ValueView::GreaterEqual => ">="@,
            ValueView::Less => "<"@,
            ValueView::LessEqual => "<="@,
            ValueView::NewLine => "<nl>"@,
            ValueView::Eof => "eof"@,
            ValueView::And => "and"@,
            ValueView::Class => "class"@,
            ValueView::Else => "else"@,
            ValueView::False => "false"@,
            ValueView::Fun => "fun"@,
            ValueView::For => "for"@,
            ValueView::If => "if"@,
            ValueView::Nil => "nil"@,
            ValueView::Or => "or"@,
            ValueView::Print => "print"@,
            ValueView::Return => "return"@,
            ValueView::Super => "super"@,
            ValueView::This => "this"@,
            ValueView::True => "true"@,
            ValueView::Var => "var"@,
            ValueView::While => "while"@,
            ValueView::Ident(t) => t,
            ValueView::String(t) => t,
            ValueView::Number(t) => t,
            ValueView::Comment(t) => "// "@ + t,
            ValueView::Whitespace(_) => "<ws>"@,
        }
    }

    /// The value by its name, with its text in parentheses where it has one.
    pub open spec fn debug(self) -> Seq<char> {
        match self {
            ValueView::LeftParen => "LEFT_PAREN"@,
            ValueView::RightParen => "RIGHT_PAREN"@,
            ValueView::LeftBrace => "LEFT_BRACE"@,
            ValueView::RightBrace => "RIGHT_BRACE"@,
            ValueView::Comma => "COMMA"@,
            ValueView::Dot => "DOT"@,
            ValueView::Minus => "MINUS"@,
            ValueView::Plus => "PLUS"@,
            ValueView::Semicolon => "SEMICOLON"@,
            ValueView::Slash => "SLASH"@,
            ValueView::Star => "STAR"@,
            ValueView::Bang => "BANG"@,
            ValueView::BangEqual => "BANG_EQUAL"@,
            ValueView::Equal => "EQUAL"@,
            ValueView::EqualEqual => "EQUAL_EQUAL"@,
            ValueView::Greater => "GREATER"@,
            ValueView::GreaterEqual => "GREATER_EQUAL"@,
            ValueView::Less => "LESS"@,
            ValueView::LessEqual => "LESS_EQUAL"@,
            ValueView::NewLine => "NEWLINE"@,
            ValueView::Eof => "EOF"@,
            ValueView::And => "AND"@,
            ValueView::Class => "CLASS"@,
            ValueView::Else => "ELSE"@,
            ValueView::False => "FALSE"@,
            ValueView::Fun => "FUN"@,
            ValueView::For => "FOR"@,
            ValueView::If => "IF"@,
            ValueView::Nil => "NIL"@,
            ValueView::Or => "OR"@,
            ValueView::Print => "PRINT"@,
            ValueView::Return => "RETURN"@,
            ValueView::Super => "SUPER"@,
            ValueView::This => "THIS"@,
            ValueView::True => "TRUE"@,
            ValueView::Var => "VAR"@,
            ValueView::While => "WHILE"@,
            ValueView::Ident(t) => "IDENT("@ + t + ")"@,
            ValueView::String(t) => "STRING("@ + t + ")"@,
            ValueView::Number(t) => "NUMBER("@ + t + ")"@,
            ValueView::Comment(t) => "COMM("@ + t + ")"@,
            ValueView::Whitespace(t) => "WS("@ + t + ")"@,
        }
    }
}

impl TokenValue {
    /// Whether this is whitespace, a line break or a comment.
    pub fn is_trivia(&self) -> (b: bool)
        ensures
            b == self@.is_trivia(),
    {
        match self {
            TokenValue::Whitespace(_) => true,
            TokenValue::NewLine => true,
            TokenValue::Comment(_) => true,
            _ => false,
        }
    }

    /// The value as it reads in source text.
    pub fn display_text(&self) -> (text: String)
        ensures
            text@ == self@.display(),
    {
        let mut text = String::new();
        match self {
            TokenValue::LeftParen => push_text(&mut text, "("),
            TokenValue::RightParen => push_text(&mut text, ")"),
            TokenValue::LeftBrace => push_text(&mut text, "{"),
            TokenValue::RightBrace => push_text(&mut text, "}"),
            TokenValue::Comma => push_text(&mut text, ","),
            TokenValue::Dot => push_text(&mut text, "."),
            TokenValue::Minus => push_text(&mut text, "-"),
            TokenValue::Plus => push_text(&mut text, "+"),
            TokenValue::Semicolon => push_text(&mut text, ";"),
            TokenValue::Slash => push_text(&mut text, "/"),
            TokenValue::Star => push_text(&mut text, "*"),
            TokenValue::Bang => push_text(&mut text, "!"),
            TokenValue::BangEqual => push_text(&mut text, "!="),
            TokenValue::Equal => push_text(&mut text, "="),
            TokenValue::EqualEqual => push_text(&mut text, "=="),
            TokenValue::Greater => push_text(&mut text, ">"),
            TokenValue::GreaterEqual => push_text(&mut text, ">="),
            TokenValue::Less => push_text(&mut text, "<"),
            TokenValue::LessEqual => push_text(&mut text, "<="),
            TokenValue::NewLine => push_text(&mut text, "<nl>"),
            TokenValue::Eof => push_text(&mut text, "eof"),
            TokenValue::And => push_text(&mut text, "and"),
            TokenValue::Class => push_text(&mut text, "class"),
            TokenValue::Else => push_text(&mut text, "else"),
            TokenValue::False => push_text(&mut text, "false"),
            TokenValue::Fun => push_text(&mut text, "fun"),
            TokenValue::For => push_text(&mut text, "for"),
            TokenValue::If => push_text(&mut text, "if"),
            TokenValue::Nil => push_text(&mut text, "nil"),
            TokenValue::Or => push_text(&mut text, "or"),
            TokenValue::Print => push_text(&mut text, "print"),
            TokenValue::Return => push_text(&mut text, "return"),
            TokenValue::Super => push_text(&mut text, "super"),
            TokenValue::This => push_text(&mut text, "this"),
            TokenValue::True => push_text(&mut text, "true"),
            TokenValue::Var => push_text(&mut text, "var"),
            TokenValue::While => push_text(&mut text, "while"),
            TokenValue::Ident(t) => push_text(&mut text, t.as_str()),
            TokenValue::String(t) => push_text(&mut text, t.as_str()),
            TokenValue::Number(t) => push_text(&mut text, t.as_str()),
            TokenValue::Comment(t) => {
                push_text(&mut text, "// ");
                push_text(&mut text, t.as_str());
            },
            TokenValue::Whitespace(_) => push_text(&mut text, "<ws>"),
        }
        assert(text@ =~= self@.display());
        text
    }

    /// The value by its name, with its text in parentheses where it has one.
    pub fn debug_text(&self) -> (text: String)
        ensures
            text@ == self@.debug(),
    {
        let mut text = String::new();
        match self {
            TokenValue::LeftParen => push_text(&mut text, "LEFT_PAREN"),
            TokenValue::RightParen => push_text(&mut text, "RIGHT_PAREN"),
            TokenValue::LeftBrace => push_text(&mut text, "LEFT_BRACE"),
            TokenValue::RightBrace => push_text(&mut text, "RIGHT_BRACE"),
            TokenValue::Comma => push_text(&mut text, "COMMA"),
            TokenValue::Dot => push_text(&mut text, "DOT"),
            TokenValue::Minus => push_text(&mut text, "MINUS"),
            TokenValue::Plus => push_text(&mut text, "PLUS"),
            TokenValue::Semicolon => push_text(&mut text, "SEMICOLON"),
            TokenValue::Slash => push_text(&mut text, "SLASH"),
            TokenValue::Star => push_text(&mut text, "STAR"),
            TokenValue::Bang => push_text(&mut text, "BANG"),
            TokenValue::BangEqual => push_text(&mut text, "BANG_EQUAL"),
            TokenValue::Equal => push_text(&mut text, "EQUAL"),
            TokenValue::EqualEqual => push_text(&mut text, "EQUAL_EQUAL"),
            TokenValue::Greater => push_text(&mut text, "GREATER"),
            TokenValue::GreaterEqual => push_text(&mut text, "GREATER_EQUAL"),
            TokenValue::Less => push_text(&mut text, "LESS"),
            TokenValue::LessEqual => push_text(&mut text, "LESS_EQUAL"),
            TokenValue::NewLine => push_text(&mut text, "NEWLINE"),
            TokenValue::Eof => push_text(&mut text, "EOF"),
            TokenValue::And => push_text(&mut text, "AND"),
            TokenValue::Class => push_text(&mut text, "CLASS"),
            TokenValue::Else => push_text(&mut text, "ELSE"),
            TokenValue::False => push_text(&mut text, "FALSE"),
            TokenValue::Fun => push_text(&mut text, "FUN"),
            TokenValue::For => push_text(&mut text, "FOR"),
            TokenValue::If => push_text(&mut text, "IF"),
            TokenValue::Nil => push_text(&mut text, "NIL"),
            TokenValue::Or => push_text(&mut text, "OR"),
            TokenValue::Print => push_text(&mut text, "PRINT"),
            TokenValue::Return => push_text(&mut text, "RETURN"),
            TokenValue::Super => push_text(&mut text, "SUPER"),
            TokenValue::This => push_text(&mut text, "THIS"),
            TokenValue::True => push_text(&mut text, "TRUE"),
            TokenValue::Var => push_text(&mut text, "VAR"),
            TokenValue::While => push_text(&mut text, "WHILE"),
            TokenValue::Ident(t) => {
                push_text(&mut text, "IDENT(");
                push_text(&mut text, t.as_str());
                push_text(&mut text, ")");
            },
            TokenValue::String(t) => {
                push_text(&mut text, "STRING(");
                push_text(&mut text, t.as_str());
                push_text(&mut text, ")");
            },
            TokenValue::Number(t) => {
                push_text(&mut text, "NUMBER(");
                push_text(&mut text, t.as_str());
                push_text(&mut text, ")");
            },
            TokenValue::Comment(t) => {
                push_text(&mut text, "COMM(");
                push_text(&mut text, t.as_str());
                push_text(&mut text, ")");
            },
            TokenValue::Whitespace(t) => {
                push_text(&mut text, "WS(");
                push_text(&mut text, t.as_str());
                push_text(&mut text, ")");
            },
        }
        assert(text@ =~= self@.debug());
        text
    }
}

/// A token found in the source: its value and the span of its lexeme.
#[derive(Clone, Debug, PartialEq, Eq)]
pub struct Token {
    pub tkn_value: TokenValue,
    pub span: Span,
}

/// A token as contracts see it.
pub struct TokenView {
    pub value: ValueView,
    pub span: Span,
}

impl View for Token {
    type V = TokenView;

    open spec fn view(&self) -> TokenView {
        TokenView { value: self.tkn_value@, span: self.span }
    }
}

impl TokenView {
    /// The token as it reads in source text, followed by its span.
    pub open spec fn display(self) -> Seq<char> {
        self.value.display() + " ("@ + self.span.spec_text() + ")"@
    }

    /// The token by its name, followed by its span.
    pub open spec fn debug(self) -> Seq<char> {
        self.value.debug() + " @ "@ + self.span.spec_text()
    }
}

impl Token {
    /// A token of the given value at the given span.
    pub fn new(tkn_value: TokenValue, span: Span) -> (t: Token)
        ensures
            t.tkn_value == tkn_value,
            t.span == span,
            t@ == (TokenView { value: tkn_value@, span }),
    {
        Token { tkn_value, span }
    }

    /// A `(` token.
    pub fn left_paren(span: Span) -> (t: Token)
        ensures
            t@ == (TokenView { value: ValueView::LeftParen, span }),
    {
        Token::new(TokenValue::LeftParen, span)
    }

    /// A `)` token.
    pub fn right_paren(span: Span) -> (t: Token)
        ensures
            t@ == (TokenView { value: ValueView::RightParen, span }),
    {
        Token::new(TokenValue::RightParen, span)
    }

    /// A `{` token.
    pub fn left_brace(span: Span) -> (t: Token)
        ensures
            t@ == (TokenView { value: ValueView::LeftBrace, span }),
    {
        Token::new(TokenValue::LeftBrace, span)
    }

    /// A `}` token.
    pub fn right_brace(span: Span) -> (t: Token)
        ensures
            t@ == (TokenView { value: ValueView::RightBrace, span }),
    {
        Token::new(TokenValue::RightBrace, span)
    }

    /// A `,` token.
    pub fn comma(span: Span) -> (t: Token)
        ensures
            t@ == (TokenView { value: ValueView::Comma, span }),
    {
        Token::new(TokenValue::Comma, span)
    }

    /// A `.` token.
    pub fn dot(span: Span) -> (t: Token)
        ensures
            t@ == (TokenView { value: ValueView::Dot, span }),
    {
        Token::new(TokenValue::Dot, span)
    }

    /// A `-` token.
    pub fn minus(span: Span) -> (t: Token)
        ensures
            t@ == (TokenView { value: ValueView::Minus, span }),
    {
        Token::new(TokenValue::Minus, span)
    }

    /// A `+` token.
    pub fn plus(span: Span) -> (t: Token)
        ensures
            t@ == (TokenView { value: ValueView::Plus, span }),
    {
        Token::new(TokenValue::Plus, span)
    }

    /// A `;` token.
    pub fn semicolon(span: Span) -> (t: Token)
        ensures
            t@ == (TokenView { value: ValueView::Semicolon, span }),
    {
        Token::new(TokenValue::Semicolon, span)
    }

    /// A `/` token.
    pub fn slash(span: Span) -> (t: Token)
        ensures
            t@ == (TokenView { value: ValueView::Slash, span }),
    {
        Token::new(TokenValue::Slash, span)
    }

    /// A `*` token.
    pub fn star(span: Span) -> (t: Token)
        ensures
            t@ == (TokenView { value: ValueView::Star, span }),
    {
        Token::new(TokenValue::Star, span)
    }

    /// A `!` token.
    pub fn bang(span: Span) -> (t: Token)
        ensures
            t@ == (TokenView { value: ValueView::Bang, span }),
    {
        Token::new(TokenValue::Bang, span)
    }

    /// A `!=` token.
    pub fn bang_equal(span: Span) -> (t: Token)
        ensures
            t@ == (TokenView { value: ValueView::BangEqual, span }),
    {
        Token::new(TokenValue::BangEqual, span)
    }

    /// A `=` token.
    pub fn equal(span: Span) -> (t: Token)
        ensures
            t@ == (TokenView { value: ValueView::Equal, span }),
    {
        Token::new(TokenValue::Equal, span)
    }

    /// A `==` token.
    pub fn equal_equal(span: Span) -> (t: Token)
        ensures
            t@ == (TokenView { value: ValueView::EqualEqual, span }),
    {
        Token::new(TokenValue::EqualEqual, span)
    }

    /// A `>` token.
    pub fn greater(span: Span) -> (t: Token)
        ensures
            t@ == (TokenView { value: ValueView::Greater, span }),
    {
        Token::new(TokenValue::Greater, span)
    }

    /// A `>=` token.
    pub fn greater_equal(span: Span) -> (t: Token)
        ensures
            t@ == (TokenView { value: ValueView::GreaterEqual, span }),
    {
        Token::new(TokenValue::GreaterEqual, span)
    }

    /// A `<` token.
    pub fn less(span: Span) -> (t: Token)
        ensures
            t@ == (TokenView { value: ValueView::Less, span }),
    {
        Token::new(TokenValue::Less, span)
    }

    /// A `<=` token.
    pub fn less_equal(span: Span) -> (t: Token)
        ensures
            t@ == (TokenView { value: ValueView::LessEqual, span }),
    {
        Token::new(TokenValue::LessEqual, span)
    }

    /// A comment token with the given text.
    pub fn comment(text: String, span: Span) -> (t: Token)
        ensures
            t@ == (TokenView { value: ValueView::Comment(text@), span }),
    {
        Token::new(TokenValue::Comment(text), span)
    }

    /// A string token with the given text.
    pub fn string(text: String, span: Span) -> (t: Token)
        ensures
            t@ == (TokenView { value: ValueView::String(text@), span }),
    {
        Token::new(TokenValue::String(text), span)
    }

    /// A number token with the given digits.
    pub fn number(text: String, span: Span) -> (t: Token)
        ensures
            t@ == (TokenView { value: ValueView::Number(text@), span }),
    {
        Token::new(TokenValue::Number(text), span)
    }

    /// A whitespace token with the given text.
    pub fn whitespace(text: String, span: Span) -> (t: Token)
        ensures
            t@ == (TokenView { value: ValueView::Whitespace(text@), span }),
    {
        Token::new(TokenValue::Whitespace(text), span)
    }

    /// A line break token.
    pub fn newline(span: Span) -> (t: Token)
        ensures
            t@ == (TokenView { value: ValueView::NewLine, span }),
    {
        Token::new(TokenValue::NewLine, span)
    }

    /// An identifier token with the given text.
    pub fn identifier(i: &str, span: Span) -> (t: Token)
        ensures
            t@ == (TokenView { value: ValueView::Ident(i@), span }),
    {
        Token::new(TokenValue::Ident(i.to_owned()), span)
    }

    /// The token as it reads in source text, followed by its span.
    pub fn display_text(&self) -> (text: String)
        ensures
            text@ == self@.display(),
    {
        let mut text = self.tkn_value.display_text();
        push_text(&mut text, " (");
        let span = self.span.display_text();
        push_text(&mut text, span.as_str());
        push_text(&mut text, ")");
        assert(text@ =~= self@.display());
        text
    }

    /// The token by its name, followed by its span.
    pub fn debug_text(&self) -> (text: String)
        ensures
            text@ == self@.debug(),
    {
        let mut text = self.tkn_value.debug_text();
        push_text(&mut text, " @ ");
        let span = self.span.display_text();
        push_text(&mut text, span.as_str());
        assert(text@ =~= self@.debug());
        text
    }
}

} // verus!

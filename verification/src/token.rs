//! Tokens: the lexical categories, and the record that pairs a category with
//! its source text and line.

use vstd::prelude::*;

verus! {

/// A lexical category as contracts see it: the view of a [`TokenType`]. The
/// three literal-bearing categories carry their text as a sequence of
/// characters.
pub enum TokenKind {
    LeftParen,
    RightParen,
    LeftBrace,
    RightBrace,
    Comma,
    Dot,
    Minus,
    Plus,
    Semicolon,
    Slash,
    Star,
    Bang,
    BangEqual,
    Equal,
    EqualEqual,
    Greater,
    GreaterEqual,
    Less,
    LessEqual,
    Identifier(Seq<char>),
    String(Seq<char>),
    Number(Seq<char>),
    And,
    Class,
    Else,
    False,
    Fun,
    For,
    If,
    Nil,
    Or,
    Print,
    Return,
    Super,
    This,
    True,
    Var,
    While,
    EOF,
}

impl TokenKind {
    /// The text that stands for this category in a rendering: the symbol of
    /// an operator or of a punctuation mark, the word of a keyword, the
    /// carried text of a literal.
    pub open spec fn text(self) -> Seq<char> {
        match self {
            TokenKind::LeftParen => "("@,
            TokenKind::RightParen => ")"@,
            TokenKind::LeftBrace => "{"@,
            TokenKind::RightBrace => "}"@,
            TokenKind::Comma => ","@,
            TokenKind::Dot => "."@,
            TokenKind::Minus => "-"@,
            TokenKind::Plus => "+"@,
            TokenKind::Semicolon => ";"@,
            TokenKind::Slash => "/"@,
            TokenKind::Star => "*"@,
            TokenKind::Bang => "!"@,
            TokenKind::BangEqual => "!="@,
            TokenKind::Equal => "="@,
            TokenKind::EqualEqual => "=="@,
            TokenKind::Greater => ">"@,
            TokenKind::GreaterEqual => ">="@,
            TokenKind::Less => "<"@,
            TokenKind::LessEqual => "<="@,
            TokenKind::Identifier(name) => name,
            TokenKind::String(text) => text,
            TokenKind::Number(digits) => digits,
            TokenKind::And => "and"@,
            TokenKind::Class => "class"@,
            TokenKind::Else => "else"@,
            TokenKind::False => "false"@,
            TokenKind::Fun => "fun"@,
            TokenKind::For => "for"@,
            TokenKind::If => "if"@,
            TokenKind::Nil => "nil"@,
            TokenKind::Or => "or"@,
            TokenKind::Print => "print"@,
            TokenKind::Return => "return"@,
            TokenKind::Super => "super"@,
            TokenKind::This => "this"@,
            TokenKind::True => "true"@,
            TokenKind::Var => "var"@,
            TokenKind::While => "while"@,
            TokenKind::EOF => "EOF"@,
        }
    }

    /// Whether a literal node of a syntax tree may hold this category.
    pub open spec fn is_literal(self) -> bool {
        self is Identifier || self is String || self is Number || self is True || self is False
            || self is Nil
    }
}

/// A lexical category.
///
/// `Identifier` carries the name, `String` the text between the quotes, and
/// `Number` the digits as written: an integer part, optionally followed by a
/// dot and a fractional part.
#[derive(Debug)]
pub enum TokenType {
    LeftParen,
    RightParen,
    LeftBrace,
    RightBrace,
    Comma,
    Dot,
    Minus,
    Plus,
    Semicolon,
    Slash,
    Star,
    Bang,
    BangEqual,
    Equal,
    EqualEqual,
    Greater,
    GreaterEqual,
    Less,
    LessEqual,
    Identifier(String),
    String(String),
    Number(String),
    And,
    Class,
    Else,
    False,
    Fun,
    For,
    If,
    Nil,
    Or,
    Print,
    Return,
    Super,
    This,
    True,
    Var,
    While,
    EOF,
}

impl View for TokenType {
    type V = TokenKind;

    open spec fn view(&self) -> TokenKind {
        match self {
            TokenType::LeftParen => TokenKind::LeftParen,
            TokenType::RightParen => TokenKind::RightParen,
            TokenType::LeftBrace => TokenKind::LeftBrace,
            TokenType::RightBrace => TokenKind::RightBrace,
            TokenType::Comma => TokenKind::Comma,
            TokenType::Dot => TokenKind::Dot,
            TokenType::Minus => TokenKind::Minus,
            TokenType::Plus => TokenKind::Plus,
            TokenType::Semicolon => TokenKind::Semicolon,
            TokenType::Slash => TokenKind::Slash,
            TokenType::Star => TokenKind::Star,
            TokenType::Bang => TokenKind::Bang,
            TokenType::BangEqual => TokenKind::BangEqual,
            TokenType::Equal => TokenKind::Equal,
            TokenType::EqualEqual => TokenKind::EqualEqual,
            TokenType::Greater => TokenKind::Greater,
            TokenType::GreaterEqual => TokenKind::GreaterEqual,
            TokenType::Less => TokenKind::Less,
            TokenType::LessEqual => TokenKind::LessEqual,
            TokenType::Identifier(name) => TokenKind::Identifier(name@),
            TokenType::String(text) => TokenKind::String(text@),
            TokenType::Number(digits) => TokenKind::Number(digits@),
            TokenType::And => TokenKind::And,
            TokenType::Class => TokenKind::Class,
            TokenType::Else => TokenKind::Else,
            TokenType::False => TokenKind::False,
            TokenType::Fun => TokenKind::Fun,
            TokenType::For => TokenKind::For,
            TokenType::If => TokenKind::If,
            TokenType::Nil => TokenKind::Nil,
            TokenType::Or => TokenKind::Or,
            TokenType::Print => TokenKind::Print,
            TokenType::Return => TokenKind::Return,
            TokenType::Super => TokenKind::Super,
            TokenType::This => TokenKind::This,
            TokenType::True => TokenKind::True,
            TokenType::Var => TokenKind::Var,
            TokenType::While => TokenKind::While,
            TokenType::EOF => TokenKind::EOF,
        }
    }
}

impl Clone for TokenType {
    fn clone(&self) -> (copy: Self)
        ensures
            copy@ == self@,
    {
        match self {
            TokenType::LeftParen => TokenType::LeftParen,
            TokenType::RightParen => TokenType::RightParen,
            TokenType::LeftBrace => TokenType::LeftBrace,
            TokenType::RightBrace => TokenType::RightBrace,
            TokenType::Comma => TokenType::Comma,
            TokenType::Dot => TokenType::Dot,
            TokenType::Minus => TokenType::Minus,
            TokenType::Plus => TokenType::Plus,
            TokenType::Semicolon => TokenType::Semicolon,
            TokenType::Slash => TokenType::Slash,
            TokenType::Star => TokenType::Star,
            TokenType::Bang => TokenType::Bang,
            TokenType::BangEqual => TokenType::BangEqual,
            TokenType::Equal => TokenType::Equal,
            TokenType::EqualEqual => TokenType::EqualEqual,
            TokenType::Greater => TokenType::Greater,
            TokenType::GreaterEqual => TokenType::GreaterEqual,
            TokenType::Less => TokenType::Less,
            TokenType::LessEqual => TokenType::LessEqual,
            TokenType::Identifier(name) => TokenType::Identifier(name.clone()),
            TokenType::String(text) => TokenType::String(text.clone()),
            TokenType::Number(digits) => TokenType::Number(digits.clone()),
            TokenType::And => TokenType::And,
            TokenType::Class => TokenType::Class,
            TokenType::Else => TokenType::Else,
            TokenType::False => TokenType::False,
            TokenType::Fun => TokenType::Fun,
            TokenType::For => TokenType::For,
            TokenType::If => TokenType::If,
            TokenType::Nil => TokenType::Nil,
            TokenType::Or => TokenType::Or,
            TokenType::Print => TokenType::Print,
            TokenType::Return => TokenType::Return,
            TokenType::Super => TokenType::Super,
            TokenType::This => TokenType::This,
            TokenType::True => TokenType::True,
            TokenType::Var => TokenType::Var,
            TokenType::While => TokenType::While,
            TokenType::EOF => TokenType::EOF,
        }
    }
}

impl PartialEq for TokenType {
    fn eq(&self, other: &Self) -> (same: bool) {
        match (self, other) {
            (TokenType::LeftParen, TokenType::LeftParen) => true,
            (TokenType::RightParen, TokenType::RightParen) => true,
            (TokenType::LeftBrace, TokenType::LeftBrace) => true,
            (TokenType::RightBrace, TokenType::RightBrace) => true,
            (TokenType::Comma, TokenType::Comma) => true,
            (TokenType::Dot, TokenType::Dot) => true,
            (TokenType::Minus, TokenType::Minus) => true,
            (TokenType::Plus, TokenType::Plus) => true,
            (TokenType::Semicolon, TokenType::Semicolon) => true,
            (TokenType::Slash, TokenType::Slash) => true,
            (TokenType::Star, TokenType::Star) => true,
            (TokenType::Bang, TokenType::Bang) => true,
            (TokenType::BangEqual, TokenType::BangEqual) => true,
            (TokenType::Equal, TokenType::Equal) => true,
            (TokenType::EqualEqual, TokenType::EqualEqual) => true,
            (TokenType::Greater, TokenType::Greater) => true,
            (TokenType::GreaterEqual, TokenType::GreaterEqual) => true,
            (TokenType::Less, TokenType::Less) => true,
            (TokenType::LessEqual, TokenType::LessEqual) => true,
            (TokenType::Identifier(a), TokenType::Identifier(b)) => *a == *b,
            (TokenType::String(a), TokenType::String(b)) => *a == *b,
            (TokenType::Number(a), TokenType::Number(b)) => *a == *b,
            (TokenType::And, TokenType::And) => true,
            (TokenType::Class, TokenType::Class) => true,
            (TokenType::Else, TokenType::Else) => true,
            (TokenType::False, TokenType::False) => true,
            (TokenType::Fun, TokenType::Fun) => true,
            (TokenType::For, TokenType::For) => true,
            (TokenType::If, TokenType::If) => true,
            (TokenType::Nil, TokenType::Nil) => true,
            (TokenType::Or, TokenType::Or) => true,
            (TokenType::Print, TokenType::Print) => true,
            (TokenType::Return, TokenType::Return) => true,
            (TokenType::Super, TokenType::Super) => true,
            (TokenType::This, TokenType::This) => true,
            (TokenType::True, TokenType::True) => true,
            (TokenType::Var, TokenType::Var) => true,
            (TokenType::While, TokenType::While) => true,
            (TokenType::EOF, TokenType::EOF) => true,
            _ => false,
        }
    }
}

impl vstd::std_specs::cmp::PartialEqSpecImpl for TokenType {
    open spec fn obeys_eq_spec() -> bool {
        true
    }

    open spec fn eq_spec(&self, other: &Self) -> bool {
        self@ == other@
    }
}

impl TokenType {
    /// The text that stands for this category in a rendering.
    pub fn to_string(&self) -> (text: String)
        ensures
            text@ == self@.text(),
    {
        match self {
            TokenType::LeftParen => String::from_str("("),
            TokenType::RightParen => String::from_str(")"),
            TokenType::LeftBrace => String::from_str("{"),
            TokenType::RightBrace => String::from_str("}"),
            TokenType::Comma => String::from_str(","),
            TokenType::Dot => String::from_str("."),
            TokenType::Minus => String::from_str("-"),
            TokenType::Plus => String::from_str("+"),
            TokenType::Semicolon => String::from_str(";"),
            TokenType::Slash => String::from_str("/"),
            TokenType::Star => String::from_str("*"),
            TokenType::Bang => String::from_str("!"),
            TokenType::BangEqual => String::from_str("!="),
            TokenType::Equal => String::from_str("="),
            TokenType::EqualEqual => String::from_str("=="),
            TokenType::Greater => String::from_str(">"),
            TokenType::GreaterEqual => String::from_str(">="),
            TokenType::Less => String::from_str("<"),
            TokenType::LessEqual => String::from_str("<="),
            TokenType::Identifier(name) => name.clone(),
            TokenType::String(text) => text.clone(),
            TokenType::Number(digits) => digits.clone(),
            TokenType::And => String::from_str("and"),
            TokenType::Class => String::from_str("class"),
            TokenType::Else => String::from_str("else"),
            TokenType::False => String::from_str("false"),
            TokenType::Fun => String::from_str("fun"),
            TokenType::For => String::from_str("for"),
            TokenType::If => String::from_str("if"),
            TokenType::Nil => String::from_str("nil"),
            TokenType::Or => String::from_str("or"),
            TokenType::Print => String::from_str("print"),
            TokenType::Return => String::from_str("return"),
            TokenType::Super => String::from_str("super"),
            TokenType::This => String::from_str("this"),
            TokenType::True => String::from_str("true"),
            TokenType::Var => String::from_str("var"),
            TokenType::While => String::from_str("while"),
            TokenType::EOF => String::from_str("EOF"),
        }
    }
}

/// A token as contracts see it: the view of a [`Token`].
pub struct TokenView {
    pub kind: TokenKind,
    pub lexeme: Seq<char>,
    pub line: nat,
}

/// A classified piece of source text with the line it was read on.
#[derive(Debug)]
pub struct Token {
    token_type: TokenType,
    lexeme: String,
    line: usize,
}

impl View for Token {
    type V = TokenView;

    closed spec fn view(&self) -> TokenView {
        TokenView { kind: self.token_type@, lexeme: self.lexeme@, line: self.line as nat }
    }
}

impl Clone for Token {
    fn clone(&self) -> (copy: Self)
        ensures
            copy@ == self@,
    {
        Token { token_type: self.token_type.clone(), lexeme: self.lexeme.clone(), line: self.line }
    }
}

impl PartialEq for Token {
    fn eq(&self, other: &Self) -> (same: bool) {
        self.token_type == other.token_type && self.lexeme == other.lexeme && self.line
            == other.line
    }
}

impl vstd::std_specs::cmp::PartialEqSpecImpl for Token {
    open spec fn obeys_eq_spec() -> bool {
        true
    }

    open spec fn eq_spec(&self, other: &Self) -> bool {
        self@ == other@
    }
}

impl Token {
    /// The token of category `token_type` that was read as `lexeme` on
    /// `line`.
    pub fn new(token_type: TokenType, lexeme: String, line: usize) -> (token: Self)
        ensures
            token@ == (TokenView { kind: token_type@, lexeme: lexeme@, line: line as nat }),
    {
        Token { token_type, lexeme, line }
    }

    /// The category.
    pub fn token_type(&self) -> (token_type: &TokenType)
        ensures
            token_type@ == self@.kind,
    {
        &self.token_type
    }

    /// The source text of the token, empty for the end of input.
    pub fn lexeme(&self) -> (lexeme: &String)
        ensures
            lexeme@ == self@.lexeme,
    {
        &self.lexeme
    }

    /// The line that the token ends on.
    pub fn line(&self) -> (line: usize)
        ensures
            line == self@.line,
    {
        self.line
    }
}

/// The views of a sequence of tokens, in order.
pub open spec fn token_views(tokens: Seq<Token>) -> Seq<TokenView> {
    tokens.map_values(|token: Token| token@)
}

} // verus!

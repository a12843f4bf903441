use rlox::token::{Token, TokenType};

#[test]
fn token_new_keeps_its_parts() {
    let token = Token::new(TokenType::Plus, "+".to_string(), 3);
    assert_eq!(*token.token_type(), TokenType::Plus);
    assert_eq!(token.lexeme(), "+");
    assert_eq!(token.line(), 3);
}

#[test]
fn token_clone_is_equal() {
    let token = Token::new(TokenType::Identifier("name".to_string()), "name".to_string(), 7);
    assert_eq!(token.clone(), token);
}

#[test]
fn tokens_differ_by_each_part() {
    let token = Token::new(TokenType::Minus, "-".to_string(), 1);
    assert_ne!(token, Token::new(TokenType::Plus, "-".to_string(), 1));
    assert_ne!(token, Token::new(TokenType::Minus, "+".to_string(), 1));
    assert_ne!(token, Token::new(TokenType::Minus, "-".to_string(), 2));
}

#[test]
fn token_types_compare_payloads() {
    assert_eq!(TokenType::Number("1.5".to_string()), TokenType::Number("1.5".to_string()));
    assert_ne!(TokenType::Number("1.5".to_string()), TokenType::Number("1.50".to_string()));
    assert_ne!(TokenType::Number("1".to_string()), TokenType::String("1".to_string()));
    assert_ne!(TokenType::Identifier("nil".to_string()), TokenType::Nil);
    assert_eq!(TokenType::EOF, TokenType::EOF);
    assert_ne!(TokenType::Less, TokenType::LessEqual);
}

#[test]
fn token_type_texts_of_punctuation_and_operators() {
    let expected = [
        (TokenType::LeftParen, "("),
        (TokenType::RightParen, ")"),
        (TokenType::LeftBrace, "{"),
        (TokenType::RightBrace, "}"),
        (TokenType::Comma, ","),
        (TokenType::Dot, "."),
        (TokenType::Minus, "-"),
        (TokenType::Plus, "+"),
        (TokenType::Semicolon, ";"),
        (TokenType::Slash, "/"),
        (TokenType::Star, "*"),
        (TokenType::Bang, "!"),
        (TokenType::BangEqual, "!="),
        (TokenType::Equal, "="),
        (TokenType::EqualEqual, "=="),
        (TokenType::Greater, ">"),
        (TokenType::GreaterEqual, ">="),
        (TokenType::Less, "<"),
        (TokenType::LessEqual, "<="),
    ];
    for (token_type, text) in expected {
        assert_eq!(token_type.to_string(), text);
    }
}

#[test]
fn token_type_texts_of_keywords_and_eof() {
    let expected = [
        (TokenType::And, "and"),
        (TokenType::Class, "class"),
        (TokenType::Else, "else"),
        (TokenType::False, "false"),
        (TokenType::Fun, "fun"),
        (TokenType::For, "for"),
        (TokenType::If, "if"),
        (TokenType::Nil, "nil"),
        (TokenType::Or, "or"),
        (TokenType::Print, "print"),
        (TokenType::Return, "return"),
        (TokenType::Super, "super"),
        (TokenType::This, "this"),
        (TokenType::True, "true"),
        (TokenType::Var, "var"),
        (TokenType::While, "while"),
        (TokenType::EOF, "EOF"),
    ];
    for (token_type, text) in expected {
        assert_eq!(token_type.to_string(), text);
    }
}

#[test]
fn token_type_texts_of_literals() {
    assert_eq!(TokenType::Identifier("count".to_string()).to_string(), "count");
    assert_eq!(TokenType::String("two words".to_string()).to_string(), "two words");
    assert_eq!(TokenType::Number("123.45".to_string()).to_string(), "123.45");
}

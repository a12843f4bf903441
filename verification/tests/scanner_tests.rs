use rlox::error::RLoxError;
use rlox::lexical::Symbol;
use rlox::scanner::Scanner;
use rlox::token::{Token, TokenType};

fn scan(source: &str) -> Result<Vec<Token>, RLoxError> {
    Scanner::new(source.to_string()).scan_tokens()
}

fn kinds(source: &str) -> Vec<TokenType> {
    scan(source).unwrap().iter().map(|token| token.token_type().clone()).collect()
}

fn eof(line: usize) -> Token {
    Token::new(TokenType::EOF, String::new(), line)
}

fn number(digits: &str) -> TokenType {
    TokenType::Number(digits.to_string())
}

fn fault(line: usize, message: &str) -> RLoxError {
    RLoxError::Source { line, location: String::new(), message: message.to_string() }
}

#[test]
fn empty_source_is_one_eof() {
    assert_eq!(scan("").unwrap(), vec![eof(1)]);
}

#[test]
fn blanks_are_one_eof() {
    assert_eq!(scan(" \t\r ").unwrap(), vec![eof(1)]);
}

#[test]
fn line_feeds_move_the_eof_down() {
    assert_eq!(scan("\n\n \n").unwrap(), vec![eof(4)]);
}

#[test]
fn comment_is_one_eof() {
    assert_eq!(scan("// nothing here").unwrap(), vec![eof(1)]);
}

#[test]
fn comments_and_blanks_are_one_eof() {
    assert_eq!(scan("  // one\n\t// two ( + \"\n\n // three").unwrap(), vec![eof(4)]);
}

#[test]
fn comment_ends_at_the_line_feed() {
    assert_eq!(
        scan("// note\n+").unwrap(),
        vec![Token::new(TokenType::Plus, "+".to_string(), 2), eof(2)]
    );
}

#[test]
fn single_character_tokens_carry_their_character() {
    let expected = [
        ("(", TokenType::LeftParen),
        (")", TokenType::RightParen),
        ("{", TokenType::LeftBrace),
        ("}", TokenType::RightBrace),
        (",", TokenType::Comma),
        (".", TokenType::Dot),
        ("-", TokenType::Minus),
        ("+", TokenType::Plus),
        (";", TokenType::Semicolon),
        ("/", TokenType::Slash),
        ("*", TokenType::Star),
        ("!", TokenType::Bang),
        ("=", TokenType::Equal),
        ("<", TokenType::Less),
        (">", TokenType::Greater),
    ];
    for (source, token_type) in expected {
        assert_eq!(scan(source).unwrap(), vec![Token::new(token_type, source.to_string(), 1), eof(1)]);
    }
}

#[test]
fn punctuation_in_a_row() {
    assert_eq!(
        kinds("(){},.-+;*/"),
        vec![
            TokenType::LeftParen,
            TokenType::RightParen,
            TokenType::LeftBrace,
            TokenType::RightBrace,
            TokenType::Comma,
            TokenType::Dot,
            TokenType::Minus,
            TokenType::Plus,
            TokenType::Semicolon,
            TokenType::Star,
            TokenType::Slash,
            TokenType::EOF,
        ]
    );
}

#[test]
fn two_character_operators_are_one_token() {
    let expected = [
        ("!=", TokenType::BangEqual),
        ("==", TokenType::EqualEqual),
        ("<=", TokenType::LessEqual),
        (">=", TokenType::GreaterEqual),
    ];
    for (source, token_type) in expected {
        assert_eq!(scan(source).unwrap(), vec![Token::new(token_type, source.to_string(), 1), eof(1)]);
    }
}

#[test]
fn less_equal_is_not_less_then_equal() {
    assert_eq!(kinds("<="), vec![TokenType::LessEqual, TokenType::EOF]);
    assert_eq!(kinds("< ="), vec![TokenType::Less, TokenType::Equal, TokenType::EOF]);
}

#[test]
fn operators_take_the_longest_match() {
    assert_eq!(
        kinds("!===<==>"),
        vec![
            TokenType::BangEqual,
            TokenType::EqualEqual,
            TokenType::LessEqual,
            TokenType::Equal,
            TokenType::Greater,
            TokenType::EOF,
        ]
    );
}

#[test]
fn string_literal_carries_the_inner_text() {
    assert_eq!(
        scan("\"abc\"").unwrap(),
        vec![Token::new(TokenType::String("abc".to_string()), "\"abc\"".to_string(), 1), eof(1)]
    );
}

#[test]
fn empty_string_literal() {
    assert_eq!(
        scan("\"\"").unwrap(),
        vec![Token::new(TokenType::String(String::new()), "\"\"".to_string(), 1), eof(1)]
    );
}

#[test]
fn string_literal_over_several_lines() {
    assert_eq!(
        scan("\"one\ntwo\nthree\" +").unwrap(),
        vec![
            Token::new(
                TokenType::String("one\ntwo\nthree".to_string()),
                "\"one\ntwo\nthree\"".to_string(),
                3
            ),
            Token::new(TokenType::Plus, "+".to_string(), 3),
            eof(3),
        ]
    );
}

#[test]
fn string_literal_keeps_what_looks_like_a_comment() {
    assert_eq!(
        kinds("\"a // b\""),
        vec![TokenType::String("a // b".to_string()), TokenType::EOF]
    );
}

#[test]
fn unterminated_string_is_a_fault() {
    assert_eq!(scan("\"abc").unwrap_err(), fault(1, "unterminated string"));
}

#[test]
fn unterminated_string_reports_the_last_line() {
    assert_eq!(scan("1 +\n\"abc\ndef\n").unwrap_err(), fault(4, "unterminated string"));
}

#[test]
fn whole_number() {
    let tokens = scan("123").unwrap();
    assert_eq!(tokens, vec![Token::new(number("123"), "123".to_string(), 1), eof(1)]);
    match tokens[0].token_type() {
        TokenType::Number(digits) => assert_eq!(digits.parse::<f64>().unwrap(), 123.0),
        other => panic!("not a number: {:?}", other),
    }
}

#[test]
fn number_with_a_fraction() {
    let tokens = scan("123.45").unwrap();
    assert_eq!(tokens, vec![Token::new(number("123.45"), "123.45".to_string(), 1), eof(1)]);
    match tokens[0].token_type() {
        TokenType::Number(digits) => assert_eq!(digits.parse::<f64>().unwrap(), 123.45),
        other => panic!("not a number: {:?}", other),
    }
}

#[test]
fn number_does_not_take_a_trailing_dot() {
    assert_eq!(
        scan("123.").unwrap(),
        vec![
            Token::new(number("123"), "123".to_string(), 1),
            Token::new(TokenType::Dot, ".".to_string(), 1),
            eof(1),
        ]
    );
}

#[test]
fn number_takes_one_fraction_only() {
    assert_eq!(kinds("1.2.3"), vec![number("1.2"), TokenType::Dot, number("3"), TokenType::EOF]);
}

#[test]
fn dot_before_digits_is_a_dot() {
    assert_eq!(kinds(".5"), vec![TokenType::Dot, number("5"), TokenType::EOF]);
}

#[test]
fn number_ends_at_a_letter() {
    assert_eq!(
        kinds("12ab"),
        vec![number("12"), TokenType::Identifier("ab".to_string()), TokenType::EOF]
    );
}

#[test]
fn keywords_have_their_own_kinds() {
    let expected = [
        ("and", TokenType::And),
        ("class", TokenType::Class),
        ("else", TokenType::Else),
        ("false", TokenType::False),
        ("for", TokenType::For),
        ("fun", TokenType::Fun),
        ("if", TokenType::If),
        ("nil", TokenType::Nil),
        ("or", TokenType::Or),
        ("print", TokenType::Print),
        ("return", TokenType::Return),
        ("super", TokenType::Super),
        ("this", TokenType::This),
        ("true", TokenType::True),
        ("var", TokenType::Var),
        ("while", TokenType::While),
    ];
    for (source, token_type) in expected {
        assert_eq!(scan(source).unwrap(), vec![Token::new(token_type, source.to_string(), 1), eof(1)]);
    }
}

#[test]
fn other_words_are_identifiers() {
    for source in ["x", "andy", "And", "classes", "foo_bar1", "whil", "nil_", "orchid", "été"] {
        assert_eq!(
            scan(source).unwrap(),
            vec![
                Token::new(TokenType::Identifier(source.to_string()), source.to_string(), 1),
                eof(1)
            ]
        );
    }
}

#[test]
fn identifier_may_hold_digits_and_underscores() {
    assert_eq!(
        kinds("a1_b2 c"),
        vec![
            TokenType::Identifier("a1_b2".to_string()),
            TokenType::Identifier("c".to_string()),
            TokenType::EOF,
        ]
    );
}

#[test]
fn underscore_does_not_start_a_word() {
    assert_eq!(scan("_x").unwrap_err(), fault(1, "unknown character: _"));
}

#[test]
fn unknown_character_is_a_fault() {
    assert_eq!(scan("@").unwrap_err(), fault(1, "unknown character: @"));
}

#[test]
fn unknown_character_reports_its_line() {
    assert_eq!(scan("1\n2\n  #").unwrap_err(), fault(3, "unknown character: #"));
}

#[test]
fn fault_drops_the_tokens_before_it() {
    assert!(scan("1 + 2 $ 3").is_err());
}

#[test]
fn tokens_carry_their_lines() {
    let tokens = scan("1\n+ 2\n\n3").unwrap();
    let lines: Vec<usize> = tokens.iter().map(|token| token.line()).collect();
    assert_eq!(lines, vec![1, 2, 2, 4, 4]);
}

#[test]
fn expression_scans_to_its_tokens() {
    assert_eq!(
        scan("(1 + 2) * -x != \"s\"").unwrap(),
        vec![
            Token::new(TokenType::LeftParen, "(".to_string(), 1),
            Token::new(number("1"), "1".to_string(), 1),
            Token::new(TokenType::Plus, "+".to_string(), 1),
            Token::new(number("2"), "2".to_string(), 1),
            Token::new(TokenType::RightParen, ")".to_string(), 1),
            Token::new(TokenType::Star, "*".to_string(), 1),
            Token::new(TokenType::Minus, "-".to_string(), 1),
            Token::new(TokenType::Identifier("x".to_string()), "x".to_string(), 1),
            Token::new(TokenType::BangEqual, "!=".to_string(), 1),
            Token::new(TokenType::String("s".to_string()), "\"s\"".to_string(), 1),
            eof(1),
        ]
    );
}

#[test]
fn next_yields_each_token_then_eof_then_nothing() {
    let mut scanner = Scanner::new("a + 1".to_string());
    assert_eq!(
        scanner.next(),
        Some(Ok(Token::new(TokenType::Identifier("a".to_string()), "a".to_string(), 1)))
    );
    assert_eq!(scanner.next(), Some(Ok(Token::new(TokenType::Plus, "+".to_string(), 1))));
    assert_eq!(scanner.next(), Some(Ok(Token::new(number("1"), "1".to_string(), 1))));
    assert_eq!(scanner.next(), Some(Ok(eof(1))));
    assert_eq!(scanner.next(), None);
    assert_eq!(scanner.next(), None);
}

#[test]
fn next_yields_a_fault_once() {
    let mut scanner = Scanner::new("1 ? 2".to_string());
    assert_eq!(scanner.next(), Some(Ok(Token::new(number("1"), "1".to_string(), 1))));
    assert_eq!(scanner.next(), Some(Err(fault(1, "unknown character: ?"))));
    assert_eq!(scanner.next(), None);
}

#[test]
fn scan_tokens_yields_what_is_left() {
    let mut scanner = Scanner::new("1 2".to_string());
    assert_eq!(scanner.next(), Some(Ok(Token::new(number("1"), "1".to_string(), 1))));
    assert_eq!(scanner.scan_tokens().unwrap(), vec![Token::new(number("2"), "2".to_string(), 1), eof(1)]);
    assert_eq!(scanner.scan_tokens().unwrap(), vec![]);
}

#[test]
fn every_scan_ends_with_one_eof() {
    for source in ["", "1", "1 + 2", "a\nb\n", "// c", "(\"x\")"] {
        let tokens = scan(source).unwrap();
        let eofs = tokens.iter().filter(|token| *token.token_type() == TokenType::EOF).count();
        assert_eq!(eofs, 1);
        assert_eq!(*tokens.last().unwrap().token_type(), TokenType::EOF);
        assert_eq!(tokens.last().unwrap().lexeme(), "");
    }
}

#[test]
fn letters_beyond_ascii_make_words() {
    assert_eq!(
        kinds("größe + 1"),
        vec![
            TokenType::Identifier("größe".to_string()),
            TokenType::Plus,
            number("1"),
            TokenType::EOF,
        ]
    );
}

#[test]
fn classify_asks_unicode() {
    assert_eq!(Symbol::classify('a'), Symbol::new('a', true, true));
    assert_eq!(Symbol::classify('Z'), Symbol::new('Z', true, true));
    assert_eq!(Symbol::classify('7'), Symbol::new('7', false, true));
    assert_eq!(Symbol::classify('_'), Symbol::new('_', false, false));
    assert_eq!(Symbol::classify('+'), Symbol::new('+', false, false));
    assert_eq!(Symbol::classify('\n'), Symbol::new('\n', false, false));
    assert_eq!(Symbol::classify('\0'), Symbol::new('\0', false, false));
    assert_eq!(Symbol::classify('é'), Symbol::new('é', true, true));
    assert_eq!(Symbol::classify('京'), Symbol::new('京', true, true));
    assert_eq!(Symbol::classify('٣'), Symbol::new('٣', false, true));
}

#[test]
fn with_classes_needs_one_entry_for_each_character() {
    assert!(Scanner::with_classes("ab".to_string(), vec![true], vec![true, true]).is_none());
    assert!(Scanner::with_classes("ab".to_string(), vec![true, true], vec![true]).is_none());
    assert!(Scanner::with_classes("ab".to_string(), vec![true, true, true], vec![true, true])
        .is_none());
    assert!(Scanner::with_classes("é".to_string(), vec![true, true], vec![true, true]).is_none());
    assert!(Scanner::with_classes("é".to_string(), vec![true], vec![true]).is_some());
    assert!(Scanner::with_classes(String::new(), vec![], vec![]).is_some());
}

#[test]
fn with_classes_as_unicode_has_them_scans_as_new_does() {
    let source = "or x1 + 2";
    let alphabetic: Vec<bool> = source.chars().map(|c| c.is_alphabetic()).collect();
    let alphanumeric: Vec<bool> = source.chars().map(|c| c.is_alphanumeric()).collect();
    let mut scanner = Scanner::with_classes(source.to_string(), alphabetic, alphanumeric).unwrap();
    assert_eq!(scanner.scan_tokens().unwrap(), scan(source).unwrap());
}

#[test]
fn with_classes_takes_letters_as_told() {
    // No character counts as a letter: a word is a fault.
    let mut scanner =
        Scanner::with_classes("or".to_string(), vec![false, false], vec![false, false]).unwrap();
    assert_eq!(scanner.scan_tokens().unwrap_err(), fault(1, "unknown character: o"));
    // `$` counts as a letter and `-` as alphanumeric: `$-` is an identifier.
    let mut scanner =
        Scanner::with_classes("$-".to_string(), vec![true, false], vec![false, true]).unwrap();
    assert_eq!(
        scanner.scan_tokens().unwrap(),
        vec![Token::new(TokenType::Identifier("$-".to_string()), "$-".to_string(), 1), eof(1)]
    );
    // A character with another meaning keeps it, whatever it counts as.
    let mut scanner = Scanner::with_classes("+".to_string(), vec![true], vec![true]).unwrap();
    assert_eq!(
        scanner.scan_tokens().unwrap(),
        vec![Token::new(TokenType::Plus, "+".to_string(), 1), eof(1)]
    );
    // The word ends where a character does not count as alphanumeric.
    let mut scanner =
        Scanner::with_classes("abc".to_string(), vec![true, true, true], vec![true, true, false])
            .unwrap();
    assert_eq!(
        scanner.scan_tokens().unwrap(),
        vec![
            Token::new(TokenType::Identifier("ab".to_string()), "ab".to_string(), 1),
            Token::new(TokenType::Identifier("c".to_string()), "c".to_string(), 1),
            eof(1)
        ]
    );
}

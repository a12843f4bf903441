use rlox::ast::{ASTNode, BinaryNode, GroupingNode, LiteralNode, UnaryNode};
use rlox::parser::Parser;
use rlox::scanner::Scanner;
use rlox::token::{Token, TokenType};

fn parse(source: &str) -> ASTNode {
    let tokens = Scanner::new(source.to_string()).scan_tokens().unwrap();
    Parser::new(tokens).parse()
}

fn number(digits: &str) -> ASTNode {
    ASTNode::Literal(LiteralNode::new(TokenType::Number(digits.to_string())))
}

fn string(text: &str) -> ASTNode {
    ASTNode::Literal(LiteralNode::new(TokenType::String(text.to_string())))
}

fn literal(token_type: TokenType) -> ASTNode {
    ASTNode::Literal(LiteralNode::new(token_type))
}

fn operator(token_type: TokenType) -> Token {
    let lexeme = token_type.to_string();
    Token::new(token_type, lexeme, 1)
}

fn binary(left: ASTNode, token_type: TokenType, right: ASTNode) -> ASTNode {
    ASTNode::Binary(BinaryNode::new(left, operator(token_type), right))
}

fn unary(token_type: TokenType, child: ASTNode) -> ASTNode {
    ASTNode::Unary(UnaryNode::new(operator(token_type), child))
}

fn grouping(child: ASTNode) -> ASTNode {
    ASTNode::Grouping(GroupingNode::new(child))
}

#[test]
fn multiplication_binds_tighter_than_addition() {
    assert_eq!(
        parse("1 + 2 * 3"),
        binary(number("1"), TokenType::Plus, binary(number("2"), TokenType::Star, number("3")))
    );
}

#[test]
fn multiplication_before_addition_on_the_left() {
    assert_eq!(
        parse("1 * 2 + 3"),
        binary(binary(number("1"), TokenType::Star, number("2")), TokenType::Plus, number("3"))
    );
}

#[test]
fn equality_nests_from_the_left() {
    assert_eq!(
        parse("1 == 2 == 3"),
        binary(
            binary(number("1"), TokenType::EqualEqual, number("2")),
            TokenType::EqualEqual,
            number("3")
        )
    );
}

#[test]
fn subtraction_nests_from_the_left() {
    assert_eq!(
        parse("1 - 2 - 3 + 4"),
        binary(
            binary(binary(number("1"), TokenType::Minus, number("2")), TokenType::Minus, number("3")),
            TokenType::Plus,
            number("4")
        )
    );
}

#[test]
fn division_nests_from_the_left() {
    assert_eq!(
        parse("8 / 4 / 2"),
        binary(binary(number("8"), TokenType::Slash, number("4")), TokenType::Slash, number("2"))
    );
}

#[test]
fn all_levels_in_one_expression() {
    assert_eq!(
        parse("1 != 2 < 3 + 4 * -5"),
        binary(
            number("1"),
            TokenType::BangEqual,
            binary(
                number("2"),
                TokenType::Less,
                binary(
                    number("3"),
                    TokenType::Plus,
                    binary(number("4"), TokenType::Star, unary(TokenType::Minus, number("5")))
                )
            )
        )
    );
}

#[test]
fn comparison_operators() {
    for token_type in
        [TokenType::Greater, TokenType::GreaterEqual, TokenType::Less, TokenType::LessEqual]
    {
        let source = format!("1 {} 2", token_type.to_string());
        assert_eq!(parse(&source), binary(number("1"), token_type, number("2")));
    }
}

#[test]
fn missing_closing_paren_is_an_error_node() {
    assert_eq!(parse("(1 + 2"), ASTNode::Error);
}

#[test]
fn grouping_holds_its_expression() {
    assert_eq!(parse("(1 + 2)"), grouping(binary(number("1"), TokenType::Plus, number("2"))));
}

#[test]
fn grouping_overrides_precedence() {
    assert_eq!(
        parse("(1 + 2) * 3"),
        binary(
            grouping(binary(number("1"), TokenType::Plus, number("2"))),
            TokenType::Star,
            number("3")
        )
    );
}

#[test]
fn nested_groupings() {
    assert_eq!(parse("((nil))"), grouping(grouping(literal(TokenType::Nil))));
}

#[test]
fn literals() {
    assert_eq!(parse("true"), literal(TokenType::True));
    assert_eq!(parse("false"), literal(TokenType::False));
    assert_eq!(parse("nil"), literal(TokenType::Nil));
    assert_eq!(parse("12.5"), number("12.5"));
    assert_eq!(parse("\"text\""), string("text"));
}

#[test]
fn prefix_operators_nest_from_the_right() {
    assert_eq!(
        parse("!-!true"),
        unary(
            TokenType::Bang,
            unary(TokenType::Minus, unary(TokenType::Bang, literal(TokenType::True)))
        )
    );
}

#[test]
fn minus_is_prefix_and_infix() {
    assert_eq!(
        parse("1 - -2"),
        binary(number("1"), TokenType::Minus, unary(TokenType::Minus, number("2")))
    );
}

#[test]
fn empty_input_is_an_error_node() {
    assert_eq!(parse(""), ASTNode::Error);
}

#[test]
fn missing_operand_is_an_error_node_in_its_place() {
    assert_eq!(parse("1 +"), binary(number("1"), TokenType::Plus, ASTNode::Error));
}

#[test]
fn identifier_is_an_error_node() {
    assert_eq!(parse("x"), ASTNode::Error);
    assert_eq!(parse("1 + x"), binary(number("1"), TokenType::Plus, ASTNode::Error));
}

#[test]
fn stray_token_is_taken_and_reading_goes_on() {
    assert_eq!(parse(") + 1"), binary(ASTNode::Error, TokenType::Plus, number("1")));
}

#[test]
fn wrong_token_for_the_closing_paren_is_not_taken() {
    assert_eq!(parse("(1 2) + 3"), ASTNode::Error);
    assert_eq!(parse("(1 + 2 * 3"), ASTNode::Error);
    assert_eq!(parse("(1 + 3"), ASTNode::Error);
    assert_eq!(parse("(1 ( + 3"), ASTNode::Error);
    let mut parser = Parser::new(Scanner::new("(1 * 3".to_string()).scan_tokens().unwrap());
    assert_eq!(parser.parse(), ASTNode::Error);
    assert_eq!(parser.parse(), ASTNode::Error);
}

#[test]
fn error_in_a_group_leaves_the_operator_behind_it() {
    let mut parser = Parser::new(Scanner::new("(1 2 + 3".to_string()).scan_tokens().unwrap());
    assert_eq!(parser.parse(), ASTNode::Error);
    assert_eq!(parser.parse(), binary(number("2"), TokenType::Plus, number("3")));
    assert_eq!(parser.parse(), ASTNode::Error);
}

#[test]
fn parse_stops_behind_the_expression() {
    let mut parser = Parser::new(Scanner::new("1 2".to_string()).scan_tokens().unwrap());
    assert_eq!(parser.parse(), number("1"));
    assert_eq!(parser.parse(), number("2"));
    assert_eq!(parser.parse(), ASTNode::Error);
    assert_eq!(parser.parse(), ASTNode::Error);
}

#[test]
fn operator_tokens_keep_their_lines() {
    let tree = parse("1\n+\n2");
    let plus = Token::new(TokenType::Plus, "+".to_string(), 2);
    assert_eq!(tree, ASTNode::Binary(BinaryNode::new(number("1"), plus, number("2"))));
}

#[test]
fn parser_reads_tokens_made_by_hand() {
    let tokens = vec![
        Token::new(TokenType::Bang, "!".to_string(), 1),
        Token::new(TokenType::False, "false".to_string(), 1),
        Token::new(TokenType::EOF, String::new(), 1),
    ];
    assert_eq!(Parser::new(tokens).parse(), unary(TokenType::Bang, literal(TokenType::False)));
}

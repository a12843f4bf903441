use rlox::ast::{ASTNode, BinaryNode, GroupingNode, LiteralNode, UnaryNode};
use rlox::token::{Token, TokenType};

fn number(digits: &str) -> ASTNode {
    ASTNode::Literal(LiteralNode::new(TokenType::Number(digits.to_string())))
}

fn operator(token_type: TokenType) -> Token {
    let lexeme = token_type.to_string();
    Token::new(token_type, lexeme, 1)
}

#[test]
fn literal_is_one_declaration() {
    assert_eq!(number("7").pretty_print(), "digraph G {\n\"7_0\"[label=\"7\"];\n}");
}

#[test]
fn error_node_is_a_leaf_labelled_error() {
    assert_eq!(ASTNode::Error.pretty_print(), "digraph G {\n\"ERROR_0\"[label=\"ERROR\"];\n}");
}

#[test]
fn binary_of_two_literals() {
    let tree = ASTNode::Binary(BinaryNode::new(
        number("11.33"),
        operator(TokenType::Plus),
        number("145.21"),
    ));
    let expected = "digraph G {\n\
        \"+_0\"[label=\"+\"];\n\
        \"11.33_1\"[label=\"11.33\"];\n\
        \"145.21_1\"[label=\"145.21\"];\n\
        \"+_0\" -> \"11.33_1\";\n\
        \"+_0\" -> \"145.21_1\";\n\
        }";
    let pretty = tree.pretty_print();
    assert_eq!(pretty, expected);
    assert_eq!(pretty.matches("[label=").count(), 3);
    assert_eq!(pretty.matches(" -> ").count(), 2);
}

#[test]
fn binary_of_two_equal_literals_repeats_the_name() {
    let tree =
        ASTNode::Binary(BinaryNode::new(number("1"), operator(TokenType::Star), number("1")));
    let expected = "digraph G {\n\
        \"*_0\"[label=\"*\"];\n\
        \"1_1\"[label=\"1\"];\n\
        \"1_1\"[label=\"1\"];\n\
        \"*_0\" -> \"1_1\";\n\
        \"*_0\" -> \"1_1\";\n\
        }";
    assert_eq!(tree.pretty_print(), expected);
}

#[test]
fn grouping_is_named_group_and_labelled_with_parens() {
    let tree = ASTNode::Grouping(GroupingNode::new(ASTNode::Literal(LiteralNode::new(
        TokenType::Nil,
    ))));
    let expected = "digraph G {\n\
        \"group_0\"[label=\"()\"];\n\
        \"nil_1\"[label=\"nil\"];\n\
        \"group_0\" -> \"nil_1\";\n\
        }";
    assert_eq!(tree.pretty_print(), expected);
}

#[test]
fn unary_has_one_edge() {
    let tree = ASTNode::Unary(UnaryNode::new(
        operator(TokenType::Bang),
        ASTNode::Literal(LiteralNode::new(TokenType::True)),
    ));
    let expected = "digraph G {\n\
        \"!_0\"[label=\"!\"];\n\
        \"true_1\"[label=\"true\"];\n\
        \"!_0\" -> \"true_1\";\n\
        }";
    assert_eq!(tree.pretty_print(), expected);
}

#[test]
fn string_literal_is_labelled_with_its_text() {
    let tree = ASTNode::Literal(LiteralNode::new(TokenType::String("two words".to_string())));
    assert_eq!(tree.pretty_print(), "digraph G {\n\"two words_0\"[label=\"two words\"];\n}");
}

#[test]
fn children_are_rendered_before_the_edges() {
    let product =
        ASTNode::Binary(BinaryNode::new(number("2"), operator(TokenType::Star), number("3")));
    let tree = ASTNode::Binary(BinaryNode::new(number("1"), operator(TokenType::Plus), product));
    let expected = "digraph G {\n\
        \"+_0\"[label=\"+\"];\n\
        \"1_1\"[label=\"1\"];\n\
        \"*_1\"[label=\"*\"];\n\
        \"2_2\"[label=\"2\"];\n\
        \"3_2\"[label=\"3\"];\n\
        \"*_1\" -> \"2_2\";\n\
        \"*_1\" -> \"3_2\";\n\
        \"+_0\" -> \"1_1\";\n\
        \"+_0\" -> \"*_1\";\n\
        }";
    assert_eq!(tree.pretty_print(), expected);
}

#[test]
fn depth_of_ten_and_more_is_written_in_decimal() {
    let mut tree = ASTNode::Literal(LiteralNode::new(TokenType::Nil));
    for _ in 0..12 {
        tree = ASTNode::Grouping(GroupingNode::new(tree));
    }
    let pretty = tree.pretty_print();
    assert!(pretty.contains("\"group_9\" -> \"group_10\";\n"));
    assert!(pretty.contains("\"group_10\" -> \"group_11\";\n"));
    assert!(pretty.contains("\"group_11\" -> \"nil_12\";\n"));
    assert!(pretty.contains("\"nil_12\"[label=\"nil\"];\n"));
}

#[test]
fn error_in_a_tree_is_rendered_in_its_place() {
    let tree =
        ASTNode::Binary(BinaryNode::new(number("1"), operator(TokenType::Minus), ASTNode::Error));
    let expected = "digraph G {\n\
        \"-_0\"[label=\"-\"];\n\
        \"1_1\"[label=\"1\"];\n\
        \"ERROR_1\"[label=\"ERROR\"];\n\
        \"-_0\" -> \"1_1\";\n\
        \"-_0\" -> \"ERROR_1\";\n\
        }";
    assert_eq!(tree.pretty_print(), expected);
}

use rlox::ast::{ASTNode, BinaryNode, GroupingNode, LiteralNode, UnaryNode};
use rlox::token::{Token, TokenType};

fn number(digits: &str) -> ASTNode {
    ASTNode::Literal(LiteralNode::new(TokenType::Number(digits.to_string())))
}

#[test]
fn binary_node_gives_back_its_parts() {
    let plus = Token::new(TokenType::Plus, "+".to_string(), 4);
    let node = BinaryNode::new(number("1"), plus.clone(), ASTNode::Error);
    assert_eq!(*node.left(), number("1"));
    assert_eq!(*node.operator(), plus);
    assert_eq!(*node.right(), ASTNode::Error);
}

#[test]
fn grouping_node_gives_back_its_child() {
    let node = GroupingNode::new(number("2"));
    assert_eq!(*node.child(), number("2"));
}

#[test]
fn literal_node_gives_back_its_value() {
    let node = LiteralNode::new(TokenType::String("s".to_string()));
    assert_eq!(*node.value(), TokenType::String("s".to_string()));
}

#[test]
fn unary_node_gives_back_its_parts() {
    let bang = Token::new(TokenType::Bang, "!".to_string(), 1);
    let node = UnaryNode::new(bang.clone(), number("3"));
    assert_eq!(*node.operator(), bang);
    assert_eq!(*node.child(), number("3"));
}

#[test]
fn trees_compare_by_their_nodes() {
    let minus = Token::new(TokenType::Minus, "-".to_string(), 1);
    let one = ASTNode::Unary(UnaryNode::new(minus.clone(), number("1")));
    let same = ASTNode::Unary(UnaryNode::new(minus.clone(), number("1")));
    let other = ASTNode::Unary(UnaryNode::new(minus, number("2")));
    assert_eq!(one, same);
    assert_ne!(one, other);
    assert_ne!(one, ASTNode::Grouping(GroupingNode::new(number("1"))));
}

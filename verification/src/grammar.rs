//! The grammar of expressions: which syntax tree a sequence of tokens
//! stands for, stated over sequences of token views.
//!
//! ```text
//! expression     -> equality
//! equality       -> comparison ( ( "!=" | "==" ) comparison )*
//! comparison     -> addition ( ( ">" | ">=" | "<" | "<=" ) addition )*
//! addition       -> multiplication ( ( "-" | "+" ) multiplication )*
//! multiplication -> unary ( ( "/" | "*" ) unary )*
//! unary          -> ( "!" | "-" ) unary | primary
//! primary        -> "false" | "true" | "nil" | NUMBER | STRING
//!                 | "(" expression ")"
//! ```
//!
//! The binary operators associate to the left. Where the tokens do not fit
//! the grammar, the tree holds an `Error` node in the place of the
//! expression that is at fault, and reading goes on behind the last token
//! that was taken: nothing is skipped to find a place to start again.

use crate::ast::NodeView;
use crate::token::{TokenKind, TokenView};
use vstd::prelude::*;

verus! {

/// A tree and the number of tokens that were read to build it.
pub struct Parsed {
    pub node: NodeView,
    pub consumed: nat,
}

/// The four levels of binary operators, from the one that binds least.
pub enum Level {
    Equality,
    Comparison,
    Addition,
    Multiplication,
}

impl Level {
    /// Whether `kind` is an operator of this level.
    pub open spec fn has_operator(self, kind: TokenKind) -> bool {
        match self {
            Level::Equality => kind is BangEqual || kind is EqualEqual,
            Level::Comparison => kind is Greater || kind is GreaterEqual || kind is Less
                || kind is LessEqual,
            Level::Addition => kind is Minus || kind is Plus,
            Level::Multiplication => kind is Slash || kind is Star,
        }
    }

    /// How far this level is from the operands: 0 for multiplication, 3 for
    /// equality.
    pub open spec fn rank(self) -> nat {
        match self {
            Level::Equality => 3,
            Level::Comparison => 2,
            Level::Addition => 1,
            Level::Multiplication => 0,
        }
    }
}

/// Whether `kind` is an operator that stands before its operand.
pub open spec fn is_prefix_operator(kind: TokenKind) -> bool {
    kind is Bang || kind is Minus
}

/// The category of the token at `pos`, and that of the end of input where
/// `pos` is no place in `tokens`.
pub open spec fn kind_at(tokens: Seq<TokenView>, pos: int) -> TokenKind {
    if 0 <= pos < tokens.len() {
        tokens[pos].kind
    } else {
        TokenKind::EOF
    }
}

/// The distance from `pos` to the end of `tokens`.
pub open spec fn tokens_left(tokens: Seq<TokenView>, pos: int) -> nat {
    if pos < tokens.len() {
        (tokens.len() - pos) as nat
    } else {
        0
    }
}

/// `primary`: a literal, or an expression in parentheses. At the end of
/// input it is an error that takes no token; any other token that starts no
/// primary is taken and gives an error. Where the closing parenthesis is
/// missing, the group is an error and the token in its place is not taken.
pub open spec fn parse_primary(tokens: Seq<TokenView>, pos: int) -> Parsed
    decreases tokens_left(tokens, pos), 0nat,
{
    let kind = kind_at(tokens, pos);
    match kind {
        TokenKind::False | TokenKind::True | TokenKind::Nil | TokenKind::Number(_)
        | TokenKind::String(_) => Parsed { node: NodeView::Literal { value: kind }, consumed: 1 },
        TokenKind::LeftParen => {
            let inner = parse_expression(tokens, pos + 1);
            if kind_at(tokens, pos + 1 + inner.consumed) is RightParen {
                Parsed {
                    node: NodeView::Grouping { child: Box::new(inner.node) },
                    consumed: inner.consumed + 2,
                }
            } else {
                Parsed { node: NodeView::Error, consumed: inner.consumed + 1 }
            }
        },
        TokenKind::EOF => Parsed { node: NodeView::Error, consumed: 0 },
        _ => Parsed { node: NodeView::Error, consumed: 1 },
    }
}

/// `unary`: prefix operators, nested from the right, before a primary.
pub open spec fn parse_unary(tokens: Seq<TokenView>, pos: int) -> Parsed
    decreases tokens_left(tokens, pos), 1nat,
{
    if is_prefix_operator(kind_at(tokens, pos)) {
        let operand = parse_unary(tokens, pos + 1);
        Parsed {
            node: NodeView::Unary { operator: tokens[pos], child: Box::new(operand.node) },
            consumed: operand.consumed + 1,
        }
    } else {
        parse_primary(tokens, pos)
    }
}

/// An operand of a binary operator of `level`: an expression of the next
/// level, which binds more, or a unary expression under multiplication.
pub open spec fn parse_operand(tokens: Seq<TokenView>, pos: int, level: Level) -> Parsed
    decreases tokens_left(tokens, pos), 3 * level.rank() + 2,
{
    match level {
        Level::Equality => parse_binary(tokens, pos, Level::Comparison),
        Level::Comparison => parse_binary(tokens, pos, Level::Addition),
        Level::Addition => parse_binary(tokens, pos, Level::Multiplication),
        Level::Multiplication => parse_unary(tokens, pos),
    }
}

/// What follows the operand `left` of `level`, which ends before `pos`: as
/// long as an operator of `level` stands next, it and the operand behind it
/// are taken, and the tree so far becomes the left child of a new binary
/// node.
pub open spec fn parse_chain(tokens: Seq<TokenView>, pos: int, level: Level, left: NodeView)
    -> Parsed
    decreases tokens_left(tokens, pos), 3 * level.rank() + 3,
{
    if level.has_operator(kind_at(tokens, pos)) {
        let right = parse_operand(tokens, pos + 1, level);
        let joined = NodeView::Binary {
            left: Box::new(left),
            operator: tokens[pos],
            right: Box::new(right.node),
        };
        let rest = parse_chain(tokens, pos + 1 + right.consumed, level, joined);
        Parsed { node: rest.node, consumed: right.consumed + 1 + rest.consumed }
    } else {
        Parsed { node: left, consumed: 0 }
    }
}

/// A rule of binary operators: operands of `level` with operators of
/// `level` between them, nested from the left.
pub open spec fn parse_binary(tokens: Seq<TokenView>, pos: int, level: Level) -> Parsed
    decreases tokens_left(tokens, pos), 3 * level.rank() + 4,
{
    let first = parse_operand(tokens, pos, level);
    let rest = parse_chain(tokens, pos + first.consumed, level, first.node);
    Parsed { node: rest.node, consumed: first.consumed + rest.consumed }
}

/// `expression`: the rule of the operators that bind least.
pub open spec fn parse_expression(tokens: Seq<TokenView>, pos: int) -> Parsed
    decreases tokens_left(tokens, pos), 14nat,
{
    parse_binary(tokens, pos, Level::Equality)
}

/// The syntax tree of `tokens`: the expression that starts at the first of
/// them.
pub open spec fn syntax_tree(tokens: Seq<TokenView>) -> NodeView {
    parse_expression(tokens, 0).node
}

/// An operand of a level is an expression of the next level.
pub proof fn lemma_operand_is_next_level(tokens: Seq<TokenView>, pos: int)
    ensures
        parse_operand(tokens, pos, Level::Equality) == parse_binary(
            tokens,
            pos,
            Level::Comparison,
        ),
        parse_operand(tokens, pos, Level::Comparison) == parse_binary(
            tokens,
            pos,
            Level::Addition,
        ),
        parse_operand(tokens, pos, Level::Addition) == parse_binary(
            tokens,
            pos,
            Level::Multiplication,
        ),
        parse_operand(tokens, pos, Level::Multiplication) == parse_unary(tokens, pos),
{
}

/// Where an operator of `level` stands at `pos`, the chain behind `left`
/// takes it and the operand behind it, and goes on with the two joined.
pub proof fn lemma_chain_takes_operator(
    tokens: Seq<TokenView>,
    pos: int,
    level: Level,
    left: NodeView,
)
    requires
        level.has_operator(kind_at(tokens, pos)),
    ensures
        ({
            let right = parse_operand(tokens, pos + 1, level);
            let joined = NodeView::Binary {
                left: Box::new(left),
                operator: tokens[pos],
                right: Box::new(right.node),
            };
            let rest = parse_chain(tokens, pos + 1 + right.consumed, level, joined);
            parse_chain(tokens, pos, level, left) == (Parsed {
                node: rest.node,
                consumed: right.consumed + 1 + rest.consumed,
            })
        }),
{
}

} // verus!

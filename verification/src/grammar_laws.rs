//! What holds of every parse: the parser reads back every expression that
//! is written as the grammar says, whatever the tokens around it.

use crate::ast::NodeView;
use crate::grammar::{
    is_prefix_operator, kind_at, parse_binary, parse_chain, parse_expression, parse_operand,
    parse_primary, parse_unary, tokens_left, Level, Parsed,
};
use crate::token::{TokenKind, TokenView};
use vstd::prelude::*;

verus! {

/// The number of tokens that a tree without faults is written with.
pub open spec fn token_count(tree: NodeView) -> nat
    decreases tree,
{
    match tree {
        NodeView::Binary { left, right, .. } => token_count(*left) + 1 + token_count(*right),
        NodeView::Grouping { child } => token_count(*child) + 2,
        NodeView::Literal { .. } => 1,
        NodeView::Unary { child, .. } => token_count(*child) + 1,
        NodeView::Error => 0,
    }
}

/// Whether `tokens` hold from `pos` on the tokens that `tree` is written
/// with: for an operator the token of the node itself, for a literal a token
/// of its category, for a grouping a pair of parentheses around the tokens
/// of its child. No tokens are those of a tree with a fault.
pub open spec fn writes(tokens: Seq<TokenView>, pos: int, tree: NodeView) -> bool
    decreases tree,
{
    match tree {
        NodeView::Binary { left, operator, right } => {
            let at = pos + token_count(*left);
            &&& writes(tokens, pos, *left)
            &&& 0 <= at < tokens.len() && tokens[at] == operator
            &&& writes(tokens, at + 1, *right)
        },
        NodeView::Grouping { child } => {
            &&& kind_at(tokens, pos) is LeftParen
            &&& writes(tokens, pos + 1, *child)
            &&& kind_at(tokens, pos + 1 + token_count(*child)) is RightParen
        },
        NodeView::Literal { value } => 0 <= pos < tokens.len() && tokens[pos].kind == value,
        NodeView::Unary { operator, child } => {
            &&& 0 <= pos < tokens.len() && tokens[pos] == operator
            &&& writes(tokens, pos + 1, *child)
        },
        NodeView::Error => false,
    }
}

/// Whether `tree` is a primary of the grammar: a boolean, nil, a number or a
/// string, or a grouping of an expression.
pub open spec fn is_primary(tree: NodeView) -> bool
    decreases tree, 0nat,
{
    match tree {
        NodeView::Literal { value } => value is False || value is True || value is Nil
            || value is Number || value is String,
        NodeView::Grouping { child } => fits(*child, Level::Equality),
        _ => false,
    }
}

/// Whether `tree` is a unary expression of the grammar: prefix operators
/// over a primary.
pub open spec fn is_unary(tree: NodeView) -> bool
    decreases tree, 1nat,
{
    match tree {
        NodeView::Unary { operator, child } => is_prefix_operator(operator.kind) && is_unary(
            *child,
        ),
        _ => is_primary(tree),
    }
}

/// Whether `tree` may be an operand of an operator of `level`: an
/// expression of the next level, or a unary expression under
/// multiplication.
pub open spec fn is_operand(tree: NodeView, level: Level) -> bool
    decreases tree, 2 * level.rank() + 2,
{
    match level {
        Level::Equality => fits(tree, Level::Comparison),
        Level::Comparison => fits(tree, Level::Addition),
        Level::Addition => fits(tree, Level::Multiplication),
        Level::Multiplication => is_unary(tree),
    }
}

/// Whether `tree` is an expression of `level` as the grammar builds it: an
/// operand of the level, or an operator of the level over an expression of
/// the level on its left and an operand of the level on its right.
pub open spec fn fits(tree: NodeView, level: Level) -> bool
    decreases tree, 2 * level.rank() + 3,
{
    ||| is_operand(tree, level)
    ||| tree matches NodeView::Binary { left, operator, right } && level.has_operator(
        operator.kind,
    ) && fits(*left, level) && is_operand(*right, level)
}

/// Whether `kind` is an operator of a level that binds more than `level`.
pub open spec fn binds_more(kind: TokenKind, level: Level) -> bool {
    ||| level.rank() > 0 && Level::Multiplication.has_operator(kind)
    ||| level.rank() > 1 && Level::Addition.has_operator(kind)
    ||| level.rank() > 2 && Level::Comparison.has_operator(kind)
}

/// The parser reads a primary back: its tree, and all its tokens.
proof fn lemma_reads_primary(tokens: Seq<TokenView>, pos: int, tree: NodeView)
    requires
        is_primary(tree),
        writes(tokens, pos, tree),
    ensures
        parse_primary(tokens, pos) == (Parsed { node: tree, consumed: token_count(tree) }),
    decreases tree, 0nat,
{
    match tree {
        NodeView::Grouping { child } => {
            lemma_reads_expression(tokens, pos + 1, *child);
        },
        _ => {},
    }
}

/// The parser reads a unary expression back: its tree, and all its tokens.
proof fn lemma_reads_unary(tokens: Seq<TokenView>, pos: int, tree: NodeView)
    requires
        is_unary(tree),
        writes(tokens, pos, tree),
    ensures
        parse_unary(tokens, pos) == (Parsed { node: tree, consumed: token_count(tree) }),
    decreases tree, 1nat,
{
    match tree {
        NodeView::Unary { operator, child } => {
            lemma_reads_unary(tokens, pos + 1, *child);
        },
        _ => {
            lemma_reads_primary(tokens, pos, tree);
        },
    }
}

/// The parser reads an operand of `level` back where no operator that binds
/// more than `level` follows it.
proof fn lemma_reads_operand(tokens: Seq<TokenView>, pos: int, tree: NodeView, level: Level)
    requires
        is_operand(tree, level),
        writes(tokens, pos, tree),
        !binds_more(kind_at(tokens, pos + token_count(tree)), level),
    ensures
        parse_operand(tokens, pos, level) == (Parsed { node: tree, consumed: token_count(tree) }),
    decreases tree, 2 * level.rank() + 2,
{
    match level {
        Level::Equality => lemma_reads_level(tokens, pos, tree, Level::Comparison),
        Level::Comparison => lemma_reads_level(tokens, pos, tree, Level::Addition),
        Level::Addition => lemma_reads_level(tokens, pos, tree, Level::Multiplication),
        Level::Multiplication => lemma_reads_unary(tokens, pos, tree),
    }
}

/// Where no operator that binds more than `level` follows an expression of
/// `level`, the parser reads the expression back and goes on with the chain
/// of operators of `level` behind it.
proof fn lemma_reads_level(tokens: Seq<TokenView>, pos: int, tree: NodeView, level: Level)
    requires
        fits(tree, level),
        writes(tokens, pos, tree),
        !binds_more(kind_at(tokens, pos + token_count(tree)), level),
    ensures
        ({
            let rest = parse_chain(tokens, pos + token_count(tree), level, tree);
            parse_binary(tokens, pos, level) == (Parsed {
                node: rest.node,
                consumed: token_count(tree) + rest.consumed,
            })
        }),
    decreases tree, 2 * level.rank() + 3,
{
    if is_operand(tree, level) {
        lemma_reads_operand(tokens, pos, tree, level);
    } else {
        match tree {
            NodeView::Binary { left, operator, right } => {
                let at = pos + token_count(*left);
                lemma_reads_level(tokens, pos, *left, level);
                lemma_reads_operand(tokens, at + 1, *right, level);
            },
            _ => {},
        }
    }
}

/// Whether `kind` is a binary operator.
pub open spec fn is_binary_operator(kind: TokenKind) -> bool {
    ||| Level::Equality.has_operator(kind)
    ||| Level::Comparison.has_operator(kind)
    ||| Level::Addition.has_operator(kind)
    ||| Level::Multiplication.has_operator(kind)
}

/// The parser reads an expression back where no binary operator follows it.
proof fn lemma_reads_expression(tokens: Seq<TokenView>, pos: int, tree: NodeView)
    requires
        fits(tree, Level::Equality),
        writes(tokens, pos, tree),
        !is_binary_operator(kind_at(tokens, pos + token_count(tree))),
    ensures
        parse_expression(tokens, pos) == (Parsed { node: tree, consumed: token_count(tree) }),
    decreases tree, 10nat,
{
    lemma_reads_level(tokens, pos, tree, Level::Equality);
}

/// The parser inverts the grammar. Where `tokens` hold from `pos` on the
/// tokens of an expression that is built as the grammar says, and no binary
/// operator follows them, the parser reads exactly these tokens and gives
/// exactly this tree: operators that bind more lower in the tree, operators
/// of one level nested from the left, no `Error` node.
pub proof fn law_parser_reads_expressions(tokens: Seq<TokenView>, pos: int, tree: NodeView)
    requires
        fits(tree, Level::Equality),
        writes(tokens, pos, tree),
        !is_binary_operator(kind_at(tokens, pos + token_count(tree))),
    ensures
        parse_expression(tokens, pos) == (Parsed { node: tree, consumed: token_count(tree) }),
{
    lemma_reads_expression(tokens, pos, tree);
}

/// Whether `tree` holds no `Error` node.
pub open spec fn is_faultless(tree: NodeView) -> bool
    decreases tree,
{
    match tree {
        NodeView::Binary { left, right, .. } => is_faultless(*left) && is_faultless(*right),
        NodeView::Grouping { child } => is_faultless(*child),
        NodeView::Literal { .. } => true,
        NodeView::Unary { child, .. } => is_faultless(*child),
        NodeView::Error => false,
    }
}

/// Whether `parsed` is a tree that is built as the grammar says for
/// `level`, together with the number of its tokens, which `tokens` hold
/// from `pos` on.
pub open spec fn is_reading(tokens: Seq<TokenView>, pos: int, level: Level, parsed: Parsed)
    -> bool {
    &&& fits(parsed.node, level)
    &&& writes(tokens, pos, parsed.node)
    &&& token_count(parsed.node) == parsed.consumed
}

/// A primary that the parser gives without a fault is written as the
/// grammar says.
proof fn lemma_faultless_primary(tokens: Seq<TokenView>, pos: int)
    ensures
        is_faultless(parse_primary(tokens, pos).node) ==> ({
            &&& is_primary(parse_primary(tokens, pos).node)
            &&& writes(tokens, pos, parse_primary(tokens, pos).node)
            &&& token_count(parse_primary(tokens, pos).node) == parse_primary(
                tokens,
                pos,
            ).consumed
        }),
    decreases tokens_left(tokens, pos), 0nat,
{
    if kind_at(tokens, pos) is LeftParen {
        lemma_faultless_binary(tokens, pos + 1, Level::Equality);
    }
}

/// A unary expression that the parser gives without a fault is written as
/// the grammar says.
proof fn lemma_faultless_unary(tokens: Seq<TokenView>, pos: int)
    ensures
        is_faultless(parse_unary(tokens, pos).node) ==> ({
            &&& is_unary(parse_unary(tokens, pos).node)
            &&& writes(tokens, pos, parse_unary(tokens, pos).node)
            &&& token_count(parse_unary(tokens, pos).node) == parse_unary(tokens, pos).consumed
        }),
    decreases tokens_left(tokens, pos), 1nat,
{
    if is_prefix_operator(kind_at(tokens, pos)) {
        lemma_faultless_unary(tokens, pos + 1);
    } else {
        lemma_faultless_primary(tokens, pos);
    }
}

/// An operand that the parser gives without a fault is written as the
/// grammar says.
proof fn lemma_faultless_operand(tokens: Seq<TokenView>, pos: int, level: Level)
    ensures
        is_faultless(parse_operand(tokens, pos, level).node) ==> ({
            &&& is_operand(parse_operand(tokens, pos, level).node, level)
            &&& is_reading(tokens, pos, level, parse_operand(tokens, pos, level))
        }),
    decreases tokens_left(tokens, pos), 3 * level.rank() + 2,
{
    let node = parse_operand(tokens, pos, level).node;
    match level {
        Level::Equality => lemma_faultless_binary(tokens, pos, Level::Comparison),
        Level::Comparison => lemma_faultless_binary(tokens, pos, Level::Addition),
        Level::Addition => lemma_faultless_binary(tokens, pos, Level::Multiplication),
        Level::Multiplication => lemma_faultless_unary(tokens, pos),
    }
    if is_faultless(node) {
        assert(is_operand(node, level));
        assert(fits(node, level));
    }
}

/// A chain of operators that the parser gives without a fault is written
/// as the grammar says, where this holds of the tree to the left of the
/// chain, which starts at `start` and ends before `pos`.
proof fn lemma_faultless_chain(
    tokens: Seq<TokenView>,
    start: int,
    pos: int,
    level: Level,
    left: NodeView,
)
    requires
        is_faultless(left) ==> is_reading(
            tokens,
            start,
            level,
            Parsed { node: left, consumed: (pos - start) as nat },
        ) && start <= pos,
    ensures
        ({
            let rest = parse_chain(tokens, pos, level, left);
            is_faultless(rest.node) ==> is_faultless(left) && is_reading(
                tokens,
                start,
                level,
                Parsed { node: rest.node, consumed: (pos - start + rest.consumed) as nat },
            )
        }),
    decreases tokens_left(tokens, pos), 3 * level.rank() + 3,
{
    if level.has_operator(kind_at(tokens, pos)) {
        let right = parse_operand(tokens, pos + 1, level);
        let joined = NodeView::Binary {
            left: Box::new(left),
            operator: tokens[pos],
            right: Box::new(right.node),
        };
        lemma_faultless_operand(tokens, pos + 1, level);
        lemma_faultless_chain(tokens, start, pos + 1 + right.consumed, level, joined);
    }
}

/// An expression of `level` that the parser gives without a fault is
/// written as the grammar says.
proof fn lemma_faultless_binary(tokens: Seq<TokenView>, pos: int, level: Level)
    ensures
        is_faultless(parse_binary(tokens, pos, level).node) ==> is_reading(
            tokens,
            pos,
            level,
            parse_binary(tokens, pos, level),
        ),
    decreases tokens_left(tokens, pos), 3 * level.rank() + 4,
{
    let first = parse_operand(tokens, pos, level);
    lemma_faultless_operand(tokens, pos, level);
    lemma_faultless_chain(tokens, pos, pos + first.consumed, level, first.node);
}

/// The parser invents nothing. Where the tree that it gives holds no
/// `Error` node, the tree is built as the grammar says and the tokens that
/// were read are exactly those that it is written with.
pub proof fn law_faultless_parse_is_written(tokens: Seq<TokenView>, pos: int)
    ensures
        is_faultless(parse_expression(tokens, pos).node) ==> is_reading(
            tokens,
            pos,
            Level::Equality,
            parse_expression(tokens, pos),
        ),
{
    lemma_faultless_binary(tokens, pos, Level::Equality);
}

/// An expression of a level is one of every level that binds less.
pub proof fn lemma_fits_looser_levels(tree: NodeView, level: Level)
    requires
        fits(tree, level),
    ensures
        level.rank() <= 0 ==> fits(tree, Level::Addition),
        level.rank() <= 1 ==> fits(tree, Level::Comparison),
        fits(tree, Level::Equality),
{
    if level.rank() <= 0 {
        assert(is_operand(tree, Level::Addition));
    }
    if level.rank() <= 1 {
        assert(fits(tree, Level::Addition));
        assert(is_operand(tree, Level::Comparison));
    }
    if level.rank() <= 2 {
        assert(fits(tree, Level::Comparison));
        assert(is_operand(tree, Level::Equality));
    }
}

/// Whether `kind` is a boolean, nil, a number or a string: a literal that
/// is an expression by itself.
pub open spec fn is_value(kind: TokenKind) -> bool {
    kind is False || kind is True || kind is Nil || kind is Number || kind is String
}

/// Operators of one level nest from the left: `x first y second z` is
/// `(x first y) second z`.
pub proof fn law_operators_nest_from_the_left(
    level: Level,
    x: TokenView,
    first: TokenView,
    y: TokenView,
    second: TokenView,
    z: TokenView,
    end: TokenView,
)
    requires
        is_value(x.kind) && is_value(y.kind) && is_value(z.kind),
        level.has_operator(first.kind),
        level.has_operator(second.kind),
        end.kind is EOF,
    ensures
        parse_expression(seq![x, first, y, second, z, end], 0) == (Parsed {
            node: NodeView::Binary {
                left: Box::new(
                    NodeView::Binary {
                        left: Box::new(NodeView::Literal { value: x.kind }),
                        operator: first,
                        right: Box::new(NodeView::Literal { value: y.kind }),
                    },
                ),
                operator: second,
                right: Box::new(NodeView::Literal { value: z.kind }),
            },
            consumed: 5,
        }),
{
    let tokens = seq![x, first, y, second, z, end];
    let inner = NodeView::Binary {
        left: Box::new(NodeView::Literal { value: x.kind }),
        operator: first,
        right: Box::new(NodeView::Literal { value: y.kind }),
    };
    let tree = NodeView::Binary {
        left: Box::new(inner),
        operator: second,
        right: Box::new(NodeView::Literal { value: z.kind }),
    };
    reveal_with_fuel(token_count, 3);
    reveal_with_fuel(writes, 3);
    lemma_value_is_unary(x.kind);
    lemma_value_is_unary(y.kind);
    lemma_value_is_unary(z.kind);
    lemma_fits_operand(NodeView::Literal { value: x.kind }, level);
    lemma_fits_operand(NodeView::Literal { value: y.kind }, level);
    lemma_fits_operand(NodeView::Literal { value: z.kind }, level);
    assert(fits(inner, level));
    assert(fits(tree, level));
    lemma_fits_looser_levels(tree, level);
    assert(writes(tokens, 0, tree));
    lemma_reads_expression(tokens, 0, tree);
}

/// An operator that binds more takes its operands first, on whichever side
/// it stands: with `tight` of a level that binds more than that of `loose`,
/// `x loose y tight z` is `x loose (y tight z)`, and `x tight y loose z` is
/// `(x tight y) loose z`.
pub proof fn law_tighter_operator_binds_first(
    loose_level: Level,
    tight_level: Level,
    x: TokenView,
    loose: TokenView,
    y: TokenView,
    tight: TokenView,
    z: TokenView,
    end: TokenView,
)
    requires
        is_value(x.kind) && is_value(y.kind) && is_value(z.kind),
        tight_level.rank() < loose_level.rank(),
        loose_level.has_operator(loose.kind),
        tight_level.has_operator(tight.kind),
        end.kind is EOF,
    ensures
        parse_expression(seq![x, loose, y, tight, z, end], 0) == (Parsed {
            node: NodeView::Binary {
                left: Box::new(NodeView::Literal { value: x.kind }),
                operator: loose,
                right: Box::new(
                    NodeView::Binary {
                        left: Box::new(NodeView::Literal { value: y.kind }),
                        operator: tight,
                        right: Box::new(NodeView::Literal { value: z.kind }),
                    },
                ),
            },
            consumed: 5,
        }),
        parse_expression(seq![x, tight, y, loose, z, end], 0) == (Parsed {
            node: NodeView::Binary {
                left: Box::new(
                    NodeView::Binary {
                        left: Box::new(NodeView::Literal { value: x.kind }),
                        operator: tight,
                        right: Box::new(NodeView::Literal { value: y.kind }),
                    },
                ),
                operator: loose,
                right: Box::new(NodeView::Literal { value: z.kind }),
            },
            consumed: 5,
        }),
{
    let first = NodeView::Literal { value: x.kind };
    let second = NodeView::Literal { value: y.kind };
    let third = NodeView::Literal { value: z.kind };
    reveal_with_fuel(token_count, 3);
    reveal_with_fuel(writes, 3);
    lemma_value_is_unary(x.kind);
    lemma_value_is_unary(y.kind);
    lemma_value_is_unary(z.kind);
    lemma_fits_operand(first, tight_level);
    lemma_fits_operand(second, tight_level);
    lemma_fits_operand(third, tight_level);
    lemma_fits_operand(first, loose_level);
    lemma_fits_operand(third, loose_level);
    {
        let tokens = seq![x, loose, y, tight, z, end];
        let inner = NodeView::Binary {
            left: Box::new(second),
            operator: tight,
            right: Box::new(third),
        };
        let tree = NodeView::Binary {
            left: Box::new(first),
            operator: loose,
            right: Box::new(inner),
        };
        assert(fits(inner, tight_level));
        lemma_fits_below(inner, tight_level, loose_level);
        assert(fits(tree, loose_level));
        lemma_fits_looser_levels(tree, loose_level);
        assert(writes(tokens, 0, tree));
        lemma_reads_expression(tokens, 0, tree);
    }
    {
        let tokens = seq![x, tight, y, loose, z, end];
        let inner = NodeView::Binary {
            left: Box::new(first),
            operator: tight,
            right: Box::new(second),
        };
        let tree = NodeView::Binary {
            left: Box::new(inner),
            operator: loose,
            right: Box::new(third),
        };
        assert(fits(inner, tight_level));
        lemma_fits_below(inner, tight_level, loose_level);
        assert(fits(tree, loose_level));
        lemma_fits_looser_levels(tree, loose_level);
        assert(writes(tokens, 0, tree));
        lemma_reads_expression(tokens, 0, tree);
    }
}

/// A unary expression is an operand, and an expression, of every level.
pub proof fn lemma_fits_operand(tree: NodeView, level: Level)
    requires
        is_unary(tree),
    ensures
        is_operand(tree, level),
        fits(tree, level),
{
    assert(is_operand(tree, Level::Multiplication));
    assert(fits(tree, Level::Multiplication));
    lemma_fits_looser_levels(tree, Level::Multiplication);
    assert(is_operand(tree, Level::Addition));
    assert(is_operand(tree, Level::Comparison));
    assert(is_operand(tree, Level::Equality));
}

/// An expression of a level is an operand, and an expression, of every
/// level that binds less.
pub proof fn lemma_fits_below(tree: NodeView, tight_level: Level, loose_level: Level)
    requires
        fits(tree, tight_level),
        tight_level.rank() < loose_level.rank(),
    ensures
        is_operand(tree, loose_level),
        fits(tree, loose_level),
{
    lemma_fits_looser_levels(tree, tight_level);
    assert(is_operand(tree, Level::Addition) == fits(tree, Level::Multiplication));
    assert(is_operand(tree, Level::Comparison) == fits(tree, Level::Addition));
    assert(is_operand(tree, Level::Equality) == fits(tree, Level::Comparison));
}

/// A literal that is an expression by itself is a unary expression.
pub proof fn lemma_value_is_unary(kind: TokenKind)
    requires
        is_value(kind),
    ensures
        is_unary(NodeView::Literal { value: kind }),
{
    assert(is_primary(NodeView::Literal { value: kind }));
}

} // verus!

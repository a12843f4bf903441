//! The parser: recursive descent over a sequence of tokens, one function for
//! each rule of the grammar.

use crate::ast::{ASTNode, BinaryNode, GroupingNode, LiteralNode, UnaryNode};
use crate::error::{ErrorView, RLoxError, RLoxResult};
use crate::grammar::{
    is_prefix_operator, kind_at, lemma_chain_takes_operator, lemma_operand_is_next_level,
    parse_binary, parse_chain, parse_expression, parse_primary, parse_unary, tokens_left, Level,
    Parsed,
};
use crate::token::{token_views, Token, TokenKind, TokenType, TokenView};
use vstd::prelude::*;

verus! {

/// A cursor over a sequence of tokens that ends with the end-of-input
/// token, which it never passes.
pub struct Parser {
    tokens: Vec<Token>,
    current: usize,
}

impl Parser {
    /// The tokens that this parser reads.
    pub closed spec fn tokens(&self) -> Seq<TokenView> {
        token_views(self.tokens@)
    }

    /// The index of the next token to read.
    pub closed spec fn position(&self) -> int {
        self.current as int
    }

    /// The next token to read exists, and the last token is the end of
    /// input.
    pub open spec fn wf(&self) -> bool {
        &&& 0 <= self.position() < self.tokens().len() <= usize::MAX
        &&& self.tokens().last().kind is EOF
    }

    /// Whether this parser is `before` after it has read `parsed.consumed`
    /// tokens, and `node` is the tree that they stand for.
    pub open spec fn has_read(&self, before: &Self, node: &ASTNode, parsed: Parsed) -> bool {
        &&& self.wf()
        &&& self.tokens() == before.tokens()
        &&& self.position() == before.position() + parsed.consumed
        &&& node@ == parsed.node
        &&& node@.well_formed()
        &&& node@.height() <= parsed.consumed
    }

    /// A parser at the first of `tokens`, which end with the end-of-input
    /// token.
    pub fn new(tokens: Vec<Token>) -> (parser: Self)
        requires
            tokens@.len() > 0,
            tokens@.last()@.kind is EOF,
        ensures
            parser.wf(),
            parser.tokens() == token_views(tokens@),
            parser.position() == 0,
    {
        assert(token_views(tokens@).len() == tokens.len());
        Parser { tokens, current: 0 }
    }

    /// Reads one expression and gives its syntax tree. Tokens that do not
    /// fit the grammar give `Error` nodes in the tree, never a failure.
    pub fn parse(&mut self) -> (tree: ASTNode)
        requires
            old(self).wf(),
        ensures
            final(self).has_read(
                old(self),
                &tree,
                parse_expression(old(self).tokens(), old(self).position()),
            ),
    {
        self.expression()
    }

    /// Top level rule for parsing expressions.
    ///
    /// Grammar:
    ///     expression -> equality
    fn expression(&mut self) -> (expr: ASTNode)
        requires
            old(self).wf(),
        ensures
            final(self).has_read(
                old(self),
                &expr,
                parse_expression(old(self).tokens(), old(self).position()),
            ),
        decreases tokens_left(old(self).tokens(), old(self).position()), 14nat,
    {
        self.equality()
    }

    /// Matches the equality testing operation.
    ///
    /// Grammar:
    ///     equality -> comparison ( ("!=" | "==") comparison )*
    fn equality(&mut self) -> (expr: ASTNode)
        requires
            old(self).wf(),
        ensures
            final(self).has_read(
                old(self),
                &expr,
                parse_binary(old(self).tokens(), old(self).position(), Level::Equality),
            ),
        decreases tokens_left(old(self).tokens(), old(self).position()), 13nat,
    {
        let ghost ts = self.tokens();
        let ghost start = self.position();
        let operators = vec![TokenType::BangEqual, TokenType::EqualEqual];
        let mut expr = self.comparison();

        while self.match_any(operators.as_slice())
            invariant
                operators@.len() == 2,
                operators@[0]@ == TokenKind::BangEqual,
                operators@[1]@ == TokenKind::EqualEqual,
                self.wf(),
                self.tokens() == ts,
                ts == old(self).tokens(),
                start == old(self).position(),
                start <= self.position(),
                expr@.well_formed(),
                expr@.height() <= self.position() - start,
                ({
                    let rest = parse_chain(ts, self.position(), Level::Equality, expr@);
                    parse_binary(ts, start, Level::Equality) == (Parsed {
                        node: rest.node,
                        consumed: (self.position() - start + rest.consumed) as nat,
                    })
                }),
            decreases tokens_left(ts, self.position()),
        {
            let ghost pos = self.position() - 1;
            let ghost left = expr@;
            let operator = self.previous();
            let right = self.comparison();
            expr = ASTNode::Binary(BinaryNode::new(expr, operator.clone(), right));
            proof {
                lemma_operand_is_next_level(ts, pos + 1);
                lemma_chain_takes_operator(ts, pos, Level::Equality, left);
            }
        }

        expr
    }

    fn comparison(&mut self) -> (expr: ASTNode)
        requires
            old(self).wf(),
        ensures
            final(self).has_read(
                old(self),
                &expr,
                parse_binary(old(self).tokens(), old(self).position(), Level::Comparison),
            ),
        decreases tokens_left(old(self).tokens(), old(self).position()), 10nat,
    {
        let ghost ts = self.tokens();
        let ghost start = self.position();
        let operators = vec![
            TokenType::Greater,
            TokenType::GreaterEqual,
            TokenType::Less,
            TokenType::LessEqual,
        ];
        let mut expr = self.addition();

        while self.match_any(operators.as_slice())
            invariant
                operators@.len() == 4,
                operators@[0]@ == TokenKind::Greater,
                operators@[1]@ == TokenKind::GreaterEqual,
                operators@[2]@ == TokenKind::Less,
                operators@[3]@ == TokenKind::LessEqual,
                self.wf(),
                self.tokens() == ts,
                ts == old(self).tokens(),
                start == old(self).position(),
                start <= self.position(),
                expr@.well_formed(),
                expr@.height() <= self.position() - start,
                ({
                    let rest = parse_chain(ts, self.position(), Level::Comparison, expr@);
                    parse_binary(ts, start, Level::Comparison) == (Parsed {
                        node: rest.node,
                        consumed: (self.position() - start + rest.consumed) as nat,
                    })
                }),
            decreases tokens_left(ts, self.position()),
        {
            let ghost pos = self.position() - 1;
            let ghost left = expr@;
            let operator = self.previous();
            let right = self.addition();
            expr = ASTNode::Binary(BinaryNode::new(expr, operator.clone(), right));
            proof {
                lemma_operand_is_next_level(ts, pos + 1);
                lemma_chain_takes_operator(ts, pos, Level::Comparison, left);
            }
        }

        expr
    }

    fn addition(&mut self) -> (expr: ASTNode)
        requires
            old(self).wf(),
        ensures
            final(self).has_read(
                old(self),
                &expr,
                parse_binary(old(self).tokens(), old(self).position(), Level::Addition),
            ),
        decreases tokens_left(old(self).tokens(), old(self).position()), 7nat,
    {
        let ghost ts = self.tokens();
        let ghost start = self.position();
        let operators = vec![TokenType::Minus, TokenType::Plus];
        let mut expr = self.multiplication();

        while self.match_any(operators.as_slice())
            invariant
                operators@.len() == 2,
                operators@[0]@ == TokenKind::Minus,
                operators@[1]@ == TokenKind::Plus,
                self.wf(),
                self.tokens() == ts,
                ts == old(self).tokens(),
                start == old(self).position(),
                start <= self.position(),
                expr@.well_formed(),
                expr@.height() <= self.position() - start,
                ({
                    let rest = parse_chain(ts, self.position(), Level::Addition, expr@);
                    parse_binary(ts, start, Level::Addition) == (Parsed {
                        node: rest.node,
                        consumed: (self.position() - start + rest.consumed) as nat,
                    })
                }),
            decreases tokens_left(ts, self.position()),
        {
            let ghost pos = self.position() - 1;
            let ghost left = expr@;
            let operator = self.previous();
            let right = self.multiplication();
            expr = ASTNode::Binary(BinaryNode::new(expr, operator.clone(), right));
            proof {
                lemma_operand_is_next_level(ts, pos + 1);
                lemma_chain_takes_operator(ts, pos, Level::Addition, left);
            }
        }

        expr
    }

    fn multiplication(&mut self) -> (expr: ASTNode)
        requires
            old(self).wf(),
        ensures
            final(self).has_read(
                old(self),
                &expr,
                parse_binary(old(self).tokens(), old(self).position(), Level::Multiplication),
            ),
        decreases tokens_left(old(self).tokens(), old(self).position()), 4nat,
    {
        let ghost ts = self.tokens();
        let ghost start = self.position();
        let operators = vec![TokenType::Slash, TokenType::Star];
        let mut expr = self.unary();

        while self.match_any(operators.as_slice())
            invariant
                operators@.len() == 2,
                operators@[0]@ == TokenKind::Slash,
                operators@[1]@ == TokenKind::Star,
                self.wf(),
                self.tokens() == ts,
                ts == old(self).tokens(),
                start == old(self).position(),
                start <= self.position(),
                expr@.well_formed(),
                expr@.height() <= self.position() - start,
                ({
                    let rest = parse_chain(ts, self.position(), Level::Multiplication, expr@);
                    parse_binary(ts, start, Level::Multiplication) == (Parsed {
                        node: rest.node,
                        consumed: (self.position() - start + rest.consumed) as nat,
                    })
                }),
            decreases tokens_left(ts, self.position()),
        {
            let ghost pos = self.position() - 1;
            let ghost left = expr@;
            let operator = self.previous();
            let right = self.unary();
            expr = ASTNode::Binary(BinaryNode::new(expr, operator.clone(), right));
            proof {
                lemma_operand_is_next_level(ts, pos + 1);
                lemma_chain_takes_operator(ts, pos, Level::Multiplication, left);
            }
        }

        expr
    }

    fn unary(&mut self) -> (expr: ASTNode)
        requires
            old(self).wf(),
        ensures
            final(self).has_read(
                old(self),
                &expr,
                parse_unary(old(self).tokens(), old(self).position()),
            ),
        decreases tokens_left(old(self).tokens(), old(self).position()), 1nat,
    {
        let operators = vec![TokenType::Bang, TokenType::Minus];
        let ghost ts = self.tokens();
        let ghost pos = self.position();
        if self.match_any(operators.as_slice()) {
            let operator = self.previous();
            let right = self.unary();
            assert(is_prefix_operator(kind_at(ts, pos)));
            return ASTNode::Unary(UnaryNode::new(operator.clone(), right));
        }
        assert(!is_prefix_operator(kind_at(ts, pos))) by {
            assert(!self.next_is(operators@[0]@));
            assert(!self.next_is(operators@[1]@));
        }
        self.primary()
    }

    fn primary(&mut self) -> (expr: ASTNode)
        requires
            old(self).wf(),
        ensures
            final(self).has_read(
                old(self),
                &expr,
                parse_primary(old(self).tokens(), old(self).position()),
            ),
        decreases tokens_left(old(self).tokens(), old(self).position()), 0nat,
    {
        if self.match_any(vec![TokenType::False].as_slice()) {
            return ASTNode::Literal(LiteralNode::new(TokenType::False));
        }
        if self.match_any(vec![TokenType::True].as_slice()) {
            return ASTNode::Literal(LiteralNode::new(TokenType::True));
        }
        if self.match_any(vec![TokenType::Nil].as_slice()) {
            return ASTNode::Literal(LiteralNode::new(TokenType::Nil));
        }
        if self.is_at_end() {
            return ASTNode::Error;
        }
        let next = self.advance();
        match next.token_type() {
            TokenType::False => ASTNode::Literal(LiteralNode::new(TokenType::False)),
            TokenType::True => ASTNode::Literal(LiteralNode::new(TokenType::True)),
            TokenType::Nil => ASTNode::Literal(LiteralNode::new(TokenType::Nil)),
            TokenType::Number(n) => ASTNode::Literal(
                LiteralNode::new(TokenType::Number(n.clone())),
            ),
            TokenType::String(s) => ASTNode::Literal(
                LiteralNode::new(TokenType::String(s.clone())),
            ),
            TokenType::LeftParen => {
                let expr = self.expression();
                let next = self.consume(&TokenType::RightParen, "expected ')' after expression");
                if next.is_err() {
                    ASTNode::Error
                } else {
                    ASTNode::Grouping(GroupingNode::new(expr))
                }
            },
            _ => ASTNode::Error,
        }
    }

    /// If the next token is any one of the tokens in `token_types`, returns
    /// true and advances to the next token in the stream.
    fn match_any(&mut self, token_types: &[TokenType]) -> (matched: bool)
        requires
            old(self).wf(),
        ensures
            final(self).wf(),
            final(self).tokens() == old(self).tokens(),
            matched == (exists|i: int|
                0 <= i < token_types@.len() && old(self).next_is(#[trigger] token_types@[i]@)),
            final(self).position() == old(self).position() + (if matched {
                1int
            } else {
                0int
            }),
    {
        let mut i: usize = 0;
        while i < token_types.len()
            invariant
                self.wf(),
                *self == *old(self),
                i <= token_types@.len(),
                forall|k: int| 0 <= k < i ==> !self.next_is(#[trigger] token_types@[k]@),
            decreases token_types@.len() - i,
        {
            if self.check(&token_types[i]) {
                self.advance();
                return true;
            }
            i += 1;
        }

        return false;
    }

    /// Whether the next token is of category `kind` and does not end the
    /// input.
    pub open spec fn next_is(&self, kind: TokenKind) -> bool {
        let next = kind_at(self.tokens(), self.position());
        !(next is EOF) && next == kind
    }

    /// If the next token in the stream is the token that was passed in,
    /// return true. Return false if we're at the end of the stream or if the
    /// next token is of a different type.
    fn check(&self, token_type: &TokenType) -> (same: bool)
        requires
            self.wf(),
        ensures
            same == self.next_is(token_type@),
    {
        if self.is_at_end() {
            return false;
        }
        *self.peek().token_type() == *token_type
    }

    /// If we're not at the end of the token stream, advance the stream.
    /// Return the last token we saw.
    fn advance(&mut self) -> (token: Token)
        requires
            old(self).wf(),
            old(self).position() >= 1 || !(kind_at(old(self).tokens(), old(self).position()) is EOF),
        ensures
            final(self).wf(),
            final(self).tokens() == old(self).tokens(),
            final(self).position() == old(self).position() + (if kind_at(
                old(self).tokens(),
                old(self).position(),
            ) is EOF {
                0int
            } else {
                1int
            }),
            token@ == final(self).tokens()[final(self).position() - 1],
    {
        if !self.is_at_end() {
            assert(self.tokens().len() == self.tokens.len());
            self.current = self.current + 1;
        }
        self.previous()
    }

    /// Is the next token an EOF token? That would mean we've reached
    /// the end of the stream.
    fn is_at_end(&self) -> (at_end: bool)
        requires
            self.wf(),
        ensures
            at_end == (kind_at(self.tokens(), self.position()) is EOF),
    {
        *self.peek().token_type() == TokenType::EOF
    }

    /// Returns the next token in the stream.
    fn peek(&self) -> (token: Token)
        requires
            self.wf(),
        ensures
            token@ == self.tokens()[self.position()],
    {
        self.tokens[self.current].clone()
    }

    /// Returns the previous token in the stream.
    fn previous(&self) -> (token: Token)
        requires
            1 <= self.position() <= self.tokens().len(),
        ensures
            token@ == self.tokens()[self.position() - 1],
    {
        self.tokens[self.current - 1].clone()
    }

    /// If the next token is of the type we expect, advance and return the
    /// token. Otherwise, return an error indicating an unexpected token.
    fn consume(&mut self, token_type: &TokenType, message: &str) -> (result: RLoxResult<Token>)
        requires
            old(self).wf(),
        ensures
            final(self).wf(),
            final(self).tokens() == old(self).tokens(),
            ({
                let next = old(self).tokens()[old(self).position()];
                if old(self).next_is(token_type@) {
                    &&& result matches Ok(token) && token@ == next
                    &&& final(self).position() == old(self).position() + 1
                } else {
                    &&& result matches Err(error) && error@ == (ErrorView::Source {
                        line: next.line,
                        location: next.lexeme,
                        message: message@,
                    })
                    &&& final(self).position() == old(self).position()
                }
            }),
    {
        if self.check(token_type) {
            return Ok(self.advance());
        }
        let token = self.peek();
        Err(RLoxError::source(token.line(), token.lexeme().clone(), String::from_str(message)))
    }
}

} // verus!

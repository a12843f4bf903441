//! The syntax tree of an expression, and its rendering as a directed graph.

use crate::text::{append_decimal, decimal};
use crate::token::{Token, TokenKind, TokenType, TokenView};
use vstd::prelude::*;

verus! {

/// A syntax tree as contracts see it: the view of an [`ASTNode`].
pub enum NodeView {
    Binary { left: Box<NodeView>, operator: TokenView, right: Box<NodeView> },
    Grouping { child: Box<NodeView> },
    Literal { value: TokenKind },
    Unary { operator: TokenView, child: Box<NodeView> },
    Error,
}

/// The line that declares the node `name` with the label `label`.
pub open spec fn declaration(name: Seq<char>, label: Seq<char>) -> Seq<char> {
    "\""@ + name + "\"[label=\""@ + label + "\"];\n"@
}

/// The line that draws an edge from the node `from` to the node `to`.
pub open spec fn edge(from: Seq<char>, to: Seq<char>) -> Seq<char> {
    "\""@ + from + "\" -> \""@ + to + "\";\n"@
}

impl NodeView {
    /// Whether every literal node of the tree holds a literal, a boolean or
    /// nil.
    pub open spec fn well_formed(self) -> bool
        decreases self,
    {
        match self {
            NodeView::Binary { left, right, .. } => left.well_formed() && right.well_formed(),
            NodeView::Grouping { child } => child.well_formed(),
            NodeView::Literal { value } => value.is_literal(),
            NodeView::Unary { child, .. } => child.well_formed(),
            NodeView::Error => true,
        }
    }

    /// The number of edges on the longest way from this node down to a leaf.
    pub open spec fn height(self) -> nat
        decreases self,
    {
        match self {
            NodeView::Binary { left, right, .. } => 1 + if left.height() >= right.height() {
                left.height()
            } else {
                right.height()
            },
            NodeView::Grouping { child } => 1 + child.height(),
            NodeView::Literal { .. } => 0,
            NodeView::Unary { child, .. } => 1 + child.height(),
            NodeView::Error => 0,
        }
    }

    /// What a reader of the graph sees on the node: the operator's symbol,
    /// the literal's text, `()` for a grouping, `ERROR` for a fault.
    pub open spec fn label(self) -> Seq<char> {
        match self {
            NodeView::Binary { operator, .. } => operator.kind.text(),
            NodeView::Grouping { .. } => "()"@,
            NodeView::Literal { value } => value.text(),
            NodeView::Unary { operator, .. } => operator.kind.text(),
            NodeView::Error => "ERROR"@,
        }
    }

    /// The name of the node in the graph when it stands `depth` edges below
    /// the root: its label, or `group` for a grouping, then an underscore
    /// and the depth.
    pub open spec fn name(self, depth: nat) -> Seq<char> {
        match self {
            NodeView::Grouping { .. } => "group_"@ + decimal(depth),
            _ => self.label() + "_"@ + decimal(depth),
        }
    }

    /// The lines of the graph for the tree under this node, which stands
    /// `depth` edges below the root: the node's declaration, the lines of
    /// each child's tree, then one edge to each child.
    pub open spec fn lines(self, depth: nat) -> Seq<char>
        decreases self,
    {
        let name = self.name(depth);
        match self {
            NodeView::Binary { left, right, .. } => declaration(name, self.label()) + left.lines(
                depth + 1,
            ) + right.lines(depth + 1) + edge(name, left.name(depth + 1)) + edge(
                name,
                right.name(depth + 1),
            ),
            NodeView::Grouping { child } => declaration(name, self.label()) + child.lines(
                depth + 1,
            ) + edge(name, child.name(depth + 1)),
            NodeView::Unary { child, .. } => declaration(name, self.label()) + child.lines(
                depth + 1,
            ) + edge(name, child.name(depth + 1)),
            _ => declaration(name, self.label()),
        }
    }

    /// The tree as a directed graph in the notation of Graphviz.
    pub open spec fn rendering(self) -> Seq<char> {
        "digraph G {\n"@ + self.lines(0) + "}"@
    }
}

/// An operator between two operands.
#[derive(Debug, PartialEq)]
pub struct BinaryNode {
    left: Box<ASTNode>,
    operator: Token,
    right: Box<ASTNode>,
}

/// An expression in parentheses.
#[derive(Debug, PartialEq)]
pub struct GroupingNode {
    child: Box<ASTNode>,
}

/// A literal: an identifier, a string, a number, a boolean or nil.
#[derive(Debug, PartialEq)]
pub struct LiteralNode {
    value: TokenType,
}

/// An operator before its operand.
#[derive(Debug, PartialEq)]
pub struct UnaryNode {
    operator: Token,
    child: Box<ASTNode>,
}

/// A syntax tree. Each node owns its children. `Error` stands in the place
/// of an expression that the parser could not read.
#[derive(Debug, PartialEq)]
pub enum ASTNode {
    Binary(BinaryNode),
    Grouping(GroupingNode),
    Literal(LiteralNode),
    Unary(UnaryNode),
    Error,
}

impl ASTNode {
    /// The tree under this node.
    pub open spec fn tree(&self) -> NodeView
        decreases self,
    {
        match self {
            ASTNode::Binary(node) => node.tree(),
            ASTNode::Grouping(node) => node.tree(),
            ASTNode::Literal(node) => node.tree(),
            ASTNode::Unary(node) => node.tree(),
            ASTNode::Error => NodeView::Error,
        }
    }
}

impl BinaryNode {
    /// The tree under this node.
    pub closed spec fn tree(&self) -> NodeView
        decreases self,
    {
        NodeView::Binary {
            left: Box::new(self.left.tree()),
            operator: self.operator@,
            right: Box::new(self.right.tree()),
        }
    }
}

impl GroupingNode {
    /// The tree under this node.
    pub closed spec fn tree(&self) -> NodeView
        decreases self,
    {
        NodeView::Grouping { child: Box::new(self.child.tree()) }
    }
}

impl LiteralNode {
    /// The tree of this node alone.
    pub closed spec fn tree(&self) -> NodeView {
        NodeView::Literal { value: self.value@ }
    }
}

impl UnaryNode {
    /// The tree under this node.
    pub closed spec fn tree(&self) -> NodeView
        decreases self,
    {
        NodeView::Unary { operator: self.operator@, child: Box::new(self.child.tree()) }
    }
}

impl View for ASTNode {
    type V = NodeView;

    open spec fn view(&self) -> NodeView {
        self.tree()
    }
}

impl View for BinaryNode {
    type V = NodeView;

    open spec fn view(&self) -> NodeView {
        self.tree()
    }
}

impl View for GroupingNode {
    type V = NodeView;

    open spec fn view(&self) -> NodeView {
        self.tree()
    }
}

impl View for LiteralNode {
    type V = NodeView;

    open spec fn view(&self) -> NodeView {
        self.tree()
    }
}

impl View for UnaryNode {
    type V = NodeView;

    open spec fn view(&self) -> NodeView {
        self.tree()
    }
}

impl BinaryNode {
    /// The node of `operator` between `left` and `right`.
    pub fn new(left: ASTNode, operator: Token, right: ASTNode) -> (node: Self)
        ensures
            node@ == (NodeView::Binary {
                left: Box::new(left@),
                operator: operator@,
                right: Box::new(right@),
            }),
    {
        BinaryNode { left: Box::new(left), operator, right: Box::new(right) }
    }

    /// The left operand.
    pub fn left(&self) -> (left: &ASTNode)
        ensures
            self@ matches NodeView::Binary { left: child, .. } && *child == left@,
    {
        &self.left
    }

    /// The operator's token.
    pub fn operator(&self) -> (operator: &Token)
        ensures
            self@ matches NodeView::Binary { operator: token, .. } && token == operator@,
    {
        &self.operator
    }

    /// The right operand.
    pub fn right(&self) -> (right: &ASTNode)
        ensures
            self@ matches NodeView::Binary { right: child, .. } && *child == right@,
    {
        &self.right
    }
}

impl GroupingNode {
    /// The node of `child` in parentheses.
    pub fn new(child: ASTNode) -> (node: Self)
        ensures
            node@ == (NodeView::Grouping { child: Box::new(child@) }),
    {
        GroupingNode { child: Box::new(child) }
    }

    /// The expression between the parentheses.
    pub fn child(&self) -> (child: &ASTNode)
        ensures
            self@ == (NodeView::Grouping { child: Box::new(child@) }),
    {
        &self.child
    }
}

impl LiteralNode {
    /// A node for the literal `value`: an identifier, a string, a number, a
    /// boolean or nil.
    pub fn new(value: TokenType) -> (node: Self)
        requires
            value@.is_literal(),
        ensures
            node@ == (NodeView::Literal { value: value@ }),
    {
        LiteralNode { value }
    }

    /// The literal.
    pub fn value(&self) -> (value: &TokenType)
        ensures
            self@ == (NodeView::Literal { value: value@ }),
    {
        &self.value
    }
}

impl UnaryNode {
    /// The node of `operator` before `child`.
    pub fn new(operator: Token, child: ASTNode) -> (node: Self)
        ensures
            node@ == (NodeView::Unary { operator: operator@, child: Box::new(child@) }),
    {
        UnaryNode { operator, child: Box::new(child) }
    }

    /// The operator's token.
    pub fn operator(&self) -> (operator: &Token)
        ensures
            self@ matches NodeView::Unary { operator: token, .. } && token == operator@,
    {
        &self.operator
    }

    /// The operand.
    pub fn child(&self) -> (child: &ASTNode)
        ensures
            self@ matches NodeView::Unary { child: operand, .. } && *operand == child@,
    {
        &self.child
    }
}


impl ASTNode {
    /// The tree as a directed graph in the notation of Graphviz.
    pub fn pretty_print(&self) -> (pretty: String)
        requires
            self@.height() <= usize::MAX,
        ensures
            pretty@ == self@.rendering(),
    {
        let mut pretty = String::new();
        pretty.append("digraph G {\n");
        pretty_print_recursive(self, &mut pretty, 0);
        pretty.append("}");
        assert(pretty@ =~= self@.rendering());
        pretty
    }
}

/// The name of `node` in the graph when it stands `depth` edges below the
/// root.
fn make_graphviz_label(node: &ASTNode, depth: usize) -> (label: String)
    ensures
        label@ == node@.name(depth as nat),
{
    let mut label = match node {
        ASTNode::Binary(node) => node.operator.token_type().to_string(),
        ASTNode::Grouping(_) => String::from_str("group"),
        ASTNode::Literal(node) => node.value.to_string(),
        ASTNode::Unary(node) => node.operator.token_type().to_string(),
        ASTNode::Error => String::from_str("ERROR"),
    };
    label.append("_");
    append_decimal(&mut label, depth);
    proof {
        reveal_strlit("group");
        reveal_strlit("_");
        reveal_strlit("group_");
        assert("group"@ + "_"@ =~= "group_"@);
    }
    label
}

/// Appends to `acc` the line that declares the node `name` with the label
/// `label`.
fn append_declaration(acc: &mut String, name: &str, label: &str)
    ensures
        final(acc)@ == old(acc)@ + declaration(name@, label@),
{
    acc.append("\"");
    acc.append(name);
    acc.append("\"[label=\"");
    acc.append(label);
    acc.append("\"];\n");
    assert(acc@ =~= old(acc)@ + declaration(name@, label@));
}

/// Appends to `acc` the line that draws an edge from the node `from` to the
/// node `to`.
fn append_edge(acc: &mut String, from: &str, to: &str)
    ensures
        final(acc)@ == old(acc)@ + edge(from@, to@),
{
    acc.append("\"");
    acc.append(from);
    acc.append("\" -> \"");
    acc.append(to);
    acc.append("\";\n");
    assert(acc@ =~= old(acc)@ + edge(from@, to@));
}

/// Three parts appended to a text one by one are the text and the three
/// parts behind it.
proof fn lemma_appended3(front: Seq<char>, a: Seq<char>, b: Seq<char>, c: Seq<char>)
    ensures
        front + a + b + c == front + (a + b + c),
{
    assert(front + a + b + c =~= front + (a + b + c));
}

/// Five parts appended to a text one by one are the text and the five parts
/// behind it.
proof fn lemma_appended5(
    front: Seq<char>,
    a: Seq<char>,
    b: Seq<char>,
    c: Seq<char>,
    d: Seq<char>,
    e: Seq<char>,
)
    ensures
        front + a + b + c + d + e == front + (a + b + c + d + e),
{
    assert(front + a + b + c + d + e =~= front + (a + b + c + d + e));
}

/// Appends to `acc` the lines of the graph for the tree under `node`, which
/// stands `depth` edges below the root.
fn pretty_print_recursive(node: &ASTNode, acc: &mut String, depth: usize)
    requires
        depth + node@.height() <= usize::MAX,
    ensures
        final(acc)@ == old(acc)@ + node@.lines(depth as nat),
    decreases node,
{
    let label = make_graphviz_label(node, depth);
    match node {
        ASTNode::Binary(bin_node) => {
            let symbol = bin_node.operator.token_type().to_string();
            append_declaration(acc, label.as_str(), symbol.as_str());

            pretty_print_recursive(&bin_node.left, acc, depth + 1);
            pretty_print_recursive(&bin_node.right, acc, depth + 1);

            let label_left = make_graphviz_label(&bin_node.left, depth + 1);
            let label_right = make_graphviz_label(&bin_node.right, depth + 1);
            append_edge(acc, label.as_str(), label_left.as_str());
            append_edge(acc, label.as_str(), label_right.as_str());
            proof {
                lemma_appended5(
                    old(acc)@,
                    declaration(label@, symbol@),
                    bin_node.left@.lines((depth + 1) as nat),
                    bin_node.right@.lines((depth + 1) as nat),
                    edge(label@, label_left@),
                    edge(label@, label_right@),
                );
            }
        },
        ASTNode::Grouping(group_node) => {
            append_declaration(acc, label.as_str(), "()");
            pretty_print_recursive(&group_node.child, acc, depth + 1);

            let label_child = make_graphviz_label(&group_node.child, depth + 1);
            append_edge(acc, label.as_str(), label_child.as_str());
            proof {
                lemma_appended3(
                    old(acc)@,
                    declaration(label@, "()"@),
                    group_node.child@.lines((depth + 1) as nat),
                    edge(label@, label_child@),
                );
            }
        },
        ASTNode::Literal(lit_node) => {
            let text = lit_node.value.to_string();
            append_declaration(acc, label.as_str(), text.as_str());
        },
        ASTNode::Unary(unary_node) => {
            let symbol = unary_node.operator.token_type().to_string();
            append_declaration(acc, label.as_str(), symbol.as_str());
            pretty_print_recursive(&unary_node.child, acc, depth + 1);

            let label_child = make_graphviz_label(&unary_node.child, depth + 1);
            append_edge(acc, label.as_str(), label_child.as_str());
            proof {
                lemma_appended3(
                    old(acc)@,
                    declaration(label@, symbol@),
                    unary_node.child@.lines((depth + 1) as nat),
                    edge(label@, label_child@),
                );
            }
        },
        ASTNode::Error => {
            append_declaration(acc, label.as_str(), "ERROR");
        },
    };
}

/// The graph of an operator over two literals has one declaration for each
/// of the three nodes and one edge to each of the two children, in this
/// order: the operator, the left literal, the right literal, the edge to
/// the left, the edge to the right.
pub proof fn law_operator_over_literals_renders(
    operator: TokenView,
    left: TokenKind,
    right: TokenKind,
)
    ensures
        ({
            let first = NodeView::Literal { value: left };
            let second = NodeView::Literal { value: right };
            let root = NodeView::Binary {
                left: Box::new(first),
                operator,
                right: Box::new(second),
            };
            root.rendering() == "digraph G {\n"@ + (declaration(root.name(0), operator.kind.text())
                + declaration(first.name(1), left.text()) + declaration(
                second.name(1),
                right.text(),
            ) + edge(root.name(0), first.name(1)) + edge(root.name(0), second.name(1))) + "}"@
        }),
{
    reveal_with_fuel(NodeView::lines, 2);
}

/// In the graph of an operator over two literals the operator's name is
/// that of neither literal, and the two literals have names of their own
/// where their texts differ. (Two literals of one text share a name.)
pub proof fn law_operator_over_literals_names(
    operator: TokenView,
    left: TokenKind,
    right: TokenKind,
)
    requires
        left.text() != right.text(),
    ensures
        ({
            let first = NodeView::Literal { value: left };
            let second = NodeView::Literal { value: right };
            let root = NodeView::Binary {
                left: Box::new(first),
                operator,
                right: Box::new(second),
            };
            &&& root.name(0) != first.name(1)
            &&& root.name(0) != second.name(1)
            &&& first.name(1) != second.name(1)
        }),
{
    let first = NodeView::Literal { value: left };
    let second = NodeView::Literal { value: right };
    let root = NodeView::Binary { left: Box::new(first), operator, right: Box::new(second) };
    reveal_strlit("_");
    assert(decimal(0) == seq!['0']);
    assert(decimal(1) == seq!['1']);
    assert(root.name(0).last() == '0');
    assert(first.name(1).last() == '1');
    assert(second.name(1).last() == '1');
    if first.name(1) == second.name(1) {
        let tail = "_"@ + decimal(1);
        assert(first.name(1) =~= left.text() + tail);
        assert(second.name(1) =~= right.text() + tail);
        assert(left.text().len() == right.text().len());
        assert forall|i: int| 0 <= i < left.text().len() implies left.text()[i] == right.text()[i] by {
            assert((left.text() + tail)[i] == left.text()[i]);
            assert((right.text() + tail)[i] == right.text()[i]);
        }
        assert(left.text() =~= right.text());
    }
}

} // verus!

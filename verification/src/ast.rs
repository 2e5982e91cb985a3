//! The abstract syntax tree: a tagged sum type, one arm per node kind, and
//! its mathematical model.

use vstd::prelude::*;

use crate::token::Token;
use crate::token::TokenModel;

verus! {

/// The closed set of AST node kinds. The fixed numeric code of each kind
/// (see [`spec_node_code`]) is part of the cross-implementation contract.
#[derive(Clone, Copy, PartialEq, Eq, Structural, Debug)]
pub enum NodeKind {
    Program,
    StatementBlock,
    VariableStatement,
    IfStatement,
    WhileStatement,
    AssignmentStatement,
    Condition,
    Expression,
}

/// The fixed numeric code of a node kind.
pub open spec fn spec_node_code(k: NodeKind) -> u8 {
    match k {
        NodeKind::Program => 0,
        NodeKind::StatementBlock => 1,
        NodeKind::VariableStatement => 2,
        NodeKind::IfStatement => 3,
        NodeKind::WhileStatement => 4,
        NodeKind::AssignmentStatement => 5,
        NodeKind::Condition => 6,
        NodeKind::Expression => 7,
    }
}

impl NodeKind {
    /// The fixed numeric code of this kind.
    pub fn code(self) -> (r: u8)
        ensures
            r == spec_node_code(self),
    {
        match self {
            NodeKind::Program => 0,
            NodeKind::StatementBlock => 1,
            NodeKind::VariableStatement => 2,
            NodeKind::IfStatement => 3,
            NodeKind::WhileStatement => 4,
            NodeKind::AssignmentStatement => 5,
            NodeKind::Condition => 6,
            NodeKind::Expression => 7,
        }
    }

    /// The kind whose fixed numeric code is `value`, or `None` when no kind
    /// has that code.
    pub fn from_code(value: u8) -> (r: Option<NodeKind>)
        ensures
            r matches Some(k) ==> spec_node_code(k) == value,
            r is None <==> value > 7,
    {
        match value {
            0 => Some(NodeKind::Program),
            1 => Some(NodeKind::StatementBlock),
            2 => Some(NodeKind::VariableStatement),
            3 => Some(NodeKind::IfStatement),
            4 => Some(NodeKind::WhileStatement),
            5 => Some(NodeKind::AssignmentStatement),
            6 => Some(NodeKind::Condition),
            7 => Some(NodeKind::Expression),
            _ => None,
        }
    }
}

/// The mathematical model of an AST node. Each arm carries exactly the
/// payload of the corresponding node kind; identifiers and operators are
/// character sequences, and an expression's leading token is a
/// [`TokenModel`].
pub enum SpecNode {
    Program { block: Box<SpecNode> },
    StatementBlock { statements: Seq<SpecNode> },
    VariableStatement { identifier: Seq<char> },
    IfStatement { condition: Box<SpecNode>, block: Box<SpecNode>, else_block: Option<Box<SpecNode>> },
    WhileStatement { condition: Box<SpecNode>, block: Box<SpecNode> },
    AssignmentStatement { identifier: Seq<char>, value: Box<SpecNode> },
    Condition { left: Box<SpecNode>, operator: Seq<char>, right: Box<SpecNode> },
    Expression { left_token: TokenModel, operator: Option<Seq<char>>, right: Option<Box<SpecNode>> },
}

/// One node of the abstract syntax tree. A node exclusively owns its
/// children; the tree is built bottom-up by the parser and never mutated
/// afterwards.
#[derive(Debug)]
pub enum AstNode {
    /// The root: the whole program's single statement block.
    Program { block: Box<AstNode> },
    /// A non-empty ordered sequence of statements.
    StatementBlock { statements: Vec<AstNode> },
    /// `var <identifier>`.
    VariableStatement { identifier: String },
    /// `if (<condition>) { <block> }`, with an optional `else { ... }`.
    IfStatement { condition: Box<AstNode>, block: Box<AstNode>, else_block: Option<Box<AstNode>> },
    /// `while (<condition>) { <block> }`.
    WhileStatement { condition: Box<AstNode>, block: Box<AstNode> },
    /// `<identifier> = <value>`.
    AssignmentStatement { identifier: String, value: Box<AstNode> },
    /// `<left> (> | < | =) <right>`.
    Condition { left: Box<AstNode>, operator: String, right: Box<AstNode> },
    /// A literal or identifier token, optionally followed by one of
    /// `+ - * /` and a right-hand sub-expression.
    Expression { left_token: Token, operator: Option<String>, right: Option<Box<AstNode>> },
}

/// The mathematical model of an AST node: the same tree over character
/// sequences and token models.
pub open spec fn view_node(n: AstNode) -> SpecNode
    decreases n,
{
    match n {
        AstNode::Program { block } => SpecNode::Program { block: Box::new(view_node(*block)) },
        AstNode::StatementBlock { statements } => SpecNode::StatementBlock {
            statements: view_nodes(statements, 0),
        },
        AstNode::VariableStatement { identifier } => SpecNode::VariableStatement {
            identifier: identifier@,
        },
        AstNode::IfStatement { condition, block, else_block } => SpecNode::IfStatement {
            condition: Box::new(view_node(*condition)),
            block: Box::new(view_node(*block)),
            else_block: match else_block {
                Some(e) => Some(Box::new(view_node(*e))),
                None => None,
            },
        },
        AstNode::WhileStatement { condition, block } => SpecNode::WhileStatement {
            condition: Box::new(view_node(*condition)),
            block: Box::new(view_node(*block)),
        },
        AstNode::AssignmentStatement { identifier, value } => SpecNode::AssignmentStatement {
            identifier: identifier@,
            value: Box::new(view_node(*value)),
        },
        AstNode::Condition { left, operator, right } => SpecNode::Condition {
            left: Box::new(view_node(*left)),
            operator: operator@,
            right: Box::new(view_node(*right)),
        },
        AstNode::Expression { left_token, operator, right } => SpecNode::Expression {
            left_token: left_token@,
            operator: match operator {
                Some(o) => Some(o@),
                None => None,
            },
            right: match right {
                Some(r) => Some(Box::new(view_node(*r))),
                None => None,
            },
        },
    }
}

/// The models of the nodes of `statements` from index `i` on, in order.
pub open spec fn view_nodes(statements: Vec<AstNode>, i: int) -> Seq<SpecNode>
    decreases statements, statements@.len() - i,
{
    if i < 0 || i >= statements@.len() {
        Seq::empty()
    } else {
        seq![view_node(statements@[i])] + view_nodes(statements, i + 1)
    }
}

impl View for AstNode {
    type V = SpecNode;

    open spec fn view(&self) -> SpecNode {
        view_node(*self)
    }
}

/// `view_nodes` is the pointwise model of the vector's elements.
pub proof fn lemma_view_nodes(statements: Vec<AstNode>, i: int)
    requires
        0 <= i <= statements@.len(),
    ensures
        view_nodes(statements, i).len() == statements@.len() - i,
        forall|k: int|
            i <= k < statements@.len() ==> view_nodes(statements, i)[k - i] == view_node(
                statements@[k],
            ),
    decreases statements@.len() - i,
{
    if i < statements@.len() {
        lemma_view_nodes(statements, i + 1);
    }
}

impl AstNode {
    /// The kind of this node.
    pub fn kind(&self) -> (r: NodeKind)
        ensures
            r == self@.kind(),
    {
        match self {
            AstNode::Program { .. } => NodeKind::Program,
            AstNode::StatementBlock { .. } => NodeKind::StatementBlock,
            AstNode::VariableStatement { .. } => NodeKind::VariableStatement,
            AstNode::IfStatement { .. } => NodeKind::IfStatement,
            AstNode::WhileStatement { .. } => NodeKind::WhileStatement,
            AstNode::AssignmentStatement { .. } => NodeKind::AssignmentStatement,
            AstNode::Condition { .. } => NodeKind::Condition,
            AstNode::Expression { .. } => NodeKind::Expression,
        }
    }
}

impl SpecNode {
    /// The kind of this node.
    pub open spec fn kind(self) -> NodeKind {
        match self {
            SpecNode::Program { .. } => NodeKind::Program,
            SpecNode::StatementBlock { .. } => NodeKind::StatementBlock,
            SpecNode::VariableStatement { .. } => NodeKind::VariableStatement,
            SpecNode::IfStatement { .. } => NodeKind::IfStatement,
            SpecNode::WhileStatement { .. } => NodeKind::WhileStatement,
            SpecNode::AssignmentStatement { .. } => NodeKind::AssignmentStatement,
            SpecNode::Condition { .. } => NodeKind::Condition,
            SpecNode::Expression { .. } => NodeKind::Expression,
        }
    }
}


/// A structurally well-formed tree, as the parser builds it: every
/// statement block holds at least one statement, an expression carries an
/// operator exactly when it carries a right-hand side, and every child
/// slot holds a node of the kind it names.
pub open spec fn wf_node(n: SpecNode) -> bool
    decreases n, 0int,
{
    match n {
        SpecNode::Program { block } => (*block) is StatementBlock && wf_node(*block),
        SpecNode::StatementBlock { statements } => statements.len() >= 1 && wf_stmts(
            statements,
            0,
        ),
        SpecNode::VariableStatement { .. } => true,
        SpecNode::IfStatement { condition, block, else_block } => {
            &&& (*condition) is Condition
            &&& wf_node(*condition)
            &&& (*block) is StatementBlock
            &&& wf_node(*block)
            &&& match else_block {
                Some(e) => (*e) is StatementBlock && wf_node(*e),
                None => true,
            }
        },
        SpecNode::WhileStatement { condition, block } => {
            &&& (*condition) is Condition
            &&& wf_node(*condition)
            &&& (*block) is StatementBlock
            &&& wf_node(*block)
        },
        SpecNode::AssignmentStatement { value, .. } => (*value) is Expression && wf_node(*value),
        SpecNode::Condition { left, right, .. } => {
            &&& (*left) is Expression
            &&& wf_node(*left)
            &&& (*right) is Expression
            &&& wf_node(*right)
        },
        SpecNode::Expression { operator, right, .. } => {
            &&& (operator is Some <==> right is Some)
            &&& match right {
                Some(r) => (*r) is Expression && wf_node(*r),
                None => true,
            }
        },
    }
}

/// Whether every statement from index `i` on is well-formed.
pub open spec fn wf_stmts(ss: Seq<SpecNode>, i: int) -> bool
    decreases ss, ss.len() - i,
{
    if i < 0 || i >= ss.len() {
        true
    } else {
        wf_node(ss[i]) && wf_stmts(ss, i + 1)
    }
}

} // verus!

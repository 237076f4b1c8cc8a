//! The expression node model: a closed tagged union of four node kinds.
//! Every node exclusively owns its children, so a tree is finite and no
//! node is referenced from two places.

use vstd::prelude::*;
use crate::token::{Token, TokenView};
use crate::errors::ScriptError;

verus! {

/// One expression tree node.
#[derive(Debug)]
pub enum Expression {
    Unary(UnaryExpression),
    Binary(BinaryExpression),
    Grouping(GroupingExpression),
    Literal(LiteralExpression),
}

/// A prefix operator applied to one operand.
#[derive(Debug)]
pub struct UnaryExpression {
    pub operator: Token,
    pub right: Box<Expression>,
}

/// An infix operator applied to two operands.
#[derive(Debug)]
pub struct BinaryExpression {
    pub left: Box<Expression>,
    pub operator: Token,
    pub right: Box<Expression>,
}

/// A parenthesized sub-expression, kept as its own node so precedence is
/// explicit in the tree shape.
#[derive(Debug)]
pub struct GroupingExpression {
    pub group: Box<Expression>,
}

/// A literal value: a number, a string, `true`, `false` or `null`.
#[derive(Debug)]
pub struct LiteralExpression {
    pub literal: Token,
}

/// The mathematical value of an expression tree.
pub enum ExprView {
    Unary { operator: TokenView, right: Box<ExprView> },
    Binary { left: Box<ExprView>, operator: TokenView, right: Box<ExprView> },
    Grouping { group: Box<ExprView> },
    Literal { literal: TokenView },
}

/// The view of a whole tree, node by node.
pub open spec fn spec_expr_view(e: Expression) -> ExprView
    decreases e,
{
    match e {
        Expression::Unary(u) => ExprView::Unary {
            operator: u.operator@,
            right: Box::new(spec_expr_view(*u.right)),
        },
        Expression::Binary(b) => ExprView::Binary {
            left: Box::new(spec_expr_view(*b.left)),
            operator: b.operator@,
            right: Box::new(spec_expr_view(*b.right)),
        },
        Expression::Grouping(g) => ExprView::Grouping { group: Box::new(spec_expr_view(*g.group)) },
        Expression::Literal(l) => ExprView::Literal { literal: l.literal@ },
    }
}

impl View for Expression {
    type V = ExprView;

    open spec fn view(&self) -> ExprView {
        spec_expr_view(*self)
    }
}

impl View for UnaryExpression {
    type V = ExprView;

    open spec fn view(&self) -> ExprView {
        spec_expr_view(Expression::Unary(*self))
    }
}

impl View for BinaryExpression {
    type V = ExprView;

    open spec fn view(&self) -> ExprView {
        spec_expr_view(Expression::Binary(*self))
    }
}

impl View for GroupingExpression {
    type V = ExprView;

    open spec fn view(&self) -> ExprView {
        spec_expr_view(Expression::Grouping(*self))
    }
}

impl View for LiteralExpression {
    type V = ExprView;

    open spec fn view(&self) -> ExprView {
        spec_expr_view(Expression::Literal(*self))
    }
}

/// A traversal capability: one handler per node kind.  Implementing this
/// trait is the sole extension point for new traversals; the node
/// definitions themselves only dispatch.
pub trait ExpressionVisitor<T> {
    fn visit_unary(&self, expression: &UnaryExpression) -> Result<T, ScriptError>;

    fn visit_binary(&self, expression: &BinaryExpression) -> Result<T, ScriptError>;

    fn visit_grouping(&self, expression: &GroupingExpression) -> Result<T, ScriptError>;

    fn visit_literal(&self, expression: &LiteralExpression) -> Result<T, ScriptError>;
}

impl Expression {
    /// Double dispatch: hands this node to the visitor's handler for its
    /// kind.
    pub fn accept<T, V: ExpressionVisitor<T>>(&self, visitor: &V) -> Result<T, ScriptError> {
        match self {
            Expression::Unary(unary) => unary.accept(visitor),
            Expression::Binary(binary) => binary.accept(visitor),
            Expression::Grouping(grouping) => grouping.accept(visitor),
            Expression::Literal(literal) => literal.accept(visitor),
        }
    }
}

impl UnaryExpression {
    pub fn accept<T, V: ExpressionVisitor<T>>(&self, visitor: &V) -> Result<T, ScriptError> {
        visitor.visit_unary(self)
    }
}

impl BinaryExpression {
    pub fn accept<T, V: ExpressionVisitor<T>>(&self, visitor: &V) -> Result<T, ScriptError> {
        visitor.visit_binary(self)
    }
}

impl GroupingExpression {
    pub fn accept<T, V: ExpressionVisitor<T>>(&self, visitor: &V) -> Result<T, ScriptError> {
        visitor.visit_grouping(self)
    }
}

impl LiteralExpression {
    pub fn accept<T, V: ExpressionVisitor<T>>(&self, visitor: &V) -> Result<T, ScriptError> {
        visitor.visit_literal(self)
    }
}

} // verus!

//! The abstract syntax tree: a closed set of four node kinds, each owning
//! its children, together with the visitor extension point and the
//! canonical printer.

pub mod types;
pub mod printer;

pub use types::{
    Expression, ExprView, UnaryExpression, BinaryExpression, GroupingExpression,
    LiteralExpression, ExpressionVisitor, spec_expr_view,
};
pub use printer::{AstPrinter, spec_print};

//! The canonical printer: renders any expression tree to fully
//! parenthesized prefix notation, the deterministic textual form used as a
//! test oracle.  It validates on the way that every operator token belongs
//! to the subset the parser is permitted to place at that node kind, and
//! fails rather than guessing on a token the parser could never have put
//! there.

use vstd::prelude::*;
use vstd::string::{StringExecFns, StrSliceExecFns};
use crate::token::{
    Token, spec_unary_symbol, spec_binary_symbol, spec_literal_text,
};
use crate::errors::ScriptError;
use crate::ast::types::{
    Expression, ExprView, UnaryExpression, BinaryExpression, GroupingExpression,
    LiteralExpression, ExpressionVisitor,
};

verus! {

/// The canonical text of an expression tree: a unary or binary node is
/// `(<symbol> <operand>...)`, a grouping is `(group <inner>)`, a literal
/// is its own text.  A node whose operator or literal token lies outside
/// the subset valid for its kind renders to `AstPrinterError`, and a
/// failure in any child aborts the whole rendering, the leftmost child
/// first.
pub open spec fn spec_print(e: ExprView) -> Result<Seq<char>, ScriptError>
    decreases e,
{
    match e {
        ExprView::Literal { literal } => match spec_literal_text(literal) {
            Some(s) => Ok(s),
            None => Err(ScriptError::AstPrinterError),
        },
        ExprView::Unary { operator, right } => match spec_unary_symbol(operator) {
            Some(sym) => match spec_print(*right) {
                Ok(rs) => Ok("("@ + sym + " "@ + rs + ")"@),
                Err(e) => Err(e),
            },
            None => Err(ScriptError::AstPrinterError),
        },
        ExprView::Binary { left, operator, right } => match spec_binary_symbol(operator) {
            Some(sym) => match spec_print(*left) {
                Ok(ls) => match spec_print(*right) {
                    Ok(rs) => Ok("("@ + sym + " "@ + ls + " "@ + rs + ")"@),
                    Err(e) => Err(e),
                },
                Err(e) => Err(e),
            },
            None => Err(ScriptError::AstPrinterError),
        },
        ExprView::Grouping { group } => match spec_print(*group) {
            Ok(gs) => Ok("("@ + "group"@ + " "@ + gs + ")"@),
            Err(e) => Err(e),
        },
    }
}

/// The reference traversal that renders a tree to its canonical text.
#[derive(Debug)]
pub struct AstPrinter;

impl AstPrinter {
    /// Renders the whole tree, or fails on the first operator token that
    /// is invalid for its node kind.
    pub fn print(&self, expression: Expression) -> (r: Result<String, ScriptError>)
        ensures
            match r {
                Ok(s) => spec_print(expression@) == Ok::<Seq<char>, ScriptError>(s@),
                Err(e) => spec_print(expression@) == Err::<Seq<char>, ScriptError>(e),
            },
    {
        render(&expression)
    }
}

/// Renders one node and its children, recursively.
fn render(expression: &Expression) -> (r: Result<String, ScriptError>)
    ensures
        match r {
            Ok(s) => spec_print(expression@) == Ok::<Seq<char>, ScriptError>(s@),
            Err(e) => spec_print(expression@) == Err::<Seq<char>, ScriptError>(e),
        },
    decreases expression,
{
    match expression {
        Expression::Unary(unary) => render_unary(unary),
        Expression::Binary(binary) => render_binary(binary),
        Expression::Grouping(grouping) => render_grouping(grouping),
        Expression::Literal(literal) => render_literal(literal),
    }
}

fn render_unary(expression: &UnaryExpression) -> (r: Result<String, ScriptError>)
    ensures
        match r {
            Ok(s) => spec_print(expression@) == Ok::<Seq<char>, ScriptError>(s@),
            Err(e) => spec_print(expression@) == Err::<Seq<char>, ScriptError>(e),
        },
    decreases expression,
{
    let name: &str = match &expression.operator {
        Token::Bang => "!",
        Token::Minus => "-",
        _ => {
            return Err(ScriptError::AstPrinterError);
        },
    };
    let rendered = match render(&*expression.right) {
        Ok(s) => s,
        Err(e) => {
            return Err(e);
        },
    };
    let mut out = String::from_str("(");
    out.append(name);
    out.append(" ");
    out.append(rendered.as_str());
    out.append(")");
    Ok(out)
}

fn render_binary(expression: &BinaryExpression) -> (r: Result<String, ScriptError>)
    ensures
        match r {
            Ok(s) => spec_print(expression@) == Ok::<Seq<char>, ScriptError>(s@),
            Err(e) => spec_print(expression@) == Err::<Seq<char>, ScriptError>(e),
        },
    decreases expression,
{
    let name: &str = match &expression.operator {
        Token::BangEqual => "!=",
        Token::EqualEqual => "==",
        Token::Greater => ">",
        Token::GreaterEqual => ">=",
        Token::Less => "<",
        Token::LessEqual => "<=",
        Token::Minus => "-",
        Token::Plus => "+",
        Token::Slash => "/",
        Token::Star => "*",
        _ => {
            return Err(ScriptError::AstPrinterError);
        },
    };
    let left = match render(&*expression.left) {
        Ok(s) => s,
        Err(e) => {
            return Err(e);
        },
    };
    let right = match render(&*expression.right) {
        Ok(s) => s,
        Err(e) => {
            return Err(e);
        },
    };
    let mut out = String::from_str("(");
    out.append(name);
    out.append(" ");
    out.append(left.as_str());
    out.append(" ");
    out.append(right.as_str());
    out.append(")");
    Ok(out)
}

fn render_grouping(expression: &GroupingExpression) -> (r: Result<String, ScriptError>)
    ensures
        match r {
            Ok(s) => spec_print(expression@) == Ok::<Seq<char>, ScriptError>(s@),
            Err(e) => spec_print(expression@) == Err::<Seq<char>, ScriptError>(e),
        },
    decreases expression,
{
    let inner = match render(&*expression.group) {
        Ok(s) => s,
        Err(e) => {
            return Err(e);
        },
    };
    let mut out = String::from_str("(");
    out.append("group");
    out.append(" ");
    out.append(inner.as_str());
    out.append(")");
    Ok(out)
}

fn render_literal(expression: &LiteralExpression) -> (r: Result<String, ScriptError>)
    ensures
        match r {
            Ok(s) => spec_print(expression@) == Ok::<Seq<char>, ScriptError>(s@),
            Err(e) => spec_print(expression@) == Err::<Seq<char>, ScriptError>(e),
        },
{
    match &expression.literal {
        Token::Number(text) => Ok(text.clone()),
        Token::StringLiteral(text) => Ok(text.clone()),
        Token::True => Ok(String::from_str("true")),
        Token::False => Ok(String::from_str("false")),
        Token::Null => Ok(String::from_str("null")),
        _ => Err(ScriptError::AstPrinterError),
    }
}

impl ExpressionVisitor<String> for AstPrinter {
    fn visit_unary(&self, expression: &UnaryExpression) -> Result<String, ScriptError> {
        render_unary(expression)
    }

    fn visit_binary(&self, expression: &BinaryExpression) -> Result<String, ScriptError> {
        render_binary(expression)
    }

    fn visit_grouping(&self, expression: &GroupingExpression) -> Result<String, ScriptError> {
        render_grouping(expression)
    }

    fn visit_literal(&self, expression: &LiteralExpression) -> Result<String, ScriptError> {
        render_literal(expression)
    }
}

} // verus!

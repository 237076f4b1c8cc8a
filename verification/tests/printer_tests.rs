//! Printer tests: canonical rendering of hand-built trees, and the
//! defensive check that rejects an operator token the parser could never
//! have placed at that node kind.

use lhscript::ast::{
    AstPrinter, BinaryExpression, Expression, GroupingExpression, LiteralExpression,
    UnaryExpression,
};
use lhscript::errors::{ParserError, ScannerError, ScriptError};
use lhscript::token::{Position, Token};

fn sample_tree() -> Expression {
    Expression::Binary(BinaryExpression {
        left: Box::new(Expression::Unary(UnaryExpression {
            operator: Token::Minus,
            right: Box::new(Expression::Literal(LiteralExpression {
                literal: Token::Number(String::from("123")),
            })),
        })),
        operator: Token::Star,
        right: Box::new(Expression::Grouping(GroupingExpression {
            group: Box::new(Expression::Literal(LiteralExpression {
                literal: Token::Number(String::from("45.67")),
            })),
        })),
    })
}

#[test]
fn printer_print() {
    let expr = sample_tree();

    let printer = AstPrinter;
    let exp = printer.print(expr).unwrap();

    assert_eq!(exp, "(* (- 123) (group 45.67))");
}

#[test]
fn expression_print() {
    let expr = sample_tree();

    let printer = AstPrinter;
    let exp = printer.print(expr).unwrap();

    assert_eq!(exp, "(* (- 123) (group 45.67))");
}

#[test]
fn every_binary_operator_renders() {
    let cases = [
        (Token::BangEqual, "(!= 1 2)"),
        (Token::EqualEqual, "(== 1 2)"),
        (Token::Greater, "(> 1 2)"),
        (Token::GreaterEqual, "(>= 1 2)"),
        (Token::Less, "(< 1 2)"),
        (Token::LessEqual, "(<= 1 2)"),
        (Token::Minus, "(- 1 2)"),
        (Token::Plus, "(+ 1 2)"),
        (Token::Slash, "(/ 1 2)"),
        (Token::Star, "(* 1 2)"),
    ];
    for (operator, expected) in cases {
        let tree = Expression::Binary(BinaryExpression {
            left: Box::new(Expression::Literal(LiteralExpression {
                literal: Token::Number(String::from("1")),
            })),
            operator,
            right: Box::new(Expression::Literal(LiteralExpression {
                literal: Token::Number(String::from("2")),
            })),
        });
        let printer = AstPrinter;
        assert_eq!(printer.print(tree).unwrap(), expected);
    }
}

#[test]
fn unary_operators_render() {
    let printer = AstPrinter;
    let negation = Expression::Unary(UnaryExpression {
        operator: Token::Bang,
        right: Box::new(Expression::Literal(LiteralExpression { literal: Token::True })),
    });
    assert_eq!(printer.print(negation).unwrap(), "(! true)");
}

#[test]
fn keyword_literals_render() {
    let printer = AstPrinter;
    for (token, expected) in [(Token::True, "true"), (Token::False, "false"), (Token::Null, "null")] {
        let tree = Expression::Literal(LiteralExpression { literal: token });
        assert_eq!(printer.print(tree).unwrap(), expected);
    }
}

#[test]
fn string_literal_renders_unquoted() {
    let printer = AstPrinter;
    let tree = Expression::Literal(LiteralExpression {
        literal: Token::StringLiteral(String::from("plain text")),
    });
    assert_eq!(printer.print(tree).unwrap(), "plain text");
}

#[test]
fn invalid_unary_operator_is_rejected() {
    // `+` is never a unary operator, so the printer refuses to guess.
    let tree = Expression::Unary(UnaryExpression {
        operator: Token::Plus,
        right: Box::new(Expression::Literal(LiteralExpression {
            literal: Token::Number(String::from("1")),
        })),
    });
    let printer = AstPrinter;
    assert_eq!(printer.print(tree).unwrap_err(), ScriptError::AstPrinterError);
}

#[test]
fn invalid_binary_operator_is_rejected() {
    let tree = Expression::Binary(BinaryExpression {
        left: Box::new(Expression::Literal(LiteralExpression {
            literal: Token::Number(String::from("1")),
        })),
        operator: Token::Comma,
        right: Box::new(Expression::Literal(LiteralExpression {
            literal: Token::Number(String::from("2")),
        })),
    });
    let printer = AstPrinter;
    assert_eq!(printer.print(tree).unwrap_err(), ScriptError::AstPrinterError);
}

#[test]
fn invalid_literal_token_is_rejected() {
    // A literal node holding an operator token fails the defensive check,
    // and the failure surfaces from inside a larger tree.
    let tree = Expression::Grouping(GroupingExpression {
        group: Box::new(Expression::Literal(LiteralExpression { literal: Token::Semicolon })),
    });
    let printer = AstPrinter;
    assert_eq!(printer.print(tree).unwrap_err(), ScriptError::AstPrinterError);
}

#[test]
fn error_conversions_wrap_stage_errors() {
    let scan = ScannerError::UnexpectedToken(Position { line: 3, column: 7 });
    assert_eq!(ScriptError::from(scan), ScriptError::ScannerError(scan));

    let parse = ParserError::Consume;
    assert_eq!(ScriptError::from(parse), ScriptError::ParserError(parse));
}

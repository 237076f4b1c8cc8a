//! Parser tests: precedence, associativity, grouping, unary nesting, and
//! both syntax errors, checked through the canonical printer.

use lhscript::ast::AstPrinter;
use lhscript::parser::{Parser, ParserError};
use lhscript::scanner::Scannable;

/// Scans, parses and prints, expecting every stage to succeed.
fn parse_and_print(source: &str) -> String {
    let tokens = source.tokens().unwrap();
    let mut parser = Parser::new(tokens);
    let expression = parser.parse().unwrap();
    let printer = AstPrinter;
    printer.print(expression).unwrap()
}

/// Scans and parses, expecting the parse to fail.
fn parse_error(source: &str) -> ParserError {
    let tokens = source.tokens().unwrap();
    let mut parser = Parser::new(tokens);
    parser.parse().unwrap_err()
}

#[test]
fn basic() {
    let tokens = "2*(4-1.123)".tokens().unwrap();

    let mut parser = Parser::new(tokens);
    let exp = parser.expression().unwrap();

    let printer = AstPrinter;
    let exp_str = printer.print(exp).unwrap();

    assert_eq!(exp_str, "(* 2 (group (- 4 1.123)))");
}

#[test]
fn precedence() {
    assert_eq!(parse_and_print("1+2*3"), "(+ 1 (* 2 3))");
    assert_eq!(parse_and_print("1*2+3"), "(+ (* 1 2) 3)");
    assert_eq!(parse_and_print("1+2/3-4"), "(- (+ 1 (/ 2 3)) 4)");
}

#[test]
fn left_associativity() {
    assert_eq!(parse_and_print("1-2-3"), "(- (- 1 2) 3)");
    assert_eq!(parse_and_print("1/2/3"), "(/ (/ 1 2) 3)");
    assert_eq!(parse_and_print("1<2<3"), "(< (< 1 2) 3)");
}

#[test]
fn grouping_and_precedence() {
    assert_eq!(parse_and_print("2*(4-1.123)"), "(* 2 (group (- 4 1.123)))");
    assert_eq!(parse_and_print("(1+2)*3"), "(* (group (+ 1 2)) 3)");
}

#[test]
fn unary_nesting() {
    assert_eq!(parse_and_print("--1"), "(- (- 1))");
    assert_eq!(parse_and_print("!!true"), "(! (! true))");
    assert_eq!(parse_and_print("-1+2"), "(+ (- 1) 2)");
}

#[test]
fn equality_and_comparison_levels() {
    assert_eq!(parse_and_print("1<=2==true"), "(== (<= 1 2) true)");
    assert_eq!(parse_and_print("1>2!=3>=4"), "(!= (> 1 2) (>= 3 4))");
}

#[test]
fn literal_primaries() {
    assert_eq!(parse_and_print("true"), "true");
    assert_eq!(parse_and_print("false"), "false");
    assert_eq!(parse_and_print("null"), "null");
    assert_eq!(parse_and_print("42"), "42");
    assert_eq!(parse_and_print("\"word\""), "word");
}

#[test]
fn malformed_grouping() {
    // A missing `)` fails while consuming the expected token.
    assert_eq!(parse_error("(1+2"), ParserError::Consume);
    // No production matches a leading `*`.
    assert_eq!(parse_error("*1"), ParserError::Unexpected);
}

#[test]
fn empty_input_has_no_expression() {
    assert_eq!(parse_error(""), ParserError::Unexpected);
}

#[test]
fn dangling_operator() {
    // The right operand of `+` is missing: `primary` meets Eof.
    assert_eq!(parse_error("1+"), ParserError::Unexpected);
}

#[test]
fn whole_pipeline_is_deterministic() {
    // Two independent runs over the same source give the same text.
    let first = parse_and_print("2 * (4 - 1.123) + -7");
    let second = parse_and_print("2 * (4 - 1.123) + -7");
    assert_eq!(first, second);
    assert_eq!(first, "(+ (* 2 (group (- 4 1.123))) (- 7))");
}

//! The front end's cross-stage guarantees.
//!
//! Determinism needs no lemma: `spec_tokenize`, `spec_expression` and
//! `spec_print` are functions of the source text alone, and the executable
//! scanner, parser and printer each carry a contract saying they return
//! exactly those functions' values.  What takes proof is totality: the
//! parser only ever places operator and literal tokens the printer
//! accepts, so on every input that scans and parses, printing succeeds.

use vstd::prelude::*;
use crate::token::{
    TokenView, TokenMetadataView, is_binary_operator, is_unary_operator, is_literal_token,
    lemma_symbol_tables_cover,
};
use crate::scanner::{spec_tokenize, spec_scan, line_comment_end, multiline_comment_scan,
    identifier_end, number_end, string_close, lemma_line_comment_end_bounds,
    lemma_multiline_scan_end_bounds, lemma_identifier_end_bounds, lemma_number_end_bounds,
    lemma_string_close_bounds,
};
use crate::parser::{
    spec_expression, spec_equality, spec_equality_rest, spec_comparison, spec_comparison_rest,
    spec_term, spec_term_rest, spec_factor, spec_factor_rest, spec_unary, spec_primary,
    lemma_spec_comparison_bounds, lemma_spec_term_bounds, lemma_spec_factor_bounds,
    lemma_spec_unary_bounds, lemma_spec_expression_bounds,
};
use crate::ast::types::ExprView;
use crate::ast::printer::spec_print;

verus! {

// ---------------------------------------------------------------------------
// The Eof invariant: every successful scan, of any input, ends in exactly
// one `Eof` token, and `Eof` appears nowhere earlier.
// ---------------------------------------------------------------------------

proof fn lemma_scan_eof_terminated(code: Seq<char>, i: int, line: int, col: int)
    requires
        0 <= i <= code.len(),
    ensures
        spec_scan(code, i, line, col) matches Ok(toks) ==> {
            &&& toks.len() >= 1
            &&& toks.last().token is Eof
            &&& forall|k: int| 0 <= k < toks.len() - 1 ==> !((#[trigger] toks[k]).token is Eof)
        },
    decreases code.len() - i,
{
    if i >= code.len() {
    } else {
        let c = code[i];
        if c == '\n' {
            lemma_scan_eof_terminated(code, i + 1, line + 1, 0);
        } else if crate::scanner::whitespace_char(c) {
            lemma_scan_eof_terminated(code, i + 1, line, col + 1);
        } else if c == '/' && i + 1 < code.len() && code[i + 1] == '/' {
            lemma_line_comment_end_bounds(code, i + 1);
            let m = line_comment_end(code, i + 1);
            lemma_scan_eof_terminated(code, m, line, col + (m - i));
        } else if c == '/' && i + 1 < code.len() && code[i + 1] == '*' {
            lemma_multiline_scan_end_bounds(code, i + 1, line, col + 1);
            let s = multiline_comment_scan(code, i + 1, line, col + 1);
            if s.closed {
                lemma_scan_eof_terminated(code, s.end, s.line, s.col);
            }
        } else if crate::scanner::spec_single_char_token(c) is Some {
            lemma_scan_eof_terminated(code, i + 1, line, col + 1);
        } else if c == '!' || c == '=' || c == '>' || c == '<' {
            if i + 1 < code.len() && code[i + 1] == '=' {
                lemma_scan_eof_terminated(code, i + 2, line, col + 2);
            } else {
                lemma_scan_eof_terminated(code, i + 1, line, col + 1);
            }
        } else if c == '&' || c == '|' {
            if i + 1 < code.len() && code[i + 1] == c {
                lemma_scan_eof_terminated(code, i + 2, line, col + 2);
            }
        } else if crate::scanner::alphabetic_char(c) {
            lemma_identifier_end_bounds(code, i + 1);
            let e = identifier_end(code, i + 1);
            lemma_scan_eof_terminated(code, e, line, col + (e - i));
        } else if crate::scanner::numeric_char(c) {
            lemma_number_end_bounds(code, i + 1);
            let e = number_end(code, i + 1);
            lemma_scan_eof_terminated(code, e, line, col + (e - i));
        } else if c == '"' {
            lemma_string_close_bounds(code, i + 1);
            let k = string_close(code, i + 1);
            if k < code.len() {
                lemma_scan_eof_terminated(code, k + 1, line, col + (k + 1 - i));
            } else {
                lemma_scan_eof_terminated(code, code.len() as int, line, col + (code.len() - i));
            }
        } else {
        }
    }
}

/// Eof invariant: for any input, including the empty one, a successful
/// scan returns a token sequence whose last element is an `Eof` token and
/// in which no other `Eof` appears.
pub proof fn lemma_tokenize_eof_invariant(code: Seq<char>)
    ensures
        spec_tokenize(code) matches Ok(toks) ==> {
            &&& toks.len() >= 1
            &&& toks.last().token is Eof
            &&& forall|k: int| 0 <= k < toks.len() - 1 ==> !((#[trigger] toks[k]).token is Eof)
        },
{
    lemma_scan_eof_terminated(code, 0, 1, 0);
}

// ---------------------------------------------------------------------------
// Pipeline totality: a parsed tree always prints.
// ---------------------------------------------------------------------------

/// A tree whose operator and literal tokens all lie in the subsets the
/// parser is permitted to place: exactly the trees the printer accepts.
pub open spec fn printable(e: ExprView) -> bool
    decreases e,
{
    match e {
        ExprView::Literal { literal } => is_literal_token(literal),
        ExprView::Unary { operator, right } => is_unary_operator(operator) && printable(*right),
        ExprView::Binary { left, operator, right } => is_binary_operator(operator) && printable(
            *left,
        ) && printable(*right),
        ExprView::Grouping { group } => printable(*group),
    }
}

/// The printer renders every printable tree.
pub proof fn lemma_printable_prints(e: ExprView)
    requires
        printable(e),
    ensures
        spec_print(e) is Ok,
    decreases e,
{
    match e {
        ExprView::Literal { literal } => {
            lemma_symbol_tables_cover(literal);
        },
        ExprView::Unary { operator, right } => {
            lemma_symbol_tables_cover(operator);
            lemma_printable_prints(*right);
        },
        ExprView::Binary { left, operator, right } => {
            lemma_symbol_tables_cover(operator);
            lemma_printable_prints(*left);
            lemma_printable_prints(*right);
        },
        ExprView::Grouping { group } => {
            lemma_printable_prints(*group);
        },
    }
}

proof fn lemma_spec_expression_printable(ts: Seq<TokenView>, i: int)
    requires
        0 <= i <= ts.len(),
    ensures
        spec_expression(ts, i) matches Ok((e, j)) ==> printable(e),
    decreases ts.len() - i, 12int,
{
    lemma_spec_equality_printable(ts, i);
}

proof fn lemma_spec_equality_printable(ts: Seq<TokenView>, i: int)
    requires
        0 <= i <= ts.len(),
    ensures
        spec_equality(ts, i) matches Ok((e, j)) ==> printable(e),
    decreases ts.len() - i, 11int,
{
    lemma_spec_comparison_printable(ts, i);
    lemma_spec_comparison_bounds(ts, i);
    if let Ok((left, j)) = spec_comparison(ts, i) {
        lemma_spec_equality_rest_printable(ts, left, j);
    }
}

proof fn lemma_spec_equality_rest_printable(ts: Seq<TokenView>, left: ExprView, i: int)
    requires
        0 <= i <= ts.len(),
        printable(left),
    ensures
        spec_equality_rest(ts, left, i) matches Ok((e, j)) ==> printable(e),
    decreases ts.len() - i, 10int,
{
    if i < ts.len() && crate::token::is_equality_operator(ts[i]) {
        lemma_spec_comparison_printable(ts, i + 1);
        lemma_spec_comparison_bounds(ts, i + 1);
        if let Ok((right, j)) = spec_comparison(ts, i + 1) {
            let folded = ExprView::Binary {
                left: Box::new(left),
                operator: ts[i],
                right: Box::new(right),
            };
            lemma_spec_equality_rest_printable(ts, folded, j);
        }
    }
}

proof fn lemma_spec_comparison_printable(ts: Seq<TokenView>, i: int)
    requires
        0 <= i <= ts.len(),
    ensures
        spec_comparison(ts, i) matches Ok((e, j)) ==> printable(e),
    decreases ts.len() - i, 9int,
{
    lemma_spec_term_printable(ts, i);
    lemma_spec_term_bounds(ts, i);
    if let Ok((left, j)) = spec_term(ts, i) {
        lemma_spec_comparison_rest_printable(ts, left, j);
    }
}

proof fn lemma_spec_comparison_rest_printable(ts: Seq<TokenView>, left: ExprView, i: int)
    requires
        0 <= i <= ts.len(),
        printable(left),
    ensures
        spec_comparison_rest(ts, left, i) matches Ok((e, j)) ==> printable(e),
    decreases ts.len() - i, 8int,
{
    if i < ts.len() && crate::token::is_comparison_operator(ts[i]) {
        lemma_spec_term_printable(ts, i + 1);
        lemma_spec_term_bounds(ts, i + 1);
        if let Ok((right, j)) = spec_term(ts, i + 1) {
            let folded = ExprView::Binary {
                left: Box::new(left),
                operator: ts[i],
                right: Box::new(right),
            };
            lemma_spec_comparison_rest_printable(ts, folded, j);
        }
    }
}

proof fn lemma_spec_term_printable(ts: Seq<TokenView>, i: int)
    requires
        0 <= i <= ts.len(),
    ensures
        spec_term(ts, i) matches Ok((e, j)) ==> printable(e),
    decreases ts.len() - i, 7int,
{
    lemma_spec_factor_printable(ts, i);
    lemma_spec_factor_bounds(ts, i);
    if let Ok((left, j)) = spec_factor(ts, i) {
        lemma_spec_term_rest_printable(ts, left, j);
    }
}

proof fn lemma_spec_term_rest_printable(ts: Seq<TokenView>, left: ExprView, i: int)
    requires
        0 <= i <= ts.len(),
        printable(left),
    ensures
        spec_term_rest(ts, left, i) matches Ok((e, j)) ==> printable(e),
    decreases ts.len() - i, 6int,
{
    if i < ts.len() && crate::token::is_term_operator(ts[i]) {
        lemma_spec_factor_printable(ts, i + 1);
        lemma_spec_factor_bounds(ts, i + 1);
        if let Ok((right, j)) = spec_factor(ts, i + 1) {
            let folded = ExprView::Binary {
                left: Box::new(left),
                operator: ts[i],
                right: Box::new(right),
            };
            lemma_spec_term_rest_printable(ts, folded, j);
        }
    }
}

proof fn lemma_spec_factor_printable(ts: Seq<TokenView>, i: int)
    requires
        0 <= i <= ts.len(),
    ensures
        spec_factor(ts, i) matches Ok((e, j)) ==> printable(e),
    decreases ts.len() - i, 5int,
{
    lemma_spec_unary_printable(ts, i);
    lemma_spec_unary_bounds(ts, i);
    if let Ok((left, j)) = spec_unary(ts, i) {
        lemma_spec_factor_rest_printable(ts, left, j);
    }
}

proof fn lemma_spec_factor_rest_printable(ts: Seq<TokenView>, left: ExprView, i: int)
    requires
        0 <= i <= ts.len(),
        printable(left),
    ensures
        spec_factor_rest(ts, left, i) matches Ok((e, j)) ==> printable(e),
    decreases ts.len() - i, 4int,
{
    if i < ts.len() && crate::token::is_factor_operator(ts[i]) {
        lemma_spec_unary_printable(ts, i + 1);
        lemma_spec_unary_bounds(ts, i + 1);
        if let Ok((right, j)) = spec_unary(ts, i + 1) {
            let folded = ExprView::Binary {
                left: Box::new(left),
                operator: ts[i],
                right: Box::new(right),
            };
            lemma_spec_factor_rest_printable(ts, folded, j);
        }
    }
}

proof fn lemma_spec_unary_printable(ts: Seq<TokenView>, i: int)
    requires
        0 <= i <= ts.len(),
    ensures
        spec_unary(ts, i) matches Ok((e, j)) ==> printable(e),
    decreases ts.len() - i, 3int,
{
    if i < ts.len() && is_unary_operator(ts[i]) {
        lemma_spec_unary_printable(ts, i + 1);
    } else {
        lemma_spec_primary_printable(ts, i);
    }
}

proof fn lemma_spec_primary_printable(ts: Seq<TokenView>, i: int)
    requires
        0 <= i <= ts.len(),
    ensures
        spec_primary(ts, i) matches Ok((e, j)) ==> printable(e),
    decreases ts.len() - i, 2int,
{
    if i < ts.len() && !(ts[i] is False) && !(ts[i] is True) && !(ts[i] is Null) && !(ts[i]
        is StringLiteral) && !(ts[i] is Number) && ts[i] is LeftParenthesis {
        lemma_spec_expression_printable(ts, i + 1);
    }
}

/// The token categories of a scanned sequence, as the parser reads them.
pub open spec fn stream_views(toks: Seq<TokenMetadataView>) -> Seq<TokenView> {
    toks.map_values(|t: TokenMetadataView| t.token)
}

/// Pipeline totality: on every syntactically valid input — one whose scan
/// succeeds and whose token sequence parses — printing the parsed tree
/// succeeds as well.  Together with the executable functions' contracts,
/// which pin each stage to `spec_tokenize`, `spec_expression` and
/// `spec_print`, the composed result is a pure function of the source
/// text.
pub proof fn lemma_pipeline_succeeds(
    code: Seq<char>,
    toks: Seq<TokenMetadataView>,
    e: ExprView,
    j: int,
)
    requires
        spec_tokenize(code) == Ok::<Seq<TokenMetadataView>, crate::errors::ScannerError>(toks),
        spec_expression(stream_views(toks), 0) == Ok::<(ExprView, int), crate::errors::ParserError>(
            (e, j),
        ),
    ensures
        spec_print(e) is Ok,
{
    lemma_spec_expression_printable(stream_views(toks), 0);
    lemma_printable_prints(e);
}

} // verus!

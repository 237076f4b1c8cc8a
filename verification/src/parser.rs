//! The parser: LL(1) recursive descent over the token sequence, producing
//! one expression tree or a syntax error.  It inspects at most the current
//! token, never backtracks, and its cursor never moves backward.
//!
//! The `spec_*` functions are the grammar itself, one per level, in
//! strictly decreasing precedence; each binary level folds a left-leaning
//! chain.  `Parser` is the executable form, proved to return exactly what
//! the grammar says.

use vstd::prelude::*;
use crate::token::{
    Token, TokenView, TokenMetadata, is_equality_operator, is_comparison_operator,
    is_term_operator, is_factor_operator, is_unary_operator,
};
pub use crate::errors::ParserError;
use crate::ast::types::{
    Expression, ExprView, UnaryExpression, BinaryExpression, GroupingExpression,
    LiteralExpression,
};

verus! {

// ---------------------------------------------------------------------------
// The grammar.  Each function returns the parsed tree and the cursor after
// it, or the error that aborts the parse:
//
//   expression  → equality
//   equality    → comparison (("!=" | "==") comparison)*
//   comparison  → term ((">" | ">=" | "<" | "<=") term)*
//   term        → factor (("-" | "+") factor)*
//   factor      → unary (("/" | "*") unary)*
//   unary       → ("!" | "-") unary | primary
//   primary     → NUMBER | STRING | "true" | "false" | "null"
//               | "(" expression ")"
//
// The cursor checks guarding each recursive continuation are vacuous —
// a successful sub-parse always moves the cursor forward and never past
// the end (`lemma_spec_expression_bounds`) — but they let the recursion's
// termination stand on the cursor alone.
// ---------------------------------------------------------------------------

/// The entry point of the grammar.
pub open spec fn spec_expression(ts: Seq<TokenView>, i: int) -> Result<(ExprView, int), ParserError>
    decreases ts.len() - i, 12int
        when 0 <= i <= ts.len()
{
    spec_equality(ts, i)
}

pub open spec fn spec_equality(ts: Seq<TokenView>, i: int) -> Result<(ExprView, int), ParserError>
    decreases ts.len() - i, 11int
        when 0 <= i <= ts.len()
{
    match spec_comparison(ts, i) {
        Ok((left, j)) => if i <= j <= ts.len() {
            spec_equality_rest(ts, left, j)
        } else {
            Err(ParserError::Unexpected)
        },
        Err(e) => Err(e),
    }
}

/// Folds `("!=" | "==") comparison` repetitions, each fresh operand the
/// right child of a new binary node whose left child is the running result.
pub open spec fn spec_equality_rest(ts: Seq<TokenView>, left: ExprView, i: int) -> Result<
    (ExprView, int),
    ParserError,
>
    decreases ts.len() - i, 10int
        when 0 <= i <= ts.len()
{
    if i < ts.len() && is_equality_operator(ts[i]) {
        match spec_comparison(ts, i + 1) {
            Ok((right, j)) => {
                let folded = ExprView::Binary {
                    left: Box::new(left),
                    operator: ts[i],
                    right: Box::new(right),
                };
                if i < j <= ts.len() {
                    spec_equality_rest(ts, folded, j)
                } else {
                    Err(ParserError::Unexpected)
                }
            },
            Err(e) => Err(e),
        }
    } else {
        Ok((left, i))
    }
}

pub open spec fn spec_comparison(ts: Seq<TokenView>, i: int) -> Result<(ExprView, int), ParserError>
    decreases ts.len() - i, 9int
        when 0 <= i <= ts.len()
{
    match spec_term(ts, i) {
        Ok((left, j)) => if i <= j <= ts.len() {
            spec_comparison_rest(ts, left, j)
        } else {
            Err(ParserError::Unexpected)
        },
        Err(e) => Err(e),
    }
}

pub open spec fn spec_comparison_rest(ts: Seq<TokenView>, left: ExprView, i: int) -> Result<
    (ExprView, int),
    ParserError,
>
    decreases ts.len() - i, 8int
        when 0 <= i <= ts.len()
{
    if i < ts.len() && is_comparison_operator(ts[i]) {
        match spec_term(ts, i + 1) {
            Ok((right, j)) => {
                let folded = ExprView::Binary {
                    left: Box::new(left),
                    operator: ts[i],
                    right: Box::new(right),
                };
                if i < j <= ts.len() {
                    spec_comparison_rest(ts, folded, j)
                } else {
                    Err(ParserError::Unexpected)
                }
            },
            Err(e) => Err(e),
        }
    } else {
        Ok((left, i))
    }
}

pub open spec fn spec_term(ts: Seq<TokenView>, i: int) -> Result<(ExprView, int), ParserError>
    decreases ts.len() - i, 7int
        when 0 <= i <= ts.len()
{
    match spec_factor(ts, i) {
        Ok((left, j)) => if i <= j <= ts.len() {
            spec_term_rest(ts, left, j)
        } else {
            Err(ParserError::Unexpected)
        },
        Err(e) => Err(e),
    }
}

pub open spec fn spec_term_rest(ts: Seq<TokenView>, left: ExprView, i: int) -> Result<
    (ExprView, int),
    ParserError,
>
    decreases ts.len() - i, 6int
        when 0 <= i <= ts.len()
{
    if i < ts.len() && is_term_operator(ts[i]) {
        match spec_factor(ts, i + 1) {
            Ok((right, j)) => {
                let folded = ExprView::Binary {
                    left: Box::new(left),
                    operator: ts[i],
                    right: Box::new(right),
                };
                if i < j <= ts.len() {
                    spec_term_rest(ts, folded, j)
                } else {
                    Err(ParserError::Unexpected)
                }
            },
            Err(e) => Err(e),
        }
    } else {
        Ok((left, i))
    }
}

pub open spec fn spec_factor(ts: Seq<TokenView>, i: int) -> Result<(ExprView, int), ParserError>
    decreases ts.len() - i, 5int
        when 0 <= i <= ts.len()
{
    match spec_unary(ts, i) {
        Ok((left, j)) => if i <= j <= ts.len() {
            spec_factor_rest(ts, left, j)
        } else {
            Err(ParserError::Unexpected)
        },
        Err(e) => Err(e),
    }
}

pub open spec fn spec_factor_rest(ts: Seq<TokenView>, left: ExprView, i: int) -> Result<
    (ExprView, int),
    ParserError,
>
    decreases ts.len() - i, 4int
        when 0 <= i <= ts.len()
{
    if i < ts.len() && is_factor_operator(ts[i]) {
        match spec_unary(ts, i + 1) {
            Ok((right, j)) => {
                let folded = ExprView::Binary {
                    left: Box::new(left),
                    operator: ts[i],
                    right: Box::new(right),
                };
                if i < j <= ts.len() {
                    spec_factor_rest(ts, folded, j)
                } else {
                    Err(ParserError::Unexpected)
                }
            },
            Err(e) => Err(e),
        }
    } else {
        Ok((left, i))
    }
}

/// A leading `!` or `-` wraps a recursively parsed unary, so nesting is
/// right-associative; anything else is a primary.
pub open spec fn spec_unary(ts: Seq<TokenView>, i: int) -> Result<(ExprView, int), ParserError>
    decreases ts.len() - i, 3int
        when 0 <= i <= ts.len()
{
    if i < ts.len() && is_unary_operator(ts[i]) {
        match spec_unary(ts, i + 1) {
            Ok((right, j)) => Ok(
                (ExprView::Unary { operator: ts[i], right: Box::new(right) }, j),
            ),
            Err(e) => Err(e),
        }
    } else {
        spec_primary(ts, i)
    }
}

/// Literals are consumed directly; `(` opens a grouping whose inner
/// expression is parsed before the closing `)` is consumed, and a missing
/// `)` fails with `Consume`.  A token matching no production fails with
/// `Unexpected`.
pub open spec fn spec_primary(ts: Seq<TokenView>, i: int) -> Result<(ExprView, int), ParserError>
    decreases ts.len() - i, 2int
        when 0 <= i <= ts.len()
{
    if i < ts.len() && ts[i] is False {
        Ok((ExprView::Literal { literal: TokenView::False }, i + 1))
    } else if i < ts.len() && ts[i] is True {
        Ok((ExprView::Literal { literal: TokenView::True }, i + 1))
    } else if i < ts.len() && ts[i] is Null {
        Ok((ExprView::Literal { literal: TokenView::Null }, i + 1))
    } else if i < ts.len() && ts[i] is StringLiteral {
        Ok((ExprView::Literal { literal: ts[i] }, i + 1))
    } else if i < ts.len() && ts[i] is Number {
        Ok((ExprView::Literal { literal: ts[i] }, i + 1))
    } else if i < ts.len() && ts[i] is LeftParenthesis {
        match spec_expression(ts, i + 1) {
            Ok((inner, j)) => if j < ts.len() && ts[j] is RightParenthesis {
                Ok((ExprView::Grouping { group: Box::new(inner) }, j + 1))
            } else {
                Err(ParserError::Consume)
            },
            Err(e) => Err(e),
        }
    } else {
        Err(ParserError::Unexpected)
    }
}

// ---------------------------------------------------------------------------
// A successful parse at any level consumes at least one token and never
// reads past the end, so the guards above never fire and the executable
// parser's cursor stays in range.
// ---------------------------------------------------------------------------

pub proof fn lemma_spec_expression_bounds(ts: Seq<TokenView>, i: int)
    requires
        0 <= i <= ts.len(),
    ensures
        spec_expression(ts, i) matches Ok((e, j)) ==> i < j <= ts.len(),
    decreases ts.len() - i, 12int,
{
    lemma_spec_equality_bounds(ts, i);
}

pub proof fn lemma_spec_equality_bounds(ts: Seq<TokenView>, i: int)
    requires
        0 <= i <= ts.len(),
    ensures
        spec_equality(ts, i) matches Ok((e, j)) ==> i < j <= ts.len(),
    decreases ts.len() - i, 11int,
{
    lemma_spec_comparison_bounds(ts, i);
    if let Ok((left, j)) = spec_comparison(ts, i) {
        lemma_spec_equality_rest_bounds(ts, left, j);
    }
}

pub proof fn lemma_spec_equality_rest_bounds(ts: Seq<TokenView>, left: ExprView, i: int)
    requires
        0 <= i <= ts.len(),
    ensures
        spec_equality_rest(ts, left, i) matches Ok((e, j)) ==> i <= j <= ts.len(),
    decreases ts.len() - i, 10int,
{
    if i < ts.len() && is_equality_operator(ts[i]) {
        lemma_spec_comparison_bounds(ts, i + 1);
        if let Ok((right, j)) = spec_comparison(ts, i + 1) {
            let folded = ExprView::Binary {
                left: Box::new(left),
                operator: ts[i],
                right: Box::new(right),
            };
            lemma_spec_equality_rest_bounds(ts, folded, j);
        }
    }
}

pub proof fn lemma_spec_comparison_bounds(ts: Seq<TokenView>, i: int)
    requires
        0 <= i <= ts.len(),
    ensures
        spec_comparison(ts, i) matches Ok((e, j)) ==> i < j <= ts.len(),
    decreases ts.len() - i, 9int,
{
    lemma_spec_term_bounds(ts, i);
    if let Ok((left, j)) = spec_term(ts, i) {
        lemma_spec_comparison_rest_bounds(ts, left, j);
    }
}

pub proof fn lemma_spec_comparison_rest_bounds(ts: Seq<TokenView>, left: ExprView, i: int)
    requires
        0 <= i <= ts.len(),
    ensures
        spec_comparison_rest(ts, left, i) matches Ok((e, j)) ==> i <= j <= ts.len(),
    decreases ts.len() - i, 8int,
{
    if i < ts.len() && is_comparison_operator(ts[i]) {
        lemma_spec_term_bounds(ts, i + 1);
        if let Ok((right, j)) = spec_term(ts, i + 1) {
            let folded = ExprView::Binary {
                left: Box::new(left),
                operator: ts[i],
                right: Box::new(right),
            };
            lemma_spec_comparison_rest_bounds(ts, folded, j);
        }
    }
}

pub proof fn lemma_spec_term_bounds(ts: Seq<TokenView>, i: int)
    requires
        0 <= i <= ts.len(),
    ensures
        spec_term(ts, i) matches Ok((e, j)) ==> i < j <= ts.len(),
    decreases ts.len() - i, 7int,
{
    lemma_spec_factor_bounds(ts, i);
    if let Ok((left, j)) = spec_factor(ts, i) {
        lemma_spec_term_rest_bounds(ts, left, j);
    }
}

pub proof fn lemma_spec_term_rest_bounds(ts: Seq<TokenView>, left: ExprView, i: int)
    requires
        0 <= i <= ts.len(),
    ensures
        spec_term_rest(ts, left, i) matches Ok((e, j)) ==> i <= j <= ts.len(),
    decreases ts.len() - i, 6int,
{
    if i < ts.len() && is_term_operator(ts[i]) {
        lemma_spec_factor_bounds(ts, i + 1);
        if let Ok((right, j)) = spec_factor(ts, i + 1) {
            let folded = ExprView::Binary {
                left: Box::new(left),
                operator: ts[i],
                right: Box::new(right),
            };
            lemma_spec_term_rest_bounds(ts, folded, j);
        }
    }
}

pub proof fn lemma_spec_factor_bounds(ts: Seq<TokenView>, i: int)
    requires
        0 <= i <= ts.len(),
    ensures
        spec_factor(ts, i) matches Ok((e, j)) ==> i < j <= ts.len(),
    decreases ts.len() - i, 5int,
{
    lemma_spec_unary_bounds(ts, i);
    if let Ok((left, j)) = spec_unary(ts, i) {
        lemma_spec_factor_rest_bounds(ts, left, j);
    }
}

pub proof fn lemma_spec_factor_rest_bounds(ts: Seq<TokenView>, left: ExprView, i: int)
    requires
        0 <= i <= ts.len(),
    ensures
        spec_factor_rest(ts, left, i) matches Ok((e, j)) ==> i <= j <= ts.len(),
    decreases ts.len() - i, 4int,
{
    if i < ts.len() && is_factor_operator(ts[i]) {
        lemma_spec_unary_bounds(ts, i + 1);
        if let Ok((right, j)) = spec_unary(ts, i + 1) {
            let folded = ExprView::Binary {
                left: Box::new(left),
                operator: ts[i],
                right: Box::new(right),
            };
            lemma_spec_factor_rest_bounds(ts, folded, j);
        }
    }
}

pub proof fn lemma_spec_unary_bounds(ts: Seq<TokenView>, i: int)
    requires
        0 <= i <= ts.len(),
    ensures
        spec_unary(ts, i) matches Ok((e, j)) ==> i < j <= ts.len(),
    decreases ts.len() - i, 3int,
{
    if i < ts.len() && is_unary_operator(ts[i]) {
        lemma_spec_unary_bounds(ts, i + 1);
    } else {
        lemma_spec_primary_bounds(ts, i);
    }
}

pub proof fn lemma_spec_primary_bounds(ts: Seq<TokenView>, i: int)
    requires
        0 <= i <= ts.len(),
    ensures
        spec_primary(ts, i) matches Ok((e, j)) ==> i < j <= ts.len(),
    decreases ts.len() - i, 2int,
{
    if i < ts.len() && !(ts[i] is False) && !(ts[i] is True) && !(ts[i] is Null) && !(ts[i]
        is StringLiteral) && !(ts[i] is Number) && ts[i] is LeftParenthesis {
        lemma_spec_expression_bounds(ts, i + 1);
    }
}

// ---------------------------------------------------------------------------
// The executable parser.
// ---------------------------------------------------------------------------

/// A monotonically advancing cursor over an immutable token sequence.
#[derive(Debug)]
pub struct Parser {
    pub tokens: Vec<TokenMetadata>,
    pub current: usize,
}

impl Parser {
    /// The token categories under the cursor's sequence, positions left
    /// aside: the parser never reads a position.
    pub open spec fn token_views(&self) -> Seq<TokenView> {
        self.tokens@.map_values(|tm: TokenMetadata| tm.token@)
    }

    /// A parser state the methods keep: the sequence ends with `Eof` (as
    /// every scanned sequence does) and the cursor has not passed it, so
    /// the current token always exists.
    pub open spec fn wf(&self) -> bool {
        &&& self.tokens@.len() >= 1
        &&& self.token_views().last() is Eof
        &&& self.current < self.tokens@.len()
    }

    /// Creates a parser over a token sequence, with the cursor on its
    /// first token.
    pub fn new(tokens: Vec<TokenMetadata>) -> (p: Parser)
        ensures
            p.tokens == tokens,
            p.current == 0,
    {
        Parser { tokens, current: 0 }
    }

    /// The token under the cursor, or `None` past the end.
    fn peek(&self) -> (r: Option<&TokenMetadata>)
        ensures
            match r {
                Some(t) => self.current < self.tokens@.len() && *t == self.tokens@[self.current as int],
                None => self.current >= self.tokens@.len(),
            },
    {
        if self.current < self.tokens.len() {
            Some(&self.tokens[self.current])
        } else {
            None
        }
    }

    /// The token just before the cursor, or `None` when nothing has been
    /// consumed yet.
    fn previous(&self) -> (r: Option<&TokenMetadata>)
        ensures
            match r {
                Some(t) => 1 <= self.current && self.current - 1 < self.tokens@.len() && *t
                    == self.tokens@[self.current - 1],
                None => self.current == 0 || self.current - 1 >= self.tokens@.len(),
            },
    {
        if self.current == 0 {
            None
        } else if self.current - 1 < self.tokens.len() {
            Some(&self.tokens[self.current - 1])
        } else {
            None
        }
    }

    /// Moves the cursor forward one token.
    fn advance(&mut self)
        requires
            old(self).current < old(self).tokens@.len(),
        ensures
            final(self).tokens == old(self).tokens,
            final(self).current == old(self).current + 1,
    {
        if self.current < self.tokens.len() {
            self.current = self.current + 1;
        }
    }

    /// Whether the cursor stands on the `Eof` sentinel.
    fn is_at_end(&self) -> (r: bool)
        requires
            self.wf(),
        ensures
            r == (self.token_views()[self.current as int] is Eof),
    {
        match self.peek() {
            Some(t) => t.token == Token::Eof,
            None => false,
        }
    }

    /// Whether the cursor stands on the given token; on `Eof` nothing
    /// matches.
    fn check(&self, token_type: &Token) -> (r: bool)
        requires
            self.wf(),
        ensures
            r == (!(self.token_views()[self.current as int] is Eof) && self.token_views()[self.current as int]
                == token_type@),
    {
        if self.is_at_end() {
            false
        } else {
            match self.peek() {
                Some(t) => t.token == *token_type,
                None => false,
            }
        }
    }

    /// Whether the cursor stands on any of the given token categories; if
    /// so, the cursor moves past it.
    fn matches(&mut self, types: &[Token]) -> (r: bool)
        requires
            old(self).wf(),
        ensures
            final(self).tokens == old(self).tokens,
            final(self).wf(),
            ({
                let tv = old(self).token_views()[old(self).current as int];
                &&& r == (!(tv is Eof) && exists|k: int|
                    0 <= k < types@.len() && tv == types@[k]@)
                &&& (r ==> final(self).current == old(self).current + 1)
                &&& (!r ==> final(self).current == old(self).current)
            }),
    {
        let ghost tv = self.token_views()[self.current as int];
        let n = types.len();
        let mut k: usize = 0;
        while k < n
            invariant
                self.tokens == old(self).tokens,
                self.current == old(self).current,
                self.wf(),
                tv == self.token_views()[self.current as int],
                n == types@.len(),
                k <= n,
                forall|m: int| 0 <= m < k ==> !(!(tv is Eof) && tv == types@[m]@),
            decreases n - k,
        {
            if self.check(&types[k]) {
                proof {
                    assert(self.token_views().last() is Eof);
                }
                self.advance();
                return true;
            }
            k = k + 1;
        }
        false
    }

    /// Consumes the expected token and moves past it, or fails with
    /// `Consume` when some other token stands there.
    fn consume(&mut self, token: &Token) -> (r: Result<(), ParserError>)
        requires
            old(self).wf(),
        ensures
            final(self).tokens == old(self).tokens,
            final(self).wf(),
            ({
                let tv = old(self).token_views()[old(self).current as int];
                if !(tv is Eof) && tv == token@ {
                    r == Ok::<(), ParserError>(()) && final(self).current == old(self).current + 1
                } else {
                    r == Err::<(), ParserError>(ParserError::Consume) && final(self).current == old(
                        self,
                    ).current
                }
            }),
    {
        if self.check(token) {
            proof {
                assert(self.token_views().last() is Eof);
            }
            self.advance();
            Ok(())
        } else {
            Err(ParserError::Consume)
        }
    }

    /// Parses the next expression from the cursor onward.
    pub fn parse(&mut self) -> (r: Result<Expression, ParserError>)
        requires
            old(self).wf(),
        ensures
            final(self).tokens == old(self).tokens,
            final(self).wf(),
            (match r {
                Ok(e) => spec_expression(old(self).token_views(), old(self).current as int) == Ok::<
                    (ExprView, int),
                    ParserError,
                >((e@, final(self).current as int)),
                Err(pe) => spec_expression(old(self).token_views(), old(self).current as int)
                    == Err::<(ExprView, int), ParserError>(pe),
            }),
    {
        self.expression()
    }

    /// `expression → equality`.
    pub fn expression(&mut self) -> (r: Result<Expression, ParserError>)
        requires
            old(self).wf(),
        ensures
            final(self).tokens == old(self).tokens,
            final(self).wf(),
            (match r {
                Ok(e) => spec_expression(old(self).token_views(), old(self).current as int) == Ok::<
                    (ExprView, int),
                    ParserError,
                >((e@, final(self).current as int)),
                Err(pe) => spec_expression(old(self).token_views(), old(self).current as int)
                    == Err::<(ExprView, int), ParserError>(pe),
            }),
        decreases self.tokens@.len() - self.current, 12int,
    {
        self.equality()
    }

    /// `equality → comparison (("!=" | "==") comparison)*`, folded left.
    #[verifier::rlimit(100)]
    fn equality(&mut self) -> (r: Result<Expression, ParserError>)
        requires
            old(self).wf(),
        ensures
            final(self).tokens == old(self).tokens,
            final(self).wf(),
            (match r {
                Ok(e) => spec_equality(old(self).token_views(), old(self).current as int) == Ok::<
                    (ExprView, int),
                    ParserError,
                >((e@, final(self).current as int)),
                Err(pe) => spec_equality(old(self).token_views(), old(self).current as int) == Err::<
                    (ExprView, int),
                    ParserError,
                >(pe),
            }),
        decreases self.tokens@.len() - self.current, 11int,
    {
        let ghost ts = self.token_views();
        let ghost i0 = self.current as int;
        proof {
            lemma_spec_comparison_bounds(ts, i0);
        }
        let mut expression = match self.comparison() {
            Ok(e) => e,
            Err(e) => {
                return Err(e);
            },
        };
        loop
            invariant
                self.wf(),
                self.tokens == old(self).tokens,
                ts == self.token_views(),
                i0 == old(self).current as int,
                i0 < self.current as int <= ts.len(),
                spec_equality(ts, i0) == spec_equality_rest(ts, expression@, self.current as int),
            ensures
                self.wf(),
                self.tokens == old(self).tokens,
                spec_equality(ts, i0) == Ok::<(ExprView, int), ParserError>(
                    (expression@, self.current as int),
                ),
            decreases ts.len() - self.current,
        {
            if !self.matches(&[Token::BangEqual, Token::EqualEqual]) {
                break;
            }
            let operator = self.previous().unwrap().token.clone();
            let ghost iop = self.current as int - 1;
            proof {
                lemma_spec_comparison_bounds(ts, iop + 1);
            }
            let right = match self.comparison() {
                Ok(e) => e,
                Err(e) => {
                    return Err(e);
                },
            };
            expression = Expression::Binary(BinaryExpression {
                left: Box::new(expression),
                operator: operator,
                right: Box::new(right),
            });
        }
        Ok(expression)
    }

    /// `comparison → term ((">" | ">=" | "<" | "<=") term)*`, folded left.
    #[verifier::rlimit(100)]
    fn comparison(&mut self) -> (r: Result<Expression, ParserError>)
        requires
            old(self).wf(),
        ensures
            final(self).tokens == old(self).tokens,
            final(self).wf(),
            (match r {
                Ok(e) => spec_comparison(old(self).token_views(), old(self).current as int) == Ok::<
                    (ExprView, int),
                    ParserError,
                >((e@, final(self).current as int)),
                Err(pe) => spec_comparison(old(self).token_views(), old(self).current as int)
                    == Err::<(ExprView, int), ParserError>(pe),
            }),
        decreases self.tokens@.len() - self.current, 9int,
    {
        let ghost ts = self.token_views();
        let ghost i0 = self.current as int;
        proof {
            lemma_spec_term_bounds(ts, i0);
        }
        let mut expression = match self.term() {
            Ok(e) => e,
            Err(e) => {
                return Err(e);
            },
        };
        loop
            invariant
                self.wf(),
                self.tokens == old(self).tokens,
                ts == self.token_views(),
                i0 == old(self).current as int,
                i0 < self.current as int <= ts.len(),
                spec_comparison(ts, i0) == spec_comparison_rest(
                    ts,
                    expression@,
                    self.current as int,
                ),
            ensures
                self.wf(),
                self.tokens == old(self).tokens,
                spec_comparison(ts, i0) == Ok::<(ExprView, int), ParserError>(
                    (expression@, self.current as int),
                ),
            decreases ts.len() - self.current,
        {
            if !self.matches(
                &[Token::Greater, Token::GreaterEqual, Token::Less, Token::LessEqual],
            ) {
                break;
            }
            let operator = self.previous().unwrap().token.clone();
            let ghost iop = self.current as int - 1;
            proof {
                lemma_spec_term_bounds(ts, iop + 1);
            }
            let right = match self.term() {
                Ok(e) => e,
                Err(e) => {
                    return Err(e);
                },
            };
            expression = Expression::Binary(BinaryExpression {
                left: Box::new(expression),
                operator: operator,
                right: Box::new(right),
            });
        }
        Ok(expression)
    }

    /// `term → factor (("-" | "+") factor)*`, folded left.
    #[verifier::rlimit(100)]
    fn term(&mut self) -> (r: Result<Expression, ParserError>)
        requires
            old(self).wf(),
        ensures
            final(self).tokens == old(self).tokens,
            final(self).wf(),
            (match r {
                Ok(e) => spec_term(old(self).token_views(), old(self).current as int) == Ok::<
                    (ExprView, int),
                    ParserError,
                >((e@, final(self).current as int)),
                Err(pe) => spec_term(old(self).token_views(), old(self).current as int) == Err::<
                    (ExprView, int),
                    ParserError,
                >(pe),
            }),
        decreases self.tokens@.len() - self.current, 7int,
    {
        let ghost ts = self.token_views();
        let ghost i0 = self.current as int;
        proof {
            lemma_spec_factor_bounds(ts, i0);
        }
        let mut expression = match self.factor() {
            Ok(e) => e,
            Err(e) => {
                return Err(e);
            },
        };
        loop
            invariant
                self.wf(),
                self.tokens == old(self).tokens,
                ts == self.token_views(),
                i0 == old(self).current as int,
                i0 < self.current as int <= ts.len(),
                spec_term(ts, i0) == spec_term_rest(ts, expression@, self.current as int),
            ensures
                self.wf(),
                self.tokens == old(self).tokens,
                spec_term(ts, i0) == Ok::<(ExprView, int), ParserError>(
                    (expression@, self.current as int),
                ),
            decreases ts.len() - self.current,
        {
            if !self.matches(&[Token::Minus, Token::Plus]) {
                break;
            }
            let operator = self.previous().unwrap().token.clone();
            let ghost iop = self.current as int - 1;
            proof {
                lemma_spec_factor_bounds(ts, iop + 1);
            }
            let right = match self.factor() {
                Ok(e) => e,
                Err(e) => {
                    return Err(e);
                },
            };
            expression = Expression::Binary(BinaryExpression {
                left: Box::new(expression),
                operator: operator,
                right: Box::new(right),
            });
        }
        Ok(expression)
    }

    /// `factor → unary (("/" | "*") unary)*`, folded left.
    #[verifier::rlimit(100)]
    fn factor(&mut self) -> (r: Result<Expression, ParserError>)
        requires
            old(self).wf(),
        ensures
            final(self).tokens == old(self).tokens,
            final(self).wf(),
            (match r {
                Ok(e) => spec_factor(old(self).token_views(), old(self).current as int) == Ok::<
                    (ExprView, int),
                    ParserError,
                >((e@, final(self).current as int)),
                Err(pe) => spec_factor(old(self).token_views(), old(self).current as int) == Err::<
                    (ExprView, int),
                    ParserError,
                >(pe),
            }),
        decreases self.tokens@.len() - self.current, 5int,
    {
        let ghost ts = self.token_views();
        let ghost i0 = self.current as int;
        proof {
            lemma_spec_unary_bounds(ts, i0);
        }
        let mut expression = match self.unary() {
            Ok(e) => e,
            Err(e) => {
                return Err(e);
            },
        };
        loop
            invariant
                self.wf(),
                self.tokens == old(self).tokens,
                ts == self.token_views(),
                i0 == old(self).current as int,
                i0 < self.current as int <= ts.len(),
                spec_factor(ts, i0) == spec_factor_rest(ts, expression@, self.current as int),
            ensures
                self.wf(),
                self.tokens == old(self).tokens,
                spec_factor(ts, i0) == Ok::<(ExprView, int), ParserError>(
                    (expression@, self.current as int),
                ),
            decreases ts.len() - self.current,
        {
            if !self.matches(&[Token::Slash, Token::Star]) {
                break;
            }
            let operator = self.previous().unwrap().token.clone();
            let ghost iop = self.current as int - 1;
            proof {
                lemma_spec_unary_bounds(ts, iop + 1);
            }
            let right = match self.unary() {
                Ok(e) => e,
                Err(e) => {
                    return Err(e);
                },
            };
            expression = Expression::Binary(BinaryExpression {
                left: Box::new(expression),
                operator: operator,
                right: Box::new(right),
            });
        }
        Ok(expression)
    }

    /// `unary → ("!" | "-") unary | primary`.
    fn unary(&mut self) -> (r: Result<Expression, ParserError>)
        requires
            old(self).wf(),
        ensures
            final(self).tokens == old(self).tokens,
            final(self).wf(),
            (match r {
                Ok(e) => spec_unary(old(self).token_views(), old(self).current as int) == Ok::<
                    (ExprView, int),
                    ParserError,
                >((e@, final(self).current as int)),
                Err(pe) => spec_unary(old(self).token_views(), old(self).current as int) == Err::<
                    (ExprView, int),
                    ParserError,
                >(pe),
            }),
        decreases self.tokens@.len() - self.current, 3int,
    {
        let ghost ts = self.token_views();
        let ghost i0 = self.current as int;
        if self.matches(&[Token::Bang, Token::Minus]) {
            let operator = self.previous().unwrap().token.clone();
            let right = match self.unary() {
                Ok(e) => e,
                Err(e) => {
                    return Err(e);
                },
            };
            return Ok(
                Expression::Unary(UnaryExpression { operator: operator, right: Box::new(right) }),
            );
        }
        self.primary()
    }

    /// `primary → NUMBER | STRING | "true" | "false" | "null"
    /// | "(" expression ")"`.  The inner expression of a grouping is
    /// parsed before the closing parenthesis is consumed.
    fn primary(&mut self) -> (r: Result<Expression, ParserError>)
        requires
            old(self).wf(),
        ensures
            final(self).tokens == old(self).tokens,
            final(self).wf(),
            (match r {
                Ok(e) => spec_primary(old(self).token_views(), old(self).current as int) == Ok::<
                    (ExprView, int),
                    ParserError,
                >((e@, final(self).current as int)),
                Err(pe) => spec_primary(old(self).token_views(), old(self).current as int) == Err::<
                    (ExprView, int),
                    ParserError,
                >(pe),
            }),
        decreases self.tokens@.len() - self.current, 2int,
    {
        let ghost ts = self.token_views();
        let ghost i0 = self.current as int;
        if self.matches(&[Token::False]) {
            return Ok(Expression::Literal(LiteralExpression { literal: Token::False }));
        }
        if self.matches(&[Token::True]) {
            return Ok(Expression::Literal(LiteralExpression { literal: Token::True }));
        }
        if self.matches(&[Token::Null]) {
            return Ok(Expression::Literal(LiteralExpression { literal: Token::Null }));
        }
        let peeked = self.peek().unwrap().token.clone();
        match peeked {
            Token::StringLiteral(s) => {
                proof {
                    assert(self.token_views().last() is Eof);
                }
                self.advance();
                return Ok(
                    Expression::Literal(LiteralExpression { literal: Token::StringLiteral(s) }),
                );
            },
            Token::Number(n) => {
                proof {
                    assert(self.token_views().last() is Eof);
                }
                self.advance();
                return Ok(Expression::Literal(LiteralExpression { literal: Token::Number(n) }));
            },
            _ => {},
        }
        if self.matches(&[Token::LeftParenthesis]) {
            proof {
                lemma_spec_expression_bounds(ts, i0 + 1);
            }
            let inner = match self.expression() {
                Ok(e) => e,
                Err(e) => {
                    return Err(e);
                },
            };
            match self.consume(&Token::RightParenthesis) {
                Ok(_) => {},
                Err(e) => {
                    return Err(e);
                },
            }
            return Ok(Expression::Grouping(GroupingExpression { group: Box::new(inner) }));
        }
        Err(ParserError::Unexpected)
    }
}

} // verus!

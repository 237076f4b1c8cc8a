//! Positions, tokens, and the token-level tables shared by the parser and
//! the printer: which tokens may act as operators at each grammar level,
//! which tokens are literals, and the textual symbol of each operator.

use vstd::prelude::*;

verus! {

/// A 1-indexed line/column location in the source text.
///
/// The scanner advances the column by one for every consumed character; a
/// newline increments the line and resets the column to 0, so the first
/// character of the next line sits at column 1.
#[derive(Debug, Clone, Copy, PartialEq, Eq, Structural)]
pub struct Position {
    pub line: usize,
    pub column: usize,
}

/// A classified lexical unit.  Payload-bearing variants carry the relevant
/// source text: an identifier's name, a string literal's enclosed text, or
/// a number literal's digits exactly as written.
#[derive(Debug)]
pub enum Token {
    // Single-character tokens
    LeftParenthesis,
    RightParenthesis,
    LeftBrace,
    RightBrace,
    Comma,
    Dot,
    Minus,
    Plus,
    Colon,
    Semicolon,
    Slash,
    Star,
    Question,
    // One- or two-character tokens
    Bang,
    BangEqual,
    Equal,
    EqualEqual,
    Greater,
    GreaterEqual,
    Less,
    LessEqual,
    And,
    Or,
    // Literals
    Identifier(String),
    StringLiteral(String),
    Number(String),
    // Keywords
    Class,
    Else,
    False,
    Fn,
    For,
    If,
    Null,
    Print,
    Return,
    Super,
    This,
    True,
    Let,
    While,
    // End-of-input sentinel
    Eof,
}

/// The mathematical value of a `Token`: the same closed set of categories,
/// with each text payload abstracted to its character sequence.
pub enum TokenView {
    LeftParenthesis,
    RightParenthesis,
    LeftBrace,
    RightBrace,
    Comma,
    Dot,
    Minus,
    Plus,
    Colon,
    Semicolon,
    Slash,
    Star,
    Question,
    Bang,
    BangEqual,
    Equal,
    EqualEqual,
    Greater,
    GreaterEqual,
    Less,
    LessEqual,
    And,
    Or,
    Identifier(Seq<char>),
    StringLiteral(Seq<char>),
    Number(Seq<char>),
    Class,
    Else,
    False,
    Fn,
    For,
    If,
    Null,
    Print,
    Return,
    Super,
    This,
    True,
    Let,
    While,
    Eof,
}

impl View for Token {
    type V = TokenView;

    open spec fn view(&self) -> TokenView {
        match self {
            Token::LeftParenthesis => TokenView::LeftParenthesis,
            Token::RightParenthesis => TokenView::RightParenthesis,
            Token::LeftBrace => TokenView::LeftBrace,
            Token::RightBrace => TokenView::RightBrace,
            Token::Comma => TokenView::Comma,
            Token::Dot => TokenView::Dot,
            Token::Minus => TokenView::Minus,
            Token::Plus => TokenView::Plus,
            Token::Colon => TokenView::Colon,
            Token::Semicolon => TokenView::Semicolon,
            Token::Slash => TokenView::Slash,
            Token::Star => TokenView::Star,
            Token::Question => TokenView::Question,
            Token::Bang => TokenView::Bang,
            Token::BangEqual => TokenView::BangEqual,
            Token::Equal => TokenView::Equal,
            Token::EqualEqual => TokenView::EqualEqual,
            Token::Greater => TokenView::Greater,
            Token::GreaterEqual => TokenView::GreaterEqual,
            Token::Less => TokenView::Less,
            Token::LessEqual => TokenView::LessEqual,
            Token::And => TokenView::And,
            Token::Or => TokenView::Or,
            Token::Identifier(s) => TokenView::Identifier(s@),
            Token::StringLiteral(s) => TokenView::StringLiteral(s@),
            Token::Number(s) => TokenView::Number(s@),
            Token::Class => TokenView::Class,
            Token::Else => TokenView::Else,
            Token::False => TokenView::False,
            Token::Fn => TokenView::Fn,
            Token::For => TokenView::For,
            Token::If => TokenView::If,
            Token::Null => TokenView::Null,
            Token::Print => TokenView::Print,
            Token::Return => TokenView::Return,
            Token::Super => TokenView::Super,
            Token::This => TokenView::This,
            Token::True => TokenView::True,
            Token::Let => TokenView::Let,
            Token::While => TokenView::While,
            Token::Eof => TokenView::Eof,
        }
    }
}

impl Clone for Token {
    /// A clone carries the same category and the same payload text.
    fn clone(&self) -> (res: Self)
        ensures
            res == *self,
    {
        match self {
            Token::LeftParenthesis => Token::LeftParenthesis,
            Token::RightParenthesis => Token::RightParenthesis,
            Token::LeftBrace => Token::LeftBrace,
            Token::RightBrace => Token::RightBrace,
            Token::Comma => Token::Comma,
            Token::Dot => Token::Dot,
            Token::Minus => Token::Minus,
            Token::Plus => Token::Plus,
            Token::Colon => Token::Colon,
            Token::Semicolon => Token::Semicolon,
            Token::Slash => Token::Slash,
            Token::Star => Token::Star,
            Token::Question => Token::Question,
            Token::Bang => Token::Bang,
            Token::BangEqual => Token::BangEqual,
            Token::Equal => Token::Equal,
            Token::EqualEqual => Token::EqualEqual,
            Token::Greater => Token::Greater,
            Token::GreaterEqual => Token::GreaterEqual,
            Token::Less => Token::Less,
            Token::LessEqual => Token::LessEqual,
            Token::And => Token::And,
            Token::Or => Token::Or,
            Token::Identifier(s) => Token::Identifier(s.clone()),
            Token::StringLiteral(s) => Token::StringLiteral(s.clone()),
            Token::Number(s) => Token::Number(s.clone()),
            Token::Class => Token::Class,
            Token::Else => Token::Else,
            Token::False => Token::False,
            Token::Fn => Token::Fn,
            Token::For => Token::For,
            Token::If => Token::If,
            Token::Null => Token::Null,
            Token::Print => Token::Print,
            Token::Return => Token::Return,
            Token::Super => Token::Super,
            Token::This => Token::This,
            Token::True => Token::True,
            Token::Let => Token::Let,
            Token::While => Token::While,
            Token::Eof => Token::Eof,
        }
    }
}

impl PartialEq for Token {
    /// Two tokens are equal when their categories and payload texts agree.
    fn eq(&self, other: &Token) -> (r: bool) {
        match (self, other) {
            (Token::LeftParenthesis, Token::LeftParenthesis) => true,
            (Token::RightParenthesis, Token::RightParenthesis) => true,
            (Token::LeftBrace, Token::LeftBrace) => true,
            (Token::RightBrace, Token::RightBrace) => true,
            (Token::Comma, Token::Comma) => true,
            (Token::Dot, Token::Dot) => true,
            (Token::Minus, Token::Minus) => true,
            (Token::Plus, Token::Plus) => true,
            (Token::Colon, Token::Colon) => true,
            (Token::Semicolon, Token::Semicolon) => true,
            (Token::Slash, Token::Slash) => true,
            (Token::Star, Token::Star) => true,
            (Token::Question, Token::Question) => true,
            (Token::Bang, Token::Bang) => true,
            (Token::BangEqual, Token::BangEqual) => true,
            (Token::Equal, Token::Equal) => true,
            (Token::EqualEqual, Token::EqualEqual) => true,
            (Token::Greater, Token::Greater) => true,
            (Token::GreaterEqual, Token::GreaterEqual) => true,
            (Token::Less, Token::Less) => true,
            (Token::LessEqual, Token::LessEqual) => true,
            (Token::And, Token::And) => true,
            (Token::Or, Token::Or) => true,
            (Token::Identifier(a), Token::Identifier(b)) => a.eq(b),
            (Token::StringLiteral(a), Token::StringLiteral(b)) => a.eq(b),
            (Token::Number(a), Token::Number(b)) => a.eq(b),
            (Token::Class, Token::Class) => true,
            (Token::Else, Token::Else) => true,
            (Token::False, Token::False) => true,
            (Token::Fn, Token::Fn) => true,
            (Token::For, Token::For) => true,
            (Token::If, Token::If) => true,
            (Token::Null, Token::Null) => true,
            (Token::Print, Token::Print) => true,
            (Token::Return, Token::Return) => true,
            (Token::Super, Token::Super) => true,
            (Token::This, Token::This) => true,
            (Token::True, Token::True) => true,
            (Token::Let, Token::Let) => true,
            (Token::While, Token::While) => true,
            (Token::Eof, Token::Eof) => true,
            _ => false,
        }
    }
}

impl vstd::std_specs::cmp::PartialEqSpecImpl for Token {
    open spec fn obeys_eq_spec() -> bool {
        true
    }

    open spec fn eq_spec(&self, other: &Token) -> bool {
        self@ == other@
    }
}

/// A token paired with the position of its first character.
#[derive(Debug)]
pub struct TokenMetadata {
    pub token: Token,
    pub position: Position,
}

/// The mathematical value of a `TokenMetadata`.
pub struct TokenMetadataView {
    pub token: TokenView,
    pub position: Position,
}

impl View for TokenMetadata {
    type V = TokenMetadataView;

    open spec fn view(&self) -> TokenMetadataView {
        TokenMetadataView { token: self.token@, position: self.position }
    }
}

impl PartialEq for TokenMetadata {
    /// Token metadata compares by token value and position together.
    fn eq(&self, other: &TokenMetadata) -> (r: bool) {
        self.token == other.token && self.position == other.position
    }
}

impl vstd::std_specs::cmp::PartialEqSpecImpl for TokenMetadata {
    open spec fn obeys_eq_spec() -> bool {
        true
    }

    open spec fn eq_spec(&self, other: &TokenMetadata) -> bool {
        self@ == other@
    }
}

// ---------------------------------------------------------------------------
// The operator tables.  The parser consults them to decide which tokens are
// legal at each grammar level, and the printer consults the same tables to
// render an operator and to reject a token that the parser could never have
// placed at that node.
// ---------------------------------------------------------------------------

/// Operators of the `equality` grammar level.
pub open spec fn is_equality_operator(t: TokenView) -> bool {
    t is BangEqual || t is EqualEqual
}

/// Operators of the `comparison` grammar level.
pub open spec fn is_comparison_operator(t: TokenView) -> bool {
    t is Greater || t is GreaterEqual || t is Less || t is LessEqual
}

/// Operators of the `term` grammar level.
pub open spec fn is_term_operator(t: TokenView) -> bool {
    t is Minus || t is Plus
}

/// Operators of the `factor` grammar level.
pub open spec fn is_factor_operator(t: TokenView) -> bool {
    t is Slash || t is Star
}

/// Every token the parser may place as the operator of a binary node.
pub open spec fn is_binary_operator(t: TokenView) -> bool {
    is_equality_operator(t) || is_comparison_operator(t) || is_term_operator(t)
        || is_factor_operator(t)
}

/// Every token the parser may place as the operator of a unary node.
pub open spec fn is_unary_operator(t: TokenView) -> bool {
    t is Bang || t is Minus
}

/// Every token the parser may place as the value of a literal node.
pub open spec fn is_literal_token(t: TokenView) -> bool {
    t is Number || t is StringLiteral || t is True || t is False || t is Null
}

/// The textual symbol of a unary operator, or `None` for any other token.
pub open spec fn spec_unary_symbol(t: TokenView) -> Option<Seq<char>> {
    match t {
        TokenView::Bang => Some("!"@),
        TokenView::Minus => Some("-"@),
        _ => None,
    }
}

/// The textual symbol of a binary operator, or `None` for any other token.
pub open spec fn spec_binary_symbol(t: TokenView) -> Option<Seq<char>> {
    match t {
        TokenView::BangEqual => Some("!="@),
        TokenView::EqualEqual => Some("=="@),
        TokenView::Greater => Some(">"@),
        TokenView::GreaterEqual => Some(">="@),
        TokenView::Less => Some("<"@),
        TokenView::LessEqual => Some("<="@),
        TokenView::Minus => Some("-"@),
        TokenView::Plus => Some("+"@),
        TokenView::Slash => Some("/"@),
        TokenView::Star => Some("*"@),
        _ => None,
    }
}

/// The text a literal token renders as: a number literal's source text, a
/// string literal's enclosed text verbatim, or the keyword's spelling.
pub open spec fn spec_literal_text(t: TokenView) -> Option<Seq<char>> {
    match t {
        TokenView::Number(n) => Some(n),
        TokenView::StringLiteral(s) => Some(s),
        TokenView::True => Some("true"@),
        TokenView::False => Some("false"@),
        TokenView::Null => Some("null"@),
        _ => None,
    }
}

/// The operator subsets and the symbol table agree: a token has a unary
/// symbol exactly when it is a unary operator, and likewise for binary
/// operators and literals.
pub proof fn lemma_symbol_tables_cover(t: TokenView)
    ensures
        spec_unary_symbol(t) is Some <==> is_unary_operator(t),
        spec_binary_symbol(t) is Some <==> is_binary_operator(t),
        spec_literal_text(t) is Some <==> is_literal_token(t),
{
}

// ---------------------------------------------------------------------------
// Keyword classification and number-literal validity.
// ---------------------------------------------------------------------------

/// Classifies a scanned word against the fixed keyword table; any text that
/// is not a reserved keyword is an identifier.
pub open spec fn spec_keyword_or_identifier(text: Seq<char>) -> TokenView {
    if text == "class"@ {
        TokenView::Class
    } else if text == "else"@ {
        TokenView::Else
    } else if text == "false"@ {
        TokenView::False
    } else if text == "fn"@ {
        TokenView::Fn
    } else if text == "for"@ {
        TokenView::For
    } else if text == "if"@ {
        TokenView::If
    } else if text == "null"@ {
        TokenView::Null
    } else if text == "print"@ {
        TokenView::Print
    } else if text == "return"@ {
        TokenView::Return
    } else if text == "super"@ {
        TokenView::Super
    } else if text == "this"@ {
        TokenView::This
    } else if text == "true"@ {
        TokenView::True
    } else if text == "let"@ {
        TokenView::Let
    } else if text == "while"@ {
        TokenView::While
    } else {
        TokenView::Identifier(text)
    }
}

/// An ASCII decimal digit.
pub open spec fn is_plain_digit(c: char) -> bool {
    '0' <= c && c <= '9'
}

/// How many `.` characters the text contains.
pub open spec fn dot_count(text: Seq<char>) -> int
    decreases text.len(),
{
    if text.len() == 0 {
        0
    } else {
        dot_count(text.drop_last()) + if text.last() == '.' { 1int } else { 0int }
    }
}

pub proof fn lemma_dot_count_nonneg(text: Seq<char>)
    ensures
        dot_count(text) >= 0,
    decreases text.len(),
{
    if text.len() > 0 {
        lemma_dot_count_nonneg(text.drop_last());
    }
}

/// A scanned number literal is well formed exactly when it consists of
/// ASCII digits and at most one decimal point.  On the digit-led texts the
/// scanner produces, this is precisely when the text denotes a decimal
/// number.
pub open spec fn valid_number_text(text: Seq<char>) -> bool {
    (forall|k: int|
        0 <= k < text.len() ==> (is_plain_digit(#[trigger] text[k]) || text[k] == '.'))
        && dot_count(text) <= 1
}

} // verus!

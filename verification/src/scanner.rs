//! The scanner: one forward pass over the character sequence with
//! one-character lookahead, producing an ordered, `Eof`-terminated token
//! sequence or a single lexical error.
//!
//! `spec_tokenize` is the mathematical description of the pass; `Scanner`
//! and `tokenize` are the executable form, proved to return exactly what
//! `spec_tokenize` says.

use vstd::prelude::*;
use vstd::string::StrSliceExecFns;
use crate::token::{
    Token, TokenView, TokenMetadata, TokenMetadataView, spec_keyword_or_identifier,
    valid_number_text,
};
pub use crate::errors::ScannerError;
pub use crate::token::Position;

verus! {

// ---------------------------------------------------------------------------
// Character classes.  The scanner classifies characters exactly as the
// standard library does; the Unicode tables behind these predicates are a
// function of the character alone, so each gets a name that the wrappers'
// contracts share.
// ---------------------------------------------------------------------------

/// Whether a character has the Unicode `White_Space` property.
pub uninterp spec fn whitespace_char(c: char) -> bool;

/// Whether a character has the Unicode `Alphabetic` property.
pub uninterp spec fn alphabetic_char(c: char) -> bool;

/// Whether a character is Unicode-numeric (general categories Nd, Nl, No).
pub uninterp spec fn numeric_char(c: char) -> bool;

/// Relies on `char::is_whitespace`: true exactly for characters with the
/// Unicode `White_Space` property, a function of the character alone.
#[verifier::external_body]
fn is_whitespace_char(c: char) -> (r: bool)
    ensures
        r == whitespace_char(c),
{
    c.is_whitespace()
}

/// Relies on `char::is_alphabetic`: true exactly for characters with the
/// Unicode `Alphabetic` property, a function of the character alone.
#[verifier::external_body]
fn is_alphabetic_char(c: char) -> (r: bool)
    ensures
        r == alphabetic_char(c),
{
    c.is_alphabetic()
}

/// Relies on `char::is_numeric`: true exactly for characters in the Unicode
/// general categories Nd, Nl and No, a function of the character alone.
#[verifier::external_body]
fn is_numeric_char(c: char) -> (r: bool)
    ensures
        r == numeric_char(c),
{
    c.is_numeric()
}

/// `char::is_alphanumeric` is documented as the disjunction of
/// `is_alphabetic` and `is_numeric`, so it needs no trust of its own.
fn is_alphanumeric_char(c: char) -> (r: bool)
    ensures
        r == (alphabetic_char(c) || numeric_char(c)),
{
    is_alphabetic_char(c) || is_numeric_char(c)
}

/// Relies on `String::push`: appends the given character to the end of the
/// string.
#[verifier::external_body]
fn push_char(s: &mut String, c: char)
    ensures
        final(s)@ == old(s)@.push(c),
{
    s.push(c)
}

// ---------------------------------------------------------------------------
// The sub-scans, as functions on the character sequence.  Each one says
// where the scanner's cursor stands after the corresponding sub-pass that
// starts with the cursor at index `j`.
// ---------------------------------------------------------------------------

/// Cursor position after skipping a `//` comment: the index of the next
/// newline (which the main pass then handles), or the end of the input.
pub open spec fn line_comment_end(code: Seq<char>, j: int) -> int
    decreases code.len() - j
        when 0 <= j <= code.len()
{
    if j >= code.len() {
        j
    } else if j + 1 < code.len() && code[j + 1] == '\n' {
        j + 1
    } else {
        line_comment_end(code, j + 1)
    }
}

pub proof fn lemma_line_comment_end_bounds(code: Seq<char>, j: int)
    requires
        0 <= j <= code.len(),
    ensures
        j <= line_comment_end(code, j) <= code.len(),
    decreases code.len() - j,
{
    if j < code.len() && !(j + 1 < code.len() && code[j + 1] == '\n') {
        lemma_line_comment_end_bounds(code, j + 1);
    }
}

/// Outcome of skipping a `/* ... */` comment from cursor `j` at the given
/// line and column: whether a closing `*/` was found, and the cursor, line
/// and column after the sub-pass.
pub struct MultilineScan {
    pub closed: bool,
    pub end: int,
    pub line: int,
    pub col: int,
}

/// Consumes characters until a `*` directly followed by `/`, tracking
/// newlines; without a closing `*/` the input is exhausted unclosed.
pub open spec fn multiline_comment_scan(code: Seq<char>, j: int, line: int, col: int) -> MultilineScan
    decreases code.len() - j
        when 0 <= j <= code.len()
{
    if j >= code.len() {
        MultilineScan { closed: false, end: j, line: line, col: col }
    } else if code[j] == '\n' {
        multiline_comment_scan(code, j + 1, line + 1, 0)
    } else if code[j] == '*' && j + 1 < code.len() && code[j + 1] == '/' {
        MultilineScan { closed: true, end: j + 2, line: line, col: col + 2 }
    } else {
        multiline_comment_scan(code, j + 1, line, col + 1)
    }
}

pub proof fn lemma_multiline_scan_end_bounds(code: Seq<char>, j: int, line: int, col: int)
    requires
        0 <= j <= code.len(),
    ensures
        j <= multiline_comment_scan(code, j, line, col).end <= code.len(),
        multiline_comment_scan(code, j, line, col).closed ==> multiline_comment_scan(
            code,
            j,
            line,
            col,
        ).end >= j + 2,
    decreases code.len() - j,
{
    if j < code.len() {
        if code[j] == '\n' {
            lemma_multiline_scan_end_bounds(code, j + 1, line + 1, 0);
        } else if code[j] == '*' && j + 1 < code.len() && code[j + 1] == '/' {
        } else {
            lemma_multiline_scan_end_bounds(code, j + 1, line, col + 1);
        }
    }
}

pub proof fn lemma_multiline_scan_bounds(code: Seq<char>, j: int, line: int, col: int)
    requires
        0 <= j <= code.len(),
        1 <= line <= j,
        0 <= col <= j,
    ensures
        j <= multiline_comment_scan(code, j, line, col).end <= code.len(),
        multiline_comment_scan(code, j, line, col).closed ==> multiline_comment_scan(
            code,
            j,
            line,
            col,
        ).end >= j + 2,
        1 <= multiline_comment_scan(code, j, line, col).line <= multiline_comment_scan(
            code,
            j,
            line,
            col,
        ).end,
        0 <= multiline_comment_scan(code, j, line, col).col <= multiline_comment_scan(
            code,
            j,
            line,
            col,
        ).end,
    decreases code.len() - j,
{
    if j < code.len() {
        if code[j] == '\n' {
            lemma_multiline_scan_bounds(code, j + 1, line + 1, 0);
        } else if code[j] == '*' && j + 1 < code.len() && code[j + 1] == '/' {
        } else {
            lemma_multiline_scan_bounds(code, j + 1, line, col + 1);
        }
    }
}

/// Cursor position after the alphanumeric run of a keyword or identifier
/// whose remaining characters start at `j`.
pub open spec fn identifier_end(code: Seq<char>, j: int) -> int
    decreases code.len() - j
        when 0 <= j <= code.len()
{
    if j < code.len() && (alphabetic_char(code[j]) || numeric_char(code[j])) {
        identifier_end(code, j + 1)
    } else {
        j
    }
}

pub proof fn lemma_identifier_end_bounds(code: Seq<char>, j: int)
    requires
        0 <= j <= code.len(),
    ensures
        j <= identifier_end(code, j) <= code.len(),
    decreases code.len() - j,
{
    if j < code.len() && (alphabetic_char(code[j]) || numeric_char(code[j])) {
        lemma_identifier_end_bounds(code, j + 1);
    }
}

/// Cursor position after the digits-and-dots run of a number literal whose
/// remaining characters start at `j`.
pub open spec fn number_end(code: Seq<char>, j: int) -> int
    decreases code.len() - j
        when 0 <= j <= code.len()
{
    if j < code.len() && (numeric_char(code[j]) || code[j] == '.') {
        number_end(code, j + 1)
    } else {
        j
    }
}

pub proof fn lemma_number_end_bounds(code: Seq<char>, j: int)
    requires
        0 <= j <= code.len(),
    ensures
        j <= number_end(code, j) <= code.len(),
    decreases code.len() - j,
{
    if j < code.len() && (numeric_char(code[j]) || code[j] == '.') {
        lemma_number_end_bounds(code, j + 1);
    }
}

/// Index of the closing `"` of a string literal whose content starts at
/// `j`, or the input length when no closing quote follows.
pub open spec fn string_close(code: Seq<char>, j: int) -> int
    decreases code.len() - j
        when 0 <= j <= code.len()
{
    if j >= code.len() {
        j
    } else if code[j] == '"' {
        j
    } else {
        string_close(code, j + 1)
    }
}

pub proof fn lemma_string_close_bounds(code: Seq<char>, j: int)
    requires
        0 <= j <= code.len(),
    ensures
        j <= string_close(code, j) <= code.len(),
    decreases code.len() - j,
{
    if j < code.len() && code[j] != '"' {
        lemma_string_close_bounds(code, j + 1);
    }
}

// ---------------------------------------------------------------------------
// The scan itself.
// ---------------------------------------------------------------------------

/// The token a single character yields on its own, if any.
pub open spec fn spec_single_char_token(c: char) -> Option<TokenView> {
    if c == '(' {
        Some(TokenView::LeftParenthesis)
    } else if c == ')' {
        Some(TokenView::RightParenthesis)
    } else if c == '{' {
        Some(TokenView::LeftBrace)
    } else if c == '}' {
        Some(TokenView::RightBrace)
    } else if c == ',' {
        Some(TokenView::Comma)
    } else if c == '.' {
        Some(TokenView::Dot)
    } else if c == '-' {
        Some(TokenView::Minus)
    } else if c == '+' {
        Some(TokenView::Plus)
    } else if c == ':' {
        Some(TokenView::Colon)
    } else if c == ';' {
        Some(TokenView::Semicolon)
    } else if c == '/' {
        Some(TokenView::Slash)
    } else if c == '*' {
        Some(TokenView::Star)
    } else if c == '?' {
        Some(TokenView::Question)
    } else {
        None
    }
}

/// Prepends one scanned token to the outcome of scanning the rest.
pub open spec fn spec_emit(
    tv: TokenMetadataView,
    rest: Result<Seq<TokenMetadataView>, ScannerError>,
) -> Result<Seq<TokenMetadataView>, ScannerError> {
    match rest {
        Ok(s) => Ok(seq![tv] + s),
        Err(e) => Err(e),
    }
}

/// The token sequence produced from cursor `i` onward, with `line` the
/// current line and `col` the column of the last consumed character (0 at
/// the start of a line), or the first lexical error.  A token's position is
/// that of its first character.  Exactly one `Eof` token, positioned one
/// column past the last consumed character, closes every successful scan.
pub open spec fn spec_scan(code: Seq<char>, i: int, line: int, col: int) -> Result<
    Seq<TokenMetadataView>,
    ScannerError,
>
    decreases code.len() - i
        when 0 <= i <= code.len()
{
    if i >= code.len() {
        Ok(
            seq![
                TokenMetadataView {
                    token: TokenView::Eof,
                    position: Position { line: line as usize, column: (col + 1) as usize },
                },
            ],
        )
    } else {
        let c = code[i];
        let pos = Position { line: line as usize, column: (col + 1) as usize };
        if c == '\n' {
            spec_scan(code, i + 1, line + 1, 0)
        } else if whitespace_char(c) {
            spec_scan(code, i + 1, line, col + 1)
        } else if c == '/' && i + 1 < code.len() && code[i + 1] == '/' {
            proof {
                lemma_line_comment_end_bounds(code, i + 1);
            }
            let m = line_comment_end(code, i + 1);
            spec_scan(code, m, line, col + (m - i))
        } else if c == '/' && i + 1 < code.len() && code[i + 1] == '*' {
            let s = multiline_comment_scan(code, i + 1, line, col + 1);
            if s.closed {
                proof {
                    lemma_multiline_scan_end_bounds(code, i + 1, line, col + 1);
                }
                spec_scan(code, s.end, s.line, s.col)
            } else {
                Err(ScannerError::UnterminatedMultilineComment(pos))
            }
        } else if spec_single_char_token(c) is Some {
            spec_emit(
                TokenMetadataView { token: spec_single_char_token(c)->Some_0, position: pos },
                spec_scan(code, i + 1, line, col + 1),
            )
        } else if c == '!' {
            if i + 1 < code.len() && code[i + 1] == '=' {
                spec_emit(
                    TokenMetadataView { token: TokenView::BangEqual, position: pos },
                    spec_scan(code, i + 2, line, col + 2),
                )
            } else {
                spec_emit(
                    TokenMetadataView { token: TokenView::Bang, position: pos },
                    spec_scan(code, i + 1, line, col + 1),
                )
            }
        } else if c == '=' {
            if i + 1 < code.len() && code[i + 1] == '=' {
                spec_emit(
                    TokenMetadataView { token: TokenView::EqualEqual, position: pos },
                    spec_scan(code, i + 2, line, col + 2),
                )
            } else {
                spec_emit(
                    TokenMetadataView { token: TokenView::Equal, position: pos },
                    spec_scan(code, i + 1, line, col + 1),
                )
            }
        } else if c == '>' {
            if i + 1 < code.len() && code[i + 1] == '=' {
                spec_emit(
                    TokenMetadataView { token: TokenView::GreaterEqual, position: pos },
                    spec_scan(code, i + 2, line, col + 2),
                )
            } else {
                spec_emit(
                    TokenMetadataView { token: TokenView::Greater, position: pos },
                    spec_scan(code, i + 1, line, col + 1),
                )
            }
        } else if c == '<' {
            if i + 1 < code.len() && code[i + 1] == '=' {
                spec_emit(
                    TokenMetadataView { token: TokenView::LessEqual, position: pos },
                    spec_scan(code, i + 2, line, col + 2),
                )
            } else {
                spec_emit(
                    TokenMetadataView { token: TokenView::Less, position: pos },
                    spec_scan(code, i + 1, line, col + 1),
                )
            }
        } else if c == '&' {
            if i + 1 < code.len() && code[i + 1] == '&' {
                spec_emit(
                    TokenMetadataView { token: TokenView::And, position: pos },
                    spec_scan(code, i + 2, line, col + 2),
                )
            } else {
                Err(ScannerError::UnexpectedToken(pos))
            }
        } else if c == '|' {
            if i + 1 < code.len() && code[i + 1] == '|' {
                spec_emit(
                    TokenMetadataView { token: TokenView::Or, position: pos },
                    spec_scan(code, i + 2, line, col + 2),
                )
            } else {
                Err(ScannerError::UnexpectedToken(pos))
            }
        } else if alphabetic_char(c) {
            proof {
                lemma_identifier_end_bounds(code, i + 1);
            }
            let e = identifier_end(code, i + 1);
            spec_emit(
                TokenMetadataView {
                    token: spec_keyword_or_identifier(code.subrange(i, e)),
                    position: pos,
                },
                spec_scan(code, e, line, col + (e - i)),
            )
        } else if numeric_char(c) {
            proof {
                lemma_number_end_bounds(code, i + 1);
            }
            let e = number_end(code, i + 1);
            if valid_number_text(code.subrange(i, e)) {
                spec_emit(
                    TokenMetadataView { token: TokenView::Number(code.subrange(i, e)), position: pos },
                    spec_scan(code, e, line, col + (e - i)),
                )
            } else {
                Err(ScannerError::NumberLiteralParsingError(pos))
            }
        } else if c == '"' {
            proof {
                lemma_string_close_bounds(code, i + 1);
            }
            let k = string_close(code, i + 1);
            if k < code.len() {
                spec_emit(
                    TokenMetadataView {
                        token: TokenView::StringLiteral(code.subrange(i + 1, k)),
                        position: pos,
                    },
                    spec_scan(code, k + 1, line, col + (k + 1 - i)),
                )
            } else {
                spec_emit(
                    TokenMetadataView {
                        token: TokenView::StringLiteral(code.subrange(i + 1, code.len() as int)),
                        position: pos,
                    },
                    spec_scan(code, code.len() as int, line, col + (code.len() - i)),
                )
            }
        } else {
            Err(ScannerError::UnexpectedToken(pos))
        }
    }
}

/// The full scan of a source text: from its first character, on line 1,
/// with no character consumed yet.
pub open spec fn spec_tokenize(code: Seq<char>) -> Result<Seq<TokenMetadataView>, ScannerError> {
    spec_scan(code, 0, 1, 0)
}

/// The views of a produced token vector, in order.
pub open spec fn tokens_view(ts: Seq<TokenMetadata>) -> Seq<TokenMetadataView> {
    ts.map_values(|t: TokenMetadata| t@)
}

// ---------------------------------------------------------------------------
// The executable scanner.
// ---------------------------------------------------------------------------

/// A cursor over the characters of one source text.
#[derive(Debug)]
pub struct Scanner {
    /// The characters of the source text.
    pub code: Vec<char>,
    /// Index of the next character to consume.
    pub current: usize,
    /// Line and column of the last consumed character.
    pub position: Position,
}

impl Scanner {
    /// Creates a scanner over the characters of the given source text.
    pub fn new(code: &str) -> (s: Scanner)
        ensures
            s.code@ == code@,
            s.current == 0,
            s.position == (Position { line: 0, column: 0 }),
    {
        let n = code.unicode_len();
        let mut chars: Vec<char> = Vec::new();
        let mut i: usize = 0;
        while i < n
            invariant
                i <= n,
                n == code@.len(),
                chars@ == code@.subrange(0, i as int),
            decreases n - i,
        {
            chars.push(code.get_char(i));
            proof {
                assert(code@.subrange(0, i as int).push(code@[i as int]) =~= code@.subrange(
                    0,
                    i + 1,
                ));
            }
            i = i + 1;
        }
        proof {
            assert(code@.subrange(0, n as int) =~= code@);
        }
        Scanner { code: chars, current: 0, position: Position { line: 0, column: 0 } }
    }

    /// Returns the cursor to the start of the text, on line 1 with no
    /// character consumed yet.
    pub fn reset(&mut self)
        ensures
            final(self).code == old(self).code,
            final(self).current == 0,
            final(self).position == (Position { line: 1, column: 0 }),
    {
        self.current = 0;
        self.position.line = 1;
        self.position.column = 0;
    }

    /// Consumes one character: one step forward, one column to the right.
    pub fn advance(&mut self)
        requires
            old(self).current < usize::MAX,
            old(self).position.column < usize::MAX,
        ensures
            final(self).code == old(self).code,
            final(self).current == old(self).current + 1,
            final(self).position.line == old(self).position.line,
            final(self).position.column == old(self).position.column + 1,
    {
        self.current = self.current + 1;
        self.position.column = self.position.column + 1;
    }

    /// Starts the next line: the line counter advances and the column
    /// returns to zero.
    pub fn newline(&mut self)
        requires
            old(self).position.line < usize::MAX,
        ensures
            final(self).code == old(self).code,
            final(self).current == old(self).current,
            final(self).position.line == old(self).position.line + 1,
            final(self).position.column == 0,
    {
        self.position.line = self.position.line + 1;
        self.position.column = 0;
    }

    /// Skips a `//` comment: consumes up to, but not including, the next
    /// newline, or to the end of the input.
    pub fn scan_line_comment(&mut self) -> (r: Result<(), ScannerError>)
        requires
            old(self).current <= old(self).code@.len(),
            old(self).position.column <= old(self).current,
        ensures
            final(self).code == old(self).code,
            final(self).current == line_comment_end(old(self).code@, old(self).current as int),
            final(self).position.line == old(self).position.line,
            final(self).position.column == old(self).position.column + (final(self).current
                - old(self).current),
            r is Ok,
    {
        loop
            invariant_except_break
                line_comment_end(self.code@, self.current as int) == line_comment_end(
                    old(self).code@,
                    old(self).current as int,
                ),
            invariant
                self.code == old(self).code,
                old(self).current <= self.current <= self.code@.len(),
                self.position.line == old(self).position.line,
                self.position.column == old(self).position.column + (self.current - old(self).current),
                self.position.column <= self.current,
            ensures
                self.current as int == line_comment_end(
                    old(self).code@,
                    old(self).current as int,
                ),
            decreases self.code@.len() - self.current,
        {
            if self.current >= self.code.len() {
                break;
            }
            if self.current + 1 < self.code.len() && self.code[self.current + 1] == '\n' {
                self.advance();
                break;
            }
            self.advance();
        }
        Ok(())
    }

    /// Skips a `/* ... */` comment, tracking line breaks inside it.  When
    /// the input ends before a closing `*/`, fails with
    /// `UnterminatedMultilineComment` at the position held on entry, which
    /// the caller arranges to be the comment's opening `/`.
    pub fn scan_multiline_comment(&mut self) -> (r: Result<(), ScannerError>)
        requires
            old(self).current <= old(self).code@.len(),
            old(self).position.column <= old(self).current,
            1 <= old(self).position.line <= old(self).current,
        ensures
            final(self).code == old(self).code,
            ({
                let s = multiline_comment_scan(
                    old(self).code@,
                    old(self).current as int,
                    old(self).position.line as int,
                    old(self).position.column as int,
                );
                &&& final(self).current == s.end
                &&& final(self).position.line == s.line
                &&& final(self).position.column == s.col
                &&& (r is Ok <==> s.closed)
                &&& (r is Err ==> r == Err::<(), ScannerError>(
                    ScannerError::UnterminatedMultilineComment(old(self).position),
                ))
            }),
    {
        let start = self.position;
        loop
            invariant
                self.code == old(self).code,
                self.current <= self.code@.len(),
                self.position.column <= self.current,
                1 <= self.position.line <= self.current,
                start == old(self).position,
                multiline_comment_scan(
                    self.code@,
                    self.current as int,
                    self.position.line as int,
                    self.position.column as int,
                ) == multiline_comment_scan(
                    old(self).code@,
                    old(self).current as int,
                    old(self).position.line as int,
                    old(self).position.column as int,
                ),
            decreases self.code@.len() - self.current,
        {
            if self.current >= self.code.len() {
                return Err(ScannerError::UnterminatedMultilineComment(start));
            }
            let c = self.code[self.current];
            if c == '\n' {
                self.advance();
                self.newline();
            } else if c == '*' && self.current + 1 < self.code.len() && self.code[self.current + 1]
                == '/' {
                self.advance();
                self.advance();
                return Ok(());
            } else {
                self.advance();
            }
        }
    }

    /// Scans the alphanumeric run following `initial`, then classifies the
    /// whole word against the keyword table; unmatched text becomes an
    /// `Identifier` token.
    pub fn scan_keyword_or_identifier(&mut self, initial: char) -> (r: Result<Token, ScannerError>)
        requires
            old(self).current <= old(self).code@.len(),
            old(self).position.column <= old(self).current,
        ensures
            final(self).code == old(self).code,
            final(self).current == identifier_end(old(self).code@, old(self).current as int),
            final(self).position.line == old(self).position.line,
            final(self).position.column == old(self).position.column + (final(self).current
                - old(self).current),
            r matches Ok(t) && t@ == spec_keyword_or_identifier(
                seq![initial] + old(self).code@.subrange(
                    old(self).current as int,
                    final(self).current as int,
                ),
            ),
    {
        let mut text = String::new();
        push_char(&mut text, initial);
        loop
            invariant
                self.code == old(self).code,
                old(self).current <= self.current <= self.code@.len(),
                self.position.line == old(self).position.line,
                self.position.column == old(self).position.column + (self.current - old(self).current),
                self.position.column <= self.current,
                text@ == seq![initial] + self.code@.subrange(
                    old(self).current as int,
                    self.current as int,
                ),
                identifier_end(self.code@, self.current as int) == identifier_end(
                    old(self).code@,
                    old(self).current as int,
                ),
            ensures
                self.current as int == identifier_end(
                    old(self).code@,
                    old(self).current as int,
                ),
            decreases self.code@.len() - self.current,
        {
            if self.current >= self.code.len() {
                break;
            }
            let c = self.code[self.current];
            if !is_alphanumeric_char(c) {
                break;
            }
            push_char(&mut text, c);
            self.advance();
            proof {
                assert(text@ =~= seq![initial] + self.code@.subrange(
                    old(self).current as int,
                    self.current as int,
                ));
            }
        }
        if text == String::from_str("class") {
            Ok(Token::Class)
        } else if text == String::from_str("else") {
            Ok(Token::Else)
        } else if text == String::from_str("false") {
            Ok(Token::False)
        } else if text == String::from_str("fn") {
            Ok(Token::Fn)
        } else if text == String::from_str("for") {
            Ok(Token::For)
        } else if text == String::from_str("if") {
            Ok(Token::If)
        } else if text == String::from_str("null") {
            Ok(Token::Null)
        } else if text == String::from_str("print") {
            Ok(Token::Print)
        } else if text == String::from_str("return") {
            Ok(Token::Return)
        } else if text == String::from_str("super") {
            Ok(Token::Super)
        } else if text == String::from_str("this") {
            Ok(Token::This)
        } else if text == String::from_str("true") {
            Ok(Token::True)
        } else if text == String::from_str("let") {
            Ok(Token::Let)
        } else if text == String::from_str("while") {
            Ok(Token::While)
        } else {
            Ok(Token::Identifier(text))
        }
    }

    /// Scans the digits-and-dots run following `initial` and checks that
    /// the whole literal is a well-formed decimal number; a malformed run
    /// fails with `NumberLiteralParsingError` at the position held on
    /// entry, which the caller arranges to be the literal's first digit.
    pub fn scan_number_literal(&mut self, initial: char) -> (r: Result<Token, ScannerError>)
        requires
            old(self).current <= old(self).code@.len(),
            old(self).position.column <= old(self).current,
        ensures
            final(self).code == old(self).code,
            final(self).current == number_end(old(self).code@, old(self).current as int),
            final(self).position.line == old(self).position.line,
            final(self).position.column == old(self).position.column + (final(self).current
                - old(self).current),
            ({
                let text = seq![initial] + old(self).code@.subrange(
                    old(self).current as int,
                    final(self).current as int,
                );
                if valid_number_text(text) {
                    r matches Ok(t) && t@ == TokenView::Number(text)
                } else {
                    r == Err::<Token, ScannerError>(
                        ScannerError::NumberLiteralParsingError(old(self).position),
                    )
                }
            }),
    {
        let position = self.position;
        let mut text = String::new();
        push_char(&mut text, initial);
        let mut ok_chars: bool = initial == '.' || ('0' <= initial && initial <= '9');
        let mut seen_dot: bool = initial == '.';
        let mut many_dots: bool = false;
        proof {
            assert(text@.drop_last() =~= Seq::<char>::empty());
            assert(crate::token::dot_count(Seq::<char>::empty()) == 0);
            assert(crate::token::dot_count(text@) == if initial == '.' {
                1int
            } else {
                0int
            });
            assert(text@ =~= seq![initial] + self.code@.subrange(
                old(self).current as int,
                self.current as int,
            ));
        }
        loop
            invariant
                self.code == old(self).code,
                old(self).current <= self.current <= self.code@.len(),
                self.position.line == old(self).position.line,
                self.position.column == old(self).position.column + (self.current - old(self).current),
                self.position.column <= self.current,
                position == old(self).position,
                text@ == seq![initial] + self.code@.subrange(
                    old(self).current as int,
                    self.current as int,
                ),
                ok_chars <==> (forall|k: int|
                    0 <= k < text@.len() ==> (crate::token::is_plain_digit(#[trigger] text@[k])
                        || text@[k] == '.')),
                seen_dot <==> crate::token::dot_count(text@) >= 1,
                many_dots <==> crate::token::dot_count(text@) >= 2,
                number_end(self.code@, self.current as int) == number_end(
                    old(self).code@,
                    old(self).current as int,
                ),
            ensures
                self.current as int == number_end(
                    old(self).code@,
                    old(self).current as int,
                ),
            decreases self.code@.len() - self.current,
        {
            if self.current >= self.code.len() {
                break;
            }
            let c = self.code[self.current];
            let continues = is_numeric_char(c);
            if !(continues || c == '.') {
                break;
            }
            let ghost t0 = text@;
            push_char(&mut text, c);
            self.advance();
            proof {
                assert(text@.drop_last() =~= t0);
                crate::token::lemma_dot_count_nonneg(t0);
                assert(crate::token::dot_count(text@) == crate::token::dot_count(t0) + if c == '.' {
                    1int
                } else {
                    0int
                });
                assert(text@ =~= seq![initial] + self.code@.subrange(
                    old(self).current as int,
                    self.current as int,
                ));
            }
            if c == '.' {
                if seen_dot {
                    many_dots = true;
                } else {
                    seen_dot = true;
                }
            } else if !('0' <= c && c <= '9') {
                ok_chars = false;
            }
        }
        if ok_chars && !many_dots {
            Ok(Token::Number(text))
        } else {
            Err(ScannerError::NumberLiteralParsingError(position))
        }
    }

    /// Scans a string literal's content from just past the opening quote:
    /// everything up to the next `"` becomes the token's text and the
    /// closing quote is consumed.  Without a closing quote the rest of the
    /// input becomes the text and the scan still terminates.
    pub fn scan_string_literal(&mut self) -> (r: Result<Token, ScannerError>)
        requires
            old(self).current <= old(self).code@.len(),
            old(self).position.column <= old(self).current,
        ensures
            final(self).code == old(self).code,
            final(self).position.line == old(self).position.line,
            ({
                let k = string_close(old(self).code@, old(self).current as int);
                &&& final(self).current == if k < old(self).code@.len() {
                    k + 1
                } else {
                    k
                }
                &&& final(self).position.column == old(self).position.column + (final(self).current - old(self).current)
                &&& r matches Ok(t) && t@ == TokenView::StringLiteral(
                    old(self).code@.subrange(old(self).current as int, k),
                )
            }),
    {
        let mut text = String::new();
        loop
            invariant
                self.code == old(self).code,
                old(self).current <= self.current <= self.code@.len(),
                self.position.line == old(self).position.line,
                self.position.column == old(self).position.column + (self.current - old(self).current),
                self.position.column <= self.current,
                text@ == self.code@.subrange(old(self).current as int, self.current as int),
                string_close(self.code@, self.current as int) == string_close(
                    old(self).code@,
                    old(self).current as int,
                ),
            ensures
                self.current == self.code@.len(),
                string_close(old(self).code@, old(self).current as int) == self.current as int,
            decreases self.code@.len() - self.current,
        {
            if self.current >= self.code.len() {
                break;
            }
            let c = self.code[self.current];
            if c == '"' {
                self.advance();
                return Ok(Token::StringLiteral(text));
            }
            push_char(&mut text, c);
            self.advance();
            proof {
                assert(text@ =~= self.code@.subrange(
                    old(self).current as int,
                    self.current as int,
                ));
            }
        }
        proof {
            lemma_string_close_bounds(self.code@, old(self).current as int);
            assert(string_close(self.code@, self.current as int) == self.current as int);
        }
        Ok(Token::StringLiteral(text))
    }

    /// Scans the whole text: resets the cursor to the start, runs the
    /// dispatch loop once over every character, and closes the sequence
    /// with exactly one `Eof` token.  The first lexical error aborts the
    /// call and no partial token sequence is returned.
    #[verifier::rlimit(100)]
    pub fn tokens(&mut self) -> (r: Result<Vec<TokenMetadata>, ScannerError>)
        requires
            old(self).code@.len() < usize::MAX,
        ensures
            final(self).code == old(self).code,
            match r {
                Ok(v) => spec_tokenize(old(self).code@) == Ok::<
                    Seq<TokenMetadataView>,
                    ScannerError,
                >(tokens_view(v@)),
                Err(e) => spec_tokenize(old(self).code@) == Err::<
                    Seq<TokenMetadataView>,
                    ScannerError,
                >(e),
            },
    {
        self.reset();
        let mut tokens: Vec<TokenMetadata> = Vec::new();
        let ghost cseq = self.code@;
        let ghost total = spec_tokenize(cseq);
        loop
            invariant
                self.code@ == cseq,
                self.code == old(self).code,
                cseq.len() < usize::MAX,
                self.current <= cseq.len(),
                self.position.column <= self.current,
                1 <= self.position.line <= self.current + 1,
                total == spec_tokenize(cseq),
                (match spec_scan(
                    cseq,
                    self.current as int,
                    self.position.line as int,
                    self.position.column as int,
                ) {
                    Ok(rest) => total == Ok::<Seq<TokenMetadataView>, ScannerError>(
                        tokens_view(tokens@) + rest,
                    ),
                    Err(e) => total == Err::<Seq<TokenMetadataView>, ScannerError>(e),
                }),
            ensures
                self.current == cseq.len(),
            decreases cseq.len() - self.current,
        {
            if self.current >= self.code.len() {
                break;
            }
            let ghost i = self.current as int;
            let ghost line0 = self.position.line as int;
            let ghost col0 = self.position.column as int;
            let ghost done0 = tokens@;
            let c = self.code[self.current];
            self.advance();
            let position = self.position;
            if c == '\n' {
                self.newline();
            } else if is_whitespace_char(c) {
                // skipped: no token
            } else if c == '/' && self.current < self.code.len() && self.code[self.current]
                == '/' {
                self.scan_line_comment()?;
                proof {
                    lemma_line_comment_end_bounds(cseq, i + 1);
                }
            } else if c == '/' && self.current < self.code.len() && self.code[self.current]
                == '*' {
                proof {
                    lemma_multiline_scan_bounds(cseq, i + 1, line0, col0 + 1);
                }
                self.scan_multiline_comment()?;
            } else if c == '(' {
                let tm = TokenMetadata { token: Token::LeftParenthesis, position: position };
                proof {
                    lemma_scan_step(total, done0, tm, spec_scan(cseq, i + 1, line0, col0 + 1));
                }
                tokens.push(tm);
            } else if c == ')' {
                let tm = TokenMetadata { token: Token::RightParenthesis, position: position };
                proof {
                    lemma_scan_step(total, done0, tm, spec_scan(cseq, i + 1, line0, col0 + 1));
                }
                tokens.push(tm);
            } else if c == '{' {
                let tm = TokenMetadata { token: Token::LeftBrace, position: position };
                proof {
                    lemma_scan_step(total, done0, tm, spec_scan(cseq, i + 1, line0, col0 + 1));
                }
                tokens.push(tm);
            } else if c == '}' {
                let tm = TokenMetadata { token: Token::RightBrace, position: position };
                proof {
                    lemma_scan_step(total, done0, tm, spec_scan(cseq, i + 1, line0, col0 + 1));
                }
                tokens.push(tm);
            } else if c == ',' {
                let tm = TokenMetadata { token: Token::Comma, position: position };
                proof {
                    lemma_scan_step(total, done0, tm, spec_scan(cseq, i + 1, line0, col0 + 1));
                }
                tokens.push(tm);
            } else if c == '.' {
                let tm = TokenMetadata { token: Token::Dot, position: position };
                proof {
                    lemma_scan_step(total, done0, tm, spec_scan(cseq, i + 1, line0, col0 + 1));
                }
                tokens.push(tm);
            } else if c == '-' {
                let tm = TokenMetadata { token: Token::Minus, position: position };
                proof {
                    lemma_scan_step(total, done0, tm, spec_scan(cseq, i + 1, line0, col0 + 1));
                }
                tokens.push(tm);
            } else if c == '+' {
                let tm = TokenMetadata { token: Token::Plus, position: position };
                proof {
                    lemma_scan_step(total, done0, tm, spec_scan(cseq, i + 1, line0, col0 + 1));
                }
                tokens.push(tm);
            } else if c == ':' {
                let tm = TokenMetadata { token: Token::Colon, position: position };
                proof {
                    lemma_scan_step(total, done0, tm, spec_scan(cseq, i + 1, line0, col0 + 1));
                }
                tokens.push(tm);
            } else if c == ';' {
                let tm = TokenMetadata { token: Token::Semicolon, position: position };
                proof {
                    lemma_scan_step(total, done0, tm, spec_scan(cseq, i + 1, line0, col0 + 1));
                }
                tokens.push(tm);
            } else if c == '/' {
                let tm = TokenMetadata { token: Token::Slash, position: position };
                proof {
                    lemma_scan_step(total, done0, tm, spec_scan(cseq, i + 1, line0, col0 + 1));
                }
                tokens.push(tm);
            } else if c == '*' {
                let tm = TokenMetadata { token: Token::Star, position: position };
                proof {
                    lemma_scan_step(total, done0, tm, spec_scan(cseq, i + 1, line0, col0 + 1));
                }
                tokens.push(tm);
            } else if c == '?' {
                let tm = TokenMetadata { token: Token::Question, position: position };
                proof {
                    lemma_scan_step(total, done0, tm, spec_scan(cseq, i + 1, line0, col0 + 1));
                }
                tokens.push(tm);
            } else if c == '!' {
                if self.current < self.code.len() && self.code[self.current] == '=' {
                    self.advance();
                    let tm = TokenMetadata { token: Token::BangEqual, position: position };
                    proof {
                        lemma_scan_step(total, done0, tm, spec_scan(cseq, i + 2, line0, col0 + 2));
                    }
                    tokens.push(tm);
                } else {
                    let tm = TokenMetadata { token: Token::Bang, position: position };
                    proof {
                        lemma_scan_step(total, done0, tm, spec_scan(cseq, i + 1, line0, col0 + 1));
                    }
                    tokens.push(tm);
                }
            } else if c == '=' {
                if self.current < self.code.len() && self.code[self.current] == '=' {
                    self.advance();
                    let tm = TokenMetadata { token: Token::EqualEqual, position: position };
                    proof {
                        lemma_scan_step(total, done0, tm, spec_scan(cseq, i + 2, line0, col0 + 2));
                    }
                    tokens.push(tm);
                } else {
                    let tm = TokenMetadata { token: Token::Equal, position: position };
                    proof {
                        lemma_scan_step(total, done0, tm, spec_scan(cseq, i + 1, line0, col0 + 1));
                    }
                    tokens.push(tm);
                }
            } else if c == '>' {
                if self.current < self.code.len() && self.code[self.current] == '=' {
                    self.advance();
                    let tm = TokenMetadata { token: Token::GreaterEqual, position: position };
                    proof {
                        lemma_scan_step(total, done0, tm, spec_scan(cseq, i + 2, line0, col0 + 2));
                    }
                    tokens.push(tm);
                } else {
                    let tm = TokenMetadata { token: Token::Greater, position: position };
                    proof {
                        lemma_scan_step(total, done0, tm, spec_scan(cseq, i + 1, line0, col0 + 1));
                    }
                    tokens.push(tm);
                }
            } else if c == '<' {
                if self.current < self.code.len() && self.code[self.current] == '=' {
                    self.advance();
                    let tm = TokenMetadata { token: Token::LessEqual, position: position };
                    proof {
                        lemma_scan_step(total, done0, tm, spec_scan(cseq, i + 2, line0, col0 + 2));
                    }
                    tokens.push(tm);
                } else {
                    let tm = TokenMetadata { token: Token::Less, position: position };
                    proof {
                        lemma_scan_step(total, done0, tm, spec_scan(cseq, i + 1, line0, col0 + 1));
                    }
                    tokens.push(tm);
                }
            } else if c == '&' {
                if self.current < self.code.len() && self.code[self.current] == '&' {
                    self.advance();
                    let tm = TokenMetadata { token: Token::And, position: position };
                    proof {
                        lemma_scan_step(total, done0, tm, spec_scan(cseq, i + 2, line0, col0 + 2));
                    }
                    tokens.push(tm);
                } else {
                    return Err(ScannerError::UnexpectedToken(position));
                }
            } else if c == '|' {
                if self.current < self.code.len() && self.code[self.current] == '|' {
                    self.advance();
                    let tm = TokenMetadata { token: Token::Or, position: position };
                    proof {
                        lemma_scan_step(total, done0, tm, spec_scan(cseq, i + 2, line0, col0 + 2));
                    }
                    tokens.push(tm);
                } else {
                    return Err(ScannerError::UnexpectedToken(position));
                }
            } else if is_alphabetic_char(c) {
                let t = self.scan_keyword_or_identifier(c)?;
                let ghost e = identifier_end(cseq, i + 1);
                let tm = TokenMetadata { token: t, position: position };
                proof {
                    lemma_identifier_end_bounds(cseq, i + 1);
                    assert(seq![c] + cseq.subrange(i + 1, e) =~= cseq.subrange(i, e));
                    lemma_scan_step(total, done0, tm, spec_scan(cseq, e, line0, col0 + (e - i)));
                }
                tokens.push(tm);
            } else if is_numeric_char(c) {
                proof {
                    lemma_number_end_bounds(cseq, i + 1);
                    assert(seq![c] + cseq.subrange(i + 1, number_end(cseq, i + 1)) =~= cseq.subrange(
                        i,
                        number_end(cseq, i + 1),
                    ));
                }
                let t = self.scan_number_literal(c)?;
                let ghost e = number_end(cseq, i + 1);
                let tm = TokenMetadata { token: t, position: position };
                proof {
                    lemma_scan_step(total, done0, tm, spec_scan(cseq, e, line0, col0 + (e - i)));
                }
                tokens.push(tm);
            } else if c == '"' {
                let t = self.scan_string_literal()?;
                let ghost k = string_close(cseq, i + 1);
                let tm = TokenMetadata { token: t, position: position };
                proof {
                    lemma_string_close_bounds(cseq, i + 1);
                    if k < cseq.len() {
                        lemma_scan_step(
                            total,
                            done0,
                            tm,
                            spec_scan(cseq, k + 1, line0, col0 + (k + 1 - i)),
                        );
                    } else {
                        lemma_scan_step(
                            total,
                            done0,
                            tm,
                            spec_scan(cseq, cseq.len() as int, line0, col0 + (cseq.len() - i)),
                        );
                    }
                }
                tokens.push(tm);
            } else {
                return Err(ScannerError::UnexpectedToken(position));
            }
        }
        let ghost done = tokens@;
        let ghost line_end = self.position.line as int;
        let ghost col_end = self.position.column as int;
        self.advance();
        let tm = TokenMetadata { token: Token::Eof, position: self.position };
        tokens.push(tm);
        proof {
            assert(spec_scan(cseq, cseq.len() as int, line_end, col_end) == Ok::<
                Seq<TokenMetadataView>,
                ScannerError,
            >(seq![tm@]));
            assert(tokens_view(tokens@) =~= tokens_view(done) + seq![tm@]);
        }
        Ok(tokens)
    }
}

/// One scanned token prepended to the rest of a scan carries any error
/// through unchanged; this is the loop step of the executable scanner.
proof fn lemma_scan_step(
    total: Result<Seq<TokenMetadataView>, ScannerError>,
    done: Seq<TokenMetadata>,
    tm: TokenMetadata,
    rest: Result<Seq<TokenMetadataView>, ScannerError>,
)
    requires
        (match spec_emit(tm@, rest) {
            Ok(s) => total == Ok::<Seq<TokenMetadataView>, ScannerError>(tokens_view(done) + s),
            Err(e) => total == Err::<Seq<TokenMetadataView>, ScannerError>(e),
        }),
    ensures
        (match rest {
            Ok(s) => total == Ok::<Seq<TokenMetadataView>, ScannerError>(
                tokens_view(done.push(tm)) + s,
            ),
            Err(e) => total == Err::<Seq<TokenMetadataView>, ScannerError>(e),
        }),
{
    match rest {
        Ok(s) => {
            assert(tokens_view(done) + (seq![tm@] + s) =~= tokens_view(done.push(tm)) + s);
        },
        Err(_) => {},
    }
}

/// Turns one source text into its token sequence, or the first lexical
/// error: the contract of the whole scanning stage.
pub fn tokenize(code: &str) -> (r: Result<Vec<TokenMetadata>, ScannerError>)
    requires
        code@.len() < usize::MAX,
    ensures
        match r {
            Ok(v) => spec_tokenize(code@) == Ok::<Seq<TokenMetadataView>, ScannerError>(
                tokens_view(v@),
            ),
            Err(e) => spec_tokenize(code@) == Err::<Seq<TokenMetadataView>, ScannerError>(e),
        },
{
    let mut scanner = Scanner::new(code);
    scanner.tokens()
}

/// Anything that can be scanned as source text.
pub trait Scannable {
    /// The character sequence the implementer presents to the scanner.
    spec fn code_view(&self) -> Seq<char>;

    /// Scans the presented text for tokens.
    fn tokens(&self) -> (r: Result<Vec<TokenMetadata>, ScannerError>)
        requires
            self.code_view().len() < usize::MAX,
        ensures
            match r {
                Ok(v) => spec_tokenize(self.code_view()) == Ok::<
                    Seq<TokenMetadataView>,
                    ScannerError,
                >(tokens_view(v@)),
                Err(e) => spec_tokenize(self.code_view()) == Err::<
                    Seq<TokenMetadataView>,
                    ScannerError,
                >(e),
            },
    ;
}

impl Scannable for str {
    open spec fn code_view(&self) -> Seq<char> {
        self@
    }

    fn tokens(&self) -> (r: Result<Vec<TokenMetadata>, ScannerError>) {
        tokenize(self)
    }
}

} // verus!

//! The error taxonomy of the front end.  Every stage is fail-fast: the
//! first error aborts that stage's call, no partial token list or partial
//! tree accompanies an error, and errors are ordinary result values.

use vstd::prelude::*;
use crate::token::Position;

verus! {

/// A lexical error, carrying the position at which it was detected.
#[derive(Debug, Clone, Copy, PartialEq, Eq, Structural)]
pub enum ScannerError {
    /// A character no token can start with, or a lone `&` or `|`.
    UnexpectedToken(Position),
    /// A number literal whose text does not denote a decimal number,
    /// positioned at the literal's start.
    NumberLiteralParsingError(Position),
    /// A `/*` comment the input ends inside of, positioned at its opening.
    UnterminatedMultilineComment(Position),
}

/// A syntax error.  `Unexpected` means no production matched at `primary`;
/// `Consume` means an expected token was absent.
#[derive(Debug, Clone, Copy, PartialEq, Eq, Structural)]
pub enum ParserError {
    Unexpected,
    Consume,
}

/// The union of the front end's errors, as a driver receives them.
#[derive(Debug, Clone, Copy, PartialEq, Eq, Structural)]
pub enum ScriptError {
    ScannerError(ScannerError),
    ParserError(ParserError),
    /// The printer met an operator token that is not valid for the node
    /// kind holding it.
    AstPrinterError,
}

impl From<ScannerError> for ScriptError {
    fn from(value: ScannerError) -> (r: Self) {
        ScriptError::ScannerError(value)
    }
}

impl vstd::std_specs::convert::FromSpecImpl<ScannerError> for ScriptError {
    open spec fn obeys_from_spec() -> bool {
        true
    }

    open spec fn from_spec(value: ScannerError) -> Self {
        ScriptError::ScannerError(value)
    }
}

impl From<ParserError> for ScriptError {
    fn from(value: ParserError) -> (r: Self) {
        ScriptError::ParserError(value)
    }
}

impl vstd::std_specs::convert::FromSpecImpl<ParserError> for ScriptError {
    open spec fn obeys_from_spec() -> bool {
        true
    }

    open spec fn from_spec(value: ParserError) -> Self {
        ScriptError::ParserError(value)
    }
}

} // verus!

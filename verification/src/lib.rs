//! Lexical and syntactic front end for a small expression language.
//!
//! Source text is scanned into a positioned token stream, parsed by
//! recursive descent into an expression tree, and the tree can be rendered
//! back to a fully parenthesized canonical string.

pub mod token;
pub mod errors;
pub mod scanner;
pub mod ast;
pub mod parser;
pub mod laws;

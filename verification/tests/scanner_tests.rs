//! Scanner tests: token classification, positions, the Eof invariant, and
//! each lexical error.

use lhscript::scanner::{tokenize, Scannable, Scanner, ScannerError};
use lhscript::token::{Position, Token, TokenMetadata};

/// A small script exercising every token category: punctuation on line 2,
/// operators on line 4, literals on lines 6 to 8, a block comment on lines
/// 9 and 10, and every keyword on line 11.
fn script() -> &'static str {
    "// punctuation, operators, literals and keywords\n(){},.-+:;*/?\n\n! != = == > >= < <= && ||\n\nlet greeting = \"hello\";\nlet fraction = 0.5;\nlet integer = 123;\n/* a multiline\ncomment */\nclass else false fn for if null print return super this true let while"
}

fn test_tokens() -> Vec<TokenMetadata> {
    script().tokens().unwrap()
}

#[test]
fn single_character_tokens() {
    let tokens = test_tokens();

    assert_eq!(tokens[0], TokenMetadata { token: Token::LeftParenthesis, position: Position { line: 2, column: 1 } });
    assert_eq!(tokens[1], TokenMetadata { token: Token::RightParenthesis, position: Position { line: 2, column: 2 } });
    assert_eq!(tokens[2], TokenMetadata { token: Token::LeftBrace, position: Position { line: 2, column: 3 } });
    assert_eq!(tokens[3], TokenMetadata { token: Token::RightBrace, position: Position { line: 2, column: 4 } });
    assert_eq!(tokens[4], TokenMetadata { token: Token::Comma, position: Position { line: 2, column: 5 } });
    assert_eq!(tokens[5], TokenMetadata { token: Token::Dot, position: Position { line: 2, column: 6 } });
    assert_eq!(tokens[6], TokenMetadata { token: Token::Minus, position: Position { line: 2, column: 7 } });
    assert_eq!(tokens[7], TokenMetadata { token: Token::Plus, position: Position { line: 2, column: 8 } });
    assert_eq!(tokens[8], TokenMetadata { token: Token::Colon, position: Position { line: 2, column: 9 } });
    assert_eq!(tokens[9], TokenMetadata { token: Token::Semicolon, position: Position { line: 2, column: 10 } });
    assert_eq!(tokens[10], TokenMetadata { token: Token::Star, position: Position { line: 2, column: 11 } });
    assert_eq!(tokens[11], TokenMetadata { token: Token::Slash, position: Position { line: 2, column: 12 } });
    assert_eq!(tokens[12], TokenMetadata { token: Token::Question, position: Position { line: 2, column: 13 } });
}

#[test]
fn one_or_two_character_tokens() {
    let tokens = test_tokens();

    assert_eq!(tokens[13], TokenMetadata { token: Token::Bang, position: Position { line: 4, column: 1 } });
    assert_eq!(tokens[14], TokenMetadata { token: Token::BangEqual, position: Position { line: 4, column: 3 } });
    assert_eq!(tokens[15], TokenMetadata { token: Token::Equal, position: Position { line: 4, column: 6 } });
    assert_eq!(tokens[16], TokenMetadata { token: Token::EqualEqual, position: Position { line: 4, column: 8 } });
    assert_eq!(tokens[17], TokenMetadata { token: Token::Greater, position: Position { line: 4, column: 11 } });
    assert_eq!(tokens[18], TokenMetadata { token: Token::GreaterEqual, position: Position { line: 4, column: 13 } });
    assert_eq!(tokens[19], TokenMetadata { token: Token::Less, position: Position { line: 4, column: 16 } });
    assert_eq!(tokens[20], TokenMetadata { token: Token::LessEqual, position: Position { line: 4, column: 18 } });
    assert_eq!(tokens[21], TokenMetadata { token: Token::And, position: Position { line: 4, column: 21 } });
    assert_eq!(tokens[22], TokenMetadata { token: Token::Or, position: Position { line: 4, column: 24 } });
}

#[test]
fn literals() {
    let tokens = test_tokens();

    // Identifiers
    assert_eq!(tokens[24], TokenMetadata { token: Token::Identifier(String::from("greeting")), position: Position { line: 6, column: 5 } });
    assert_eq!(tokens[29], TokenMetadata { token: Token::Identifier(String::from("fraction")), position: Position { line: 7, column: 5 } });
    assert_eq!(tokens[34], TokenMetadata { token: Token::Identifier(String::from("integer")), position: Position { line: 8, column: 5 } });

    // String literal
    assert_eq!(tokens[26], TokenMetadata { token: Token::StringLiteral(String::from("hello")), position: Position { line: 6, column: 16 } });

    // Numbers, carrying their source text
    assert_eq!(tokens[31], TokenMetadata { token: Token::Number(String::from("0.5")), position: Position { line: 7, column: 16 } });
    assert_eq!(tokens[36], TokenMetadata { token: Token::Number(String::from("123")), position: Position { line: 8, column: 15 } });
}

#[test]
fn keywords() {
    let tokens = test_tokens();

    assert_eq!(tokens[38], TokenMetadata { token: Token::Class, position: Position { line: 11, column: 1 } });
    assert_eq!(tokens[39], TokenMetadata { token: Token::Else, position: Position { line: 11, column: 7 } });
    assert_eq!(tokens[40], TokenMetadata { token: Token::False, position: Position { line: 11, column: 12 } });
    assert_eq!(tokens[41], TokenMetadata { token: Token::Fn, position: Position { line: 11, column: 18 } });
    assert_eq!(tokens[42], TokenMetadata { token: Token::For, position: Position { line: 11, column: 21 } });
    assert_eq!(tokens[43], TokenMetadata { token: Token::If, position: Position { line: 11, column: 25 } });
    assert_eq!(tokens[44], TokenMetadata { token: Token::Null, position: Position { line: 11, column: 28 } });
    assert_eq!(tokens[45], TokenMetadata { token: Token::Print, position: Position { line: 11, column: 33 } });
    assert_eq!(tokens[46], TokenMetadata { token: Token::Return, position: Position { line: 11, column: 39 } });
    assert_eq!(tokens[47], TokenMetadata { token: Token::Super, position: Position { line: 11, column: 46 } });
    assert_eq!(tokens[48], TokenMetadata { token: Token::This, position: Position { line: 11, column: 52 } });
    assert_eq!(tokens[49], TokenMetadata { token: Token::True, position: Position { line: 11, column: 57 } });
    assert_eq!(tokens[50], TokenMetadata { token: Token::Let, position: Position { line: 11, column: 62 } });
    assert_eq!(tokens[51], TokenMetadata { token: Token::While, position: Position { line: 11, column: 66 } });
}

#[test]
fn eof() {
    let tokens = test_tokens();

    assert_eq!(tokens.last(), Some(&TokenMetadata { token: Token::Eof, position: Position { line: 11, column: 71 } }));
}

#[test]
#[should_panic]
fn bad_multiline() {
    let _tokens = "/* Bad multiline comment without termination".tokens().unwrap();
}

#[test]
fn position_tracking() {
    // Scanning "(){}" on a single line yields four tokens at columns
    // 1, 2, 3 and 4, with the line unchanged.
    let tokens = tokenize("(){}").unwrap();
    assert_eq!(tokens.len(), 5);
    assert_eq!(tokens[0], TokenMetadata { token: Token::LeftParenthesis, position: Position { line: 1, column: 1 } });
    assert_eq!(tokens[1], TokenMetadata { token: Token::RightParenthesis, position: Position { line: 1, column: 2 } });
    assert_eq!(tokens[2], TokenMetadata { token: Token::LeftBrace, position: Position { line: 1, column: 3 } });
    assert_eq!(tokens[3], TokenMetadata { token: Token::RightBrace, position: Position { line: 1, column: 4 } });
    assert_eq!(tokens[4], TokenMetadata { token: Token::Eof, position: Position { line: 1, column: 5 } });
}

#[test]
fn unterminated_multiline_comment() {
    // The error carries the position of the comment's opening `/*`.
    let result = tokenize("/* no end");
    assert_eq!(result.unwrap_err(), ScannerError::UnterminatedMultilineComment(Position { line: 1, column: 1 }));

    let result = tokenize("1 + 2 /* still open\nover two lines");
    assert_eq!(result.unwrap_err(), ScannerError::UnterminatedMultilineComment(Position { line: 1, column: 7 }));
}

#[test]
fn multiline_comment_is_skipped() {
    let tokens = tokenize("1 /* anything\nat all */ + 2").unwrap();
    assert_eq!(tokens[0].token, Token::Number(String::from("1")));
    assert_eq!(tokens[1], TokenMetadata { token: Token::Plus, position: Position { line: 2, column: 11 } });
    assert_eq!(tokens[2].token, Token::Number(String::from("2")));
    assert_eq!(tokens[3].token, Token::Eof);
}

#[test]
fn line_comment_runs_to_end_of_line() {
    let tokens = tokenize("1 // the rest is ignored ,.;\n2").unwrap();
    assert_eq!(tokens[0].token, Token::Number(String::from("1")));
    assert_eq!(tokens[1], TokenMetadata { token: Token::Number(String::from("2")), position: Position { line: 2, column: 1 } });
    assert_eq!(tokens[2].token, Token::Eof);

    // A line comment at the very end of the input simply consumes it.
    let tokens = tokenize("7 // no newline after").unwrap();
    assert_eq!(tokens.len(), 2);
    assert_eq!(tokens[0].token, Token::Number(String::from("7")));
}

#[test]
fn eof_invariant_on_every_input() {
    // The empty input yields exactly one token: Eof, one column past
    // nothing, on line 1.
    let tokens = tokenize("").unwrap();
    assert_eq!(tokens.len(), 1);
    assert_eq!(tokens[0], TokenMetadata { token: Token::Eof, position: Position { line: 1, column: 1 } });

    // On any scannable input the last token is Eof and no other Eof
    // appears earlier.
    for source in ["let x = 1;", "(((", "\n\n\n", "a b c", "\"open string"] {
        let tokens = tokenize(source).unwrap();
        assert_eq!(tokens.last().unwrap().token, Token::Eof);
        let eof_count = tokens.iter().filter(|t| t.token == Token::Eof).count();
        assert_eq!(eof_count, 1);
    }
}

#[test]
fn lone_ampersand_and_pipe_are_rejected() {
    assert_eq!(tokenize("&").unwrap_err(), ScannerError::UnexpectedToken(Position { line: 1, column: 1 }));
    assert_eq!(tokenize("1 | 2").unwrap_err(), ScannerError::UnexpectedToken(Position { line: 1, column: 3 }));
}

#[test]
fn unexpected_character_is_rejected() {
    assert_eq!(tokenize("#").unwrap_err(), ScannerError::UnexpectedToken(Position { line: 1, column: 1 }));
    assert_eq!(tokenize("let @ = 1;").unwrap_err(), ScannerError::UnexpectedToken(Position { line: 1, column: 5 }));
}

#[test]
fn malformed_number_literals_are_rejected() {
    // Two decimal points do not form a number.
    assert_eq!(tokenize("1.2.3").unwrap_err(), ScannerError::NumberLiteralParsingError(Position { line: 1, column: 1 }));
    // A digit outside the ASCII range starts a numeric run that is not a
    // well-formed decimal literal.
    assert_eq!(tokenize("\u{0663}").unwrap_err(), ScannerError::NumberLiteralParsingError(Position { line: 1, column: 1 }));
}

#[test]
fn number_followed_by_operator() {
    // The numeric run is greedy but stops before the operator.
    let tokens = tokenize("1+2").unwrap();
    assert_eq!(tokens[0].token, Token::Number(String::from("1")));
    assert_eq!(tokens[1].token, Token::Plus);
    assert_eq!(tokens[2].token, Token::Number(String::from("2")));
    assert_eq!(tokens[3].token, Token::Eof);
}

#[test]
fn string_literals_with_and_without_closing_quote() {
    // An empty string literal.
    let tokens = tokenize("\"\"").unwrap();
    assert_eq!(tokens[0].token, Token::StringLiteral(String::from("")));
    assert_eq!(tokens[1].token, Token::Eof);

    // Without a closing quote the rest of the input becomes the text and
    // the scan still terminates; this mirrors the documented behavior of
    // consuming to end-of-input without an error.
    let tokens = tokenize("\"never closed").unwrap();
    assert_eq!(tokens[0].token, Token::StringLiteral(String::from("never closed")));
    assert_eq!(tokens[1].token, Token::Eof);
}

#[test]
fn identifiers_beyond_ascii() {
    // Alphabetic classification follows Unicode, so accented letters form
    // identifiers, and a non-breaking space counts as whitespace.
    let tokens = tokenize("caf\u{e9}\u{a0}th\u{e9}").unwrap();
    assert_eq!(tokens[0].token, Token::Identifier(String::from("caf\u{e9}")));
    assert_eq!(tokens[1].token, Token::Identifier(String::from("th\u{e9}")));
    assert_eq!(tokens[2].token, Token::Eof);
}

#[test]
fn single_letter_identifier() {
    let tokens = tokenize("a+b").unwrap();
    assert_eq!(tokens[0].token, Token::Identifier(String::from("a")));
    assert_eq!(tokens[1].token, Token::Plus);
    assert_eq!(tokens[2].token, Token::Identifier(String::from("b")));
    assert_eq!(tokens[3].token, Token::Eof);
}

#[test]
fn scanner_is_reusable_after_reset() {
    let mut scanner = Scanner::new("1+2");
    let first = scanner.tokens().unwrap();
    let second = scanner.tokens().unwrap();
    assert_eq!(first, second);
    assert_eq!(first.len(), 4);
}

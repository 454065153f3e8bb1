use avii_lang::lexer::{tokenize, LexError, Token, TokenType};
use avii_lang::parser::Parser;

fn kinds(tokens: &[Token]) -> Vec<TokenType> {
    tokens.iter().map(|t| t.t).collect()
}

#[test]
fn tokenize_arithmetic() {
    let tokens = tokenize("1 + 2 * 3").expect("lexes");
    assert_eq!(
        kinds(&tokens),
        vec![
            TokenType::Number,
            TokenType::BinaryOperator,
            TokenType::Number,
            TokenType::BinaryOperator,
            TokenType::Number,
            TokenType::EOF,
        ]
    );
    assert_eq!(tokens[0].value, "1");
    assert_eq!(tokens[1].value, "+");
    assert_eq!(tokens[2].value, "2");
    assert_eq!(tokens[3].value, "*");
    assert_eq!(tokens[4].value, "3");
}

#[test]
fn tokenize_keywords_and_identifiers() {
    let tokens = tokenize("let const func letx _a1").expect("lexes");
    assert_eq!(
        kinds(&tokens),
        vec![
            TokenType::Let,
            TokenType::Const,
            TokenType::Func,
            TokenType::Identifier,
            TokenType::Identifier,
            TokenType::EOF,
        ]
    );
    assert_eq!(tokens[3].value, "letx");
    assert_eq!(tokens[4].value, "_a1");
}

#[test]
fn tokenize_comparison_operators() {
    let tokens = tokenize("a == b != c").expect("lexes");
    assert_eq!(tokens[1].t, TokenType::BinaryOperator);
    assert_eq!(tokens[1].value, "==");
    assert_eq!(tokens[3].t, TokenType::BinaryOperator);
    assert_eq!(tokens[3].value, "!=");
}

#[test]
fn tokenize_string_with_escapes() {
    let tokens = tokenize("\"a\\nb\\\\c\\\"d\"").expect("lexes");
    assert_eq!(tokens[0].t, TokenType::String);
    assert_eq!(tokens[0].value, "a\nb\\c\"d");
    assert_eq!(tokens[1].t, TokenType::EOF);
}

#[test]
fn tokenize_skips_all_whitespace() {
    // Form feed, vertical tab, NEL, no-break space, ideographic space.
    let tokens =
        tokenize("1\u{000C}+\u{000B}2\u{0085}*\u{00A0}3\u{3000}- 4\t").expect("lexes");
    assert_eq!(
        kinds(&tokens),
        vec![
            TokenType::Number,
            TokenType::BinaryOperator,
            TokenType::Number,
            TokenType::BinaryOperator,
            TokenType::Number,
            TokenType::BinaryOperator,
            TokenType::Number,
            TokenType::EOF,
        ]
    );
    // Only a newline bumps the line counter.
    assert_eq!(tokens[6].line, 1);
}

#[test]
fn tokenize_tracks_lines() {
    let tokens = tokenize("a\nb").expect("lexes");
    assert_eq!(tokens[0].line, 1);
    assert_eq!(tokens[1].line, 2);
    assert_eq!(tokens[2].line, 2);
}

#[test]
fn tokenize_ends_with_one_eof() {
    let tokens = tokenize("").expect("lexes");
    assert_eq!(tokens.len(), 1);
    assert_eq!(tokens[0].t, TokenType::EOF);
    assert_eq!(tokens[0].value, "EndOfFile");
    assert_eq!(tokens[0].line, 1);
}

#[test]
fn tokenize_fractional_lexeme() {
    let tokens = tokenize("1.25").expect("lexes");
    assert_eq!(tokens[0].t, TokenType::Number);
    assert_eq!(tokens[0].value, "1.25");
}

#[test]
fn tokenize_rejects_unrecognized_character() {
    match tokenize("a @ b") {
        Err(LexError::UnrecognizedChar { c, line }) => {
            assert_eq!(c, '@');
            assert_eq!(line, 1);
        }
        other => panic!("expected an unrecognized-character error, got {:?}", other),
    }
}

#[test]
fn tokenize_rejects_lone_bang() {
    match tokenize("!a") {
        Err(LexError::UnrecognizedChar { c, .. }) => assert_eq!(c, '!'),
        other => panic!("expected an unrecognized-character error, got {:?}", other),
    }
}

#[test]
fn tokenize_rejects_unterminated_string() {
    assert!(matches!(
        tokenize("\"abc"),
        Err(LexError::UnterminatedString { line: 1 })
    ));
}

#[test]
fn tokenize_rejects_invalid_escape() {
    match tokenize("\"a\\qb\"") {
        Err(LexError::InvalidEscape { c, .. }) => assert_eq!(c, 'q'),
        other => panic!("expected an invalid-escape error, got {:?}", other),
    }
}

#[test]
fn tokenize_rejects_trailing_dot_number() {
    assert!(matches!(
        tokenize("1."),
        Err(LexError::MalformedNumber { line: 1 })
    ));
}

#[test]
fn parser_cursor_methods() {
    let tokens = tokenize("1 + 2").expect("lexes");
    let mut parser = Parser { tokens, index: 0 };
    assert!(!parser.is_eof());
    assert_eq!(parser.at().t, TokenType::Number);
    let first = parser.eat();
    assert_eq!(first.value, "1");
    let op = parser.expect(TokenType::BinaryOperator).expect("operator");
    assert_eq!(op.value, "+");
    assert!(parser.expect(TokenType::Semicolon).is_err());
    assert_eq!(parser.at().value, "2");
    parser.eat();
    assert!(parser.is_eof());
}

use lox::number::Num;
use lox::scanner::{ScanErrorKind, Scanner};
use lox::token::{Literals, TokenType};

#[test]
fn scans_operators_keywords_and_literals() {
    let mut scanner = Scanner::new("var x = 12.5 >= \"hi\"; // note\n!= or".to_string());
    let tokens = scanner.scan_tokens();
    let kinds: Vec<TokenType> = tokens.iter().map(|t| t.tokentype).collect();
    assert_eq!(
        kinds,
        vec![
            TokenType::Var,
            TokenType::Identifier,
            TokenType::Equal,
            TokenType::Number,
            TokenType::GreaterEqual,
            TokenType::String,
            TokenType::Semicolon,
            TokenType::BangEqual,
            TokenType::Or,
            TokenType::Eof,
        ]
    );
    assert_eq!(tokens[1].lexeme, "x");
    assert_eq!(tokens[3].literal, Literals::Number(Num::from_ratio(25, 2).unwrap()));
    assert_eq!(tokens[5].lexeme, "\"hi\"");
    assert_eq!(tokens[5].literal, Literals::String("hi".to_string()));
    assert_eq!(tokens[7].line, 2);
    assert_eq!(tokens[9].line, 2);
    assert!(scanner.errors().is_empty());
    assert!(scanner.is_at_end());
}

#[test]
fn lexical_errors_are_collected_and_scanning_goes_on() {
    let mut scanner = Scanner::new("1 @ 2\n\"open".to_string());
    let tokens = scanner.scan_tokens();
    assert_eq!(tokens.len(), 3);
    let errors = scanner.errors();
    assert_eq!(errors.len(), 2);
    assert_eq!(errors[0].kind, ScanErrorKind::UnexpectedCharacter);
    assert_eq!(errors[0].line, 1);
    assert_eq!(errors[1].kind, ScanErrorKind::UnterminatedString);
    assert_eq!(errors[0].report(), "[line 1] Error: Unexpected character.");
}

#[test]
fn too_large_number_literal_is_an_error() {
    let mut scanner = Scanner::new("99999999999999999999;".to_string());
    let tokens = scanner.scan_tokens();
    assert_eq!(tokens.len(), 2);
    assert_eq!(scanner.errors()[0].kind, ScanErrorKind::NumberOutOfRange);
}

#[test]
fn token_to_string() {
    let mut scanner = Scanner::new("12".to_string());
    let tokens = scanner.scan_tokens();
    assert_eq!(tokens[0].toString(), "Number 12 12");
    assert_eq!(tokens[1].toString(), "Eof  nil");
}

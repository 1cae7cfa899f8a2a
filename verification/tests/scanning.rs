//! Tests of the scanner: source text and the tokens it holds.

use taupe::scanner::{ScanError, ScanErrorKind, Scanner};
use taupe::token::{Token, TokenType};

fn should_equal_those(tokens: Vec<Token>, expected: Vec<Token>) {
    assert_eq!(tokens, expected);
}

#[test]
fn test_scanner() {
    let source = "print \"Hello, world!\"";
    let (tokens, err) = Scanner::new(source.to_string()).scan();

    let expected = vec![
        Token::new(
            TokenType::Print,
            "print".to_string(),
            "print".to_string(),
            1,
        ),
        Token::new(
            TokenType::String,
            "Hello, world!".to_string(),
            "Hello, world!".to_string(),
            1,
        ),
    ];
    assert_eq!(tokens, expected);
    assert_eq!(err, None);
}

#[test]
fn mod_test_scanner() {
    let source = "print \"Hello, world!\"";
    let (tokens, err) = Scanner::new(source.to_string()).scan();

    let expected = vec![
        Token::new(
            TokenType::Print,
            "print".to_string(),
            "print".to_string(),
            1,
        ),
        Token::new(
            TokenType::String,
            "Hello, world!".to_string(),
            "Hello, world!".to_string(),
            1,
        ),
    ];
    assert_eq!(tokens, expected);
    assert_eq!(err, None);
}

#[test]
fn it_can_create_if_statements() {
    let source = "if ( 3 < 2 ) { print 2 } else { print 3 }";
    let (tokens, err) = Scanner::new(source.to_string()).scan();

    let expected = vec![
        Token::new(TokenType::If, "if".to_string(), "if".to_string(), 1),
        Token::new(TokenType::LeftParen, "(".to_string(), "(".to_string(), 1),
        Token::new(TokenType::Number, "3".to_string(), "3".to_string(), 1),
        Token::new(TokenType::Less, "<".to_string(), "<".to_string(), 1),
        Token::new(TokenType::Number, "2".to_string(), "2".to_string(), 1),
        Token::new(TokenType::RightParen, ")".to_string(), ")".to_string(), 1),
        Token::new(TokenType::LeftBrace, "{".to_string(), "{".to_string(), 1),
        Token::new(
            TokenType::Print,
            "print".to_string(),
            "print".to_string(),
            1,
        ),
        Token::new(TokenType::Number, "2".to_string(), "2".to_string(), 1),
        Token::new(TokenType::RightBrace, "}".to_string(), "}".to_string(), 1),
        Token::new(TokenType::Else, "else".to_string(), "else".to_string(), 1),
        Token::new(TokenType::LeftBrace, "{".to_string(), "{".to_string(), 1),
        Token::new(
            TokenType::Print,
            "print".to_string(),
            "print".to_string(),
            1,
        ),
        Token::new(TokenType::Number, "3".to_string(), "3".to_string(), 1),
        Token::new(TokenType::RightBrace, "}".to_string(), "}".to_string(), 1),
    ];
    assert_eq!(tokens, expected);
    assert_eq!(err, None);
}

#[test]
fn verify_that_it_can_read_groups() {
    let source = "( ! 2 )";
    let (tokens, _err) = Scanner::new(source.to_string()).scan();

    should_equal_those(
        tokens,
        vec![
            Token::new(TokenType::LeftParen, "(".to_string(), "(".to_string(), 1),
            Token::new(TokenType::Bang, "!".to_string(), "!".to_string(), 1),
            Token::new(TokenType::Number, "2".to_string(), "2".to_string(), 1),
            Token::new(TokenType::RightParen, ")".to_string(), ")".to_string(), 1),
        ],
    )
}

#[test]
fn verify_that_it_can_read_groups_that_are_not_ed() {
    let source = "! ( ! 2 )";
    let (tokens, _err) = Scanner::new(source.to_string()).scan();

    should_equal_those(
        tokens,
        vec![
            Token::new(TokenType::Bang, "!".to_string(), "!".to_string(), 1),
            Token::new(TokenType::LeftParen, "(".to_string(), "(".to_string(), 1),
            Token::new(TokenType::Bang, "!".to_string(), "!".to_string(), 1),
            Token::new(TokenType::Number, "2".to_string(), "2".to_string(), 1),
            Token::new(TokenType::RightParen, ")".to_string(), ")".to_string(), 1),
        ],
    )
}

#[test]
fn it_reports_an_unterminated_string() {
    let source = "print \"oops";
    let (tokens, err) = Scanner::new(source.to_string()).scan();
    assert_eq!(tokens.len(), 1);
    assert_eq!(tokens[0].token_type, TokenType::Print);
    assert_eq!(
        err,
        Some(ScanError {
            line: 1,
            kind: ScanErrorKind::UnterminatedString,
        })
    );
}

#[test]
fn it_reports_an_unexpected_character() {
    let source = "1 ; 2";
    let (tokens, err) = Scanner::new(source.to_string()).scan();
    assert_eq!(
        tokens,
        vec![Token::new(
            TokenType::Number,
            "1".to_string(),
            "1".to_string(),
            1,
        )]
    );
    assert_eq!(
        err,
        Some(ScanError {
            line: 1,
            kind: ScanErrorKind::UnexpectedCharacter(';'),
        })
    );
}

#[test]
fn it_counts_lines_and_keeps_range_tokens_apart() {
    let source = "let x = 1\nfor i in [0..=2] { x }";
    let (tokens, err) = Scanner::new(source.to_string()).scan();
    assert_eq!(err, None);
    let kinds: Vec<TokenType> = tokens.iter().map(|t| t.token_type).collect();
    assert_eq!(
        kinds,
        vec![
            TokenType::Let,
            TokenType::Identifier,
            TokenType::Equal,
            TokenType::Number,
            TokenType::EOL,
            TokenType::For,
            TokenType::Identifier,
            TokenType::In,
            TokenType::LeftBracket,
            TokenType::Number,
            TokenType::DotDotEqual,
            TokenType::Number,
            TokenType::RightBracket,
            TokenType::LeftBrace,
            TokenType::Identifier,
            TokenType::RightBrace,
        ]
    );
    assert_eq!(tokens[5].line, 2);
    assert_eq!(tokens[2].lexeme, "".to_string());
}

#[test]
fn it_normalizes_leading_zeros() {
    let source = "007 000";
    let (tokens, err) = Scanner::new(source.to_string()).scan();
    assert_eq!(err, None);
    assert_eq!(tokens[0].lexeme, "7".to_string());
    assert_eq!(tokens[1].lexeme, "0".to_string());
}

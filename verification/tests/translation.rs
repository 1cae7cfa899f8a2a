//! Tests of the translator: token sequences and the trees they build.

use taupe::expression::{Expression, Operand, Primitive};
use taupe::token::{Token, TokenType};
use taupe::translator::Translator;

fn print_token() -> Token {
    Token::new(
        TokenType::Print,
        "print".to_string(),
        "print".to_string(),
        1,
    )
}

#[test]
fn it_prints() {
    let tokens = vec![
        print_token(),
        Token::new(TokenType::String, "john".to_string(), "john".to_string(), 1),
    ];
    let expr = Translator::from(tokens).unwrap();

    assert_eq!(
        expr,
        Box::new(Expression::Print {
            expression: Box::new(Expression::Primitive(Primitive::String("john".to_string())))
        })
    );
}

#[test]
fn it_prints_sum() {
    let tokens = vec![
        print_token(),
        Token::new(TokenType::LeftParen, "(".to_string(), "(".to_string(), 1),
        Token::new(TokenType::Plus, "+".to_string(), "+".to_string(), 1),
        Token::new(TokenType::Number, "2".to_string(), "2".to_string(), 1),
        Token::new(TokenType::Number, "1".to_string(), "1".to_string(), 1),
        Token::new(TokenType::RightParen, ")".to_string(), ")".to_string(), 1),
    ];
    let expr = Translator::from(tokens).unwrap();

    assert_eq!(
        expr,
        Box::new(Expression::Print {
            expression: Box::new(Expression::Sum {
                right: Box::new(Expression::Primitive(Primitive::Integer(2))),
                left: Box::new(Expression::Primitive(Primitive::Integer(1))),
            })
        })
    );
}

#[test]
fn it_makes_it_false() {
    let tokens = vec![
        Token::new(TokenType::Bang, "!".to_string(), "!".to_string(), 1),
        Token::new(TokenType::Number, "2".to_string(), "2".to_string(), 1),
    ];
    let expr = Translator::from(tokens).unwrap();

    assert_eq!(
        expr,
        Box::new(Expression::Unary {
            operand: Operand::Not,
            right: Box::new(Expression::Primitive(Primitive::Integer(2))),
        })
    );
}

#[test]
fn it_makes_it_true() {
    let tokens = vec![
        Token::new(TokenType::Bang, "!".to_string(), "!".to_string(), 1),
        Token::new(TokenType::LeftParen, "(".to_string(), "(".to_string(), 1),
        Token::new(TokenType::Bang, "!".to_string(), "!".to_string(), 1),
        Token::new(TokenType::Number, "1".to_string(), "1".to_string(), 1),
        Token::new(TokenType::RightParen, ")".to_string(), ")".to_string(), 1),
    ];
    let expr = Translator::from(tokens).unwrap();

    assert_eq!(
        expr,
        Box::new(Expression::Unary {
            operand: Operand::Not,
            right: Box::new(Expression::Unary {
                operand: Operand::Not,
                right: Box::new(Expression::Primitive(Primitive::Integer(1))),
            }),
        })
    );
}

#[test]
fn it_can_make_if_statements() {
    let tokens = vec![
        Token::new(TokenType::If, "if".to_string(), "if".to_string(), 1),
        Token::new(TokenType::LeftParen, "(".to_string(), "(".to_string(), 1),
        Token::new(TokenType::Bang, "!".to_string(), "!".to_string(), 1),
        Token::new(TokenType::Number, "1".to_string(), "1".to_string(), 1),
        Token::new(TokenType::RightParen, ")".to_string(), ")".to_string(), 1),
        Token::new(TokenType::LeftBrace, "{".to_string(), "{".to_string(), 1),
        Token::new(
            TokenType::Print,
            "print".to_string(),
            "print".to_string(),
            2,
        ),
        Token::new(TokenType::Number, "1".to_string(), "1".to_string(), 2),
        Token::new(TokenType::RightBrace, "}".to_string(), "}".to_string(), 3),
    ];

    let expr = Translator::from(tokens).unwrap();
    assert_eq!(
        expr,
        Box::new(Expression::If {
            condition: Box::new(Expression::Unary {
                operand: Operand::Not,
                right: Box::new(Expression::Primitive(Primitive::Integer(1))),
            }),
            then_branch: Box::new(Expression::Print {
                expression: Box::new(Expression::Primitive(Primitive::Integer(1)))
            }),
            else_branch: Box::new(Expression::Empty),
        })
    );
}

#[test]
fn it_can_make_let_statements() {
    let tokens = vec![
        Token::new(TokenType::Let, "let".to_string(), "let".to_string(), 1),
        Token::new(
            TokenType::Identifier,
            "xanax".to_string(),
            "xanax".to_string(),
            1,
        ),
        Token::new(TokenType::Equal, "=".to_string(), "=".to_string(), 1),
        Token::new(TokenType::Number, "1".to_string(), "1".to_string(), 1),
    ];

    let expr = Translator::from(tokens).unwrap();

    assert_eq!(
        expr,
        Box::new(Expression::Let {
            variables: vec![(
                "xanax".to_string(),
                Box::new(Expression::Primitive(Primitive::Integer(1)))
            ),],
            scope: Box::new(Expression::Empty),
        })
    );
}

#[test]
fn it_can_read_variables() {
    let tokens = vec![Token::new(
        TokenType::Identifier,
        "xanax".to_string(),
        "xanax".to_string(),
        1,
    )];

    let expr = Translator::from(tokens).unwrap();

    assert_eq!(
        expr,
        Box::new(Expression::Use {
            variable: "xanax".to_string(),
        })
    );
}

#[test]
fn mod_it_prints() {
    let tokens = vec![
        print_token(),
        Token::new(TokenType::String, "john".to_string(), "john".to_string(), 1),
    ];
    let expr = Translator::from(tokens).unwrap();

    assert_eq!(
        expr,
        Box::new(Expression::Print {
            expression: Box::new(Expression::Primitive(Primitive::String("john".to_string())))
        })
    );
}

#[test]
fn mod_it_prints_sum() {
    let tokens = vec![
        print_token(),
        Token::new(TokenType::LeftParen, "(".to_string(), "(".to_string(), 1),
        Token::new(TokenType::Plus, "+".to_string(), "+".to_string(), 1),
        Token::new(TokenType::Number, "2".to_string(), "2".to_string(), 1),
        Token::new(TokenType::Number, "1".to_string(), "1".to_string(), 1),
        Token::new(TokenType::RightParen, ")".to_string(), ")".to_string(), 1),
    ];
    let expr = Translator::from(tokens).unwrap();

    assert_eq!(
        expr,
        Box::new(Expression::Print {
            expression: Box::new(Expression::Sum {
                right: Box::new(Expression::Primitive(Primitive::Integer(2))),
                left: Box::new(Expression::Primitive(Primitive::Integer(1))),
            })
        })
    );
}

#[test]
fn mod_it_makes_it_false() {
    let tokens = vec![
        Token::new(TokenType::Bang, "!".to_string(), "!".to_string(), 1),
        Token::new(TokenType::Number, "2".to_string(), "2".to_string(), 1),
    ];
    let expr = Translator::from(tokens).unwrap();

    assert_eq!(
        expr,
        Box::new(Expression::Unary {
            operand: Operand::Not,
            right: Box::new(Expression::Primitive(Primitive::Integer(2))),
        })
    );
}

#[test]
fn mod_it_makes_it_true() {
    let tokens = vec![
        Token::new(TokenType::Bang, "!".to_string(), "!".to_string(), 1),
        Token::new(TokenType::LeftParen, "(".to_string(), "(".to_string(), 1),
        Token::new(TokenType::Bang, "!".to_string(), "!".to_string(), 1),
        Token::new(TokenType::Number, "1".to_string(), "1".to_string(), 1),
        Token::new(TokenType::RightParen, ")".to_string(), ")".to_string(), 1),
    ];
    let expr = Translator::from(tokens).unwrap();

    assert_eq!(
        expr,
        Box::new(Expression::Unary {
            operand: Operand::Not,
            right: Box::new(Expression::Unary {
                operand: Operand::Not,
                right: Box::new(Expression::Primitive(Primitive::Integer(1))),
            }),
        })
    );
}

#[test]
fn mod_it_can_make_if_statements() {
    let tokens = vec![
        Token::new(TokenType::If, "if".to_string(), "if".to_string(), 1),
        Token::new(TokenType::LeftParen, "(".to_string(), "(".to_string(), 1),
        Token::new(TokenType::Bang, "!".to_string(), "!".to_string(), 1),
        Token::new(TokenType::Number, "1".to_string(), "1".to_string(), 1),
        Token::new(TokenType::RightParen, ")".to_string(), ")".to_string(), 1),
        Token::new(TokenType::LeftBrace, "{".to_string(), "{".to_string(), 1),
        Token::new(
            TokenType::Print,
            "print".to_string(),
            "print".to_string(),
            2,
        ),
        Token::new(TokenType::Number, "1".to_string(), "1".to_string(), 2),
        Token::new(TokenType::RightBrace, "}".to_string(), "}".to_string(), 3),
    ];

    let expr = Translator::from(tokens).unwrap();
    assert_eq!(
        expr,
        Box::new(Expression::If {
            condition: Box::new(Expression::Unary {
                operand: Operand::Not,
                right: Box::new(Expression::Primitive(Primitive::Integer(1))),
            }),
            then_branch: Box::new(Expression::Print {
                expression: Box::new(Expression::Primitive(Primitive::Integer(1)))
            }),
            else_branch: Box::new(Expression::Empty),
        })
    );
}

#[test]
fn mod_it_can_make_let_statements() {
    let tokens = vec![
        Token::new(TokenType::Let, "let".to_string(), "let".to_string(), 1),
        Token::new(
            TokenType::Identifier,
            "xanax".to_string(),
            "xanax".to_string(),
            1,
        ),
        Token::new(TokenType::Equal, "=".to_string(), "=".to_string(), 1),
        Token::new(TokenType::Number, "1".to_string(), "1".to_string(), 1),
    ];

    let expr = Translator::from(tokens).unwrap();

    assert_eq!(
        expr,
        Box::new(Expression::Let {
            variables: vec![(
                "xanax".to_string(),
                Box::new(Expression::Primitive(Primitive::Integer(1)))
            ),],
            scope: Box::new(Expression::Empty),
        })
    );
}

#[test]
fn mod_it_can_read_variables() {
    let tokens = vec![Token::new(
        TokenType::Identifier,
        "xanax".to_string(),
        "xanax".to_string(),
        1,
    )];

    let expr = Translator::from(tokens).unwrap();

    assert_eq!(
        expr,
        Box::new(Expression::Use {
            variable: "xanax".to_string(),
        })
    );
}

#[test]
fn it_reports_a_missing_operand() {
    let tokens = vec![
        Token::new(TokenType::Minus, "-".to_string(), "-".to_string(), 7),
        Token::new(TokenType::Number, "2".to_string(), "2".to_string(), 7),
    ];
    let err = Translator::from(tokens).unwrap_err();
    assert_eq!(err.line, 7);
    assert_eq!(err.expected, "an operand".to_string());
}

#[test]
fn it_reports_an_unreadable_number() {
    let tokens = vec![Token::new(
        TokenType::Number,
        "9999999999999".to_string(),
        "9999999999999".to_string(),
        3,
    )];
    let err = Translator::from(tokens).unwrap_err();
    assert_eq!(err.line, 3);
    assert_eq!(err.expected, "a 32-bit integer".to_string());
}

#[test]
fn it_rewrites_an_exclusive_range() {
    let tokens = vec![
        Token::new(TokenType::For, "for".to_string(), "for".to_string(), 1),
        Token::new(TokenType::Identifier, "i".to_string(), "i".to_string(), 1),
        Token::new(TokenType::In, "in".to_string(), "in".to_string(), 1),
        Token::new(TokenType::LeftBracket, "[".to_string(), "[".to_string(), 1),
        Token::new(TokenType::Number, "0".to_string(), "0".to_string(), 1),
        Token::new(TokenType::DotDot, "..".to_string(), "..".to_string(), 1),
        Token::new(TokenType::Number, "5".to_string(), "5".to_string(), 1),
        Token::new(TokenType::RightBracket, "]".to_string(), "]".to_string(), 1),
        Token::new(TokenType::LeftBrace, "{".to_string(), "{".to_string(), 1),
        Token::new(TokenType::Number, "1".to_string(), "1".to_string(), 1),
        Token::new(TokenType::RightBrace, "}".to_string(), "}".to_string(), 1),
    ];
    let expr = Translator::from(tokens).unwrap();
    assert_eq!(
        expr,
        Box::new(Expression::For {
            variable: "i".to_string(),
            from: Box::new(Expression::Primitive(Primitive::Integer(0))),
            to: Box::new(Expression::Subtract {
                left: Box::new(Expression::Primitive(Primitive::Integer(5))),
                right: Box::new(Expression::Primitive(Primitive::Integer(1))),
            }),
            body: Box::new(Expression::Primitive(Primitive::Integer(1))),
        })
    );
}

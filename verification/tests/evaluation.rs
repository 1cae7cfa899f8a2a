//! Tests of the evaluator and of the whole pipeline: expressions, the
//! values they come to, and the output they write.

use taupe::environment::Environment;
use taupe::evaluation::evaluate;
use taupe::expression::{Expression, Operand, Primitive};
use taupe::interpretation::{interpret, interpret_with_state, repl_line};
use taupe::scanner::Scanner;
use taupe::token::{Token, TokenType};
use taupe::translator::Translator;
use taupe::values::{Error, TextPiece, Value};

const FUEL: u64 = 100_000;

fn integer(v: i32) -> Box<Expression> {
    Box::new(Expression::Primitive(Primitive::Integer(v)))
}

fn lit(piece: &str) -> TextPiece {
    TextPiece::Lit(piece.to_string())
}

fn eval_top(expr: &Expression) -> (Option<Result<Value, Error>>, Vec<TextPiece>) {
    let mut out: Vec<TextPiece> = Vec::new();
    let r = evaluate(expr, &None, &mut out, FUEL);
    (r, out)
}

fn eval_in(expr: &Expression, env: Environment) -> (Option<Result<Value, Error>>, Vec<TextPiece>) {
    let mut out: Vec<TextPiece> = Vec::new();
    let r = evaluate(expr, &Some(env), &mut out, FUEL);
    (r, out)
}

#[test]
fn printing_an_integer_writes_its_decimal_text() {
    let tokens = vec![
        Token::new(
            TokenType::Print,
            "print".to_string(),
            "print".to_string(),
            1,
        ),
        Token::new(TokenType::Number, "42".to_string(), "42".to_string(), 1),
    ];
    let expr = Translator::from(tokens).unwrap();
    let (r, out) = eval_top(&expr);
    assert_eq!(r, Some(Ok(Value::Unit)));
    assert_eq!(out, vec![lit("42"), TextPiece::Newline]);
}

#[test]
fn printing_a_negative_integer_writes_its_sign() {
    let expr = Expression::Print {
        expression: integer(-273),
    };
    let (r, out) = eval_top(&expr);
    assert_eq!(r, Some(Ok(Value::Unit)));
    assert_eq!(out, vec![lit("-273"), TextPiece::Newline]);
}

#[test]
fn division_yields_the_exact_quotient_not_an_integer() {
    let expr = Expression::Divide {
        left: integer(10),
        right: integer(2),
    };
    let (r, _) = eval_top(&expr);
    match r {
        Some(Ok(Value::Float { dividend, divisor })) => {
            assert_eq!(dividend, 10);
            assert_eq!(divisor, 2);
            assert!(dividend as f64 / divisor as f64 == 5.0);
        }
        other => panic!("expected a quotient, got {:?}", other),
    }
}

#[test]
fn division_by_zero_fails() {
    let expr = Expression::Divide {
        left: integer(10),
        right: integer(0),
    };
    let (r, _) = eval_top(&expr);
    assert_eq!(
        r,
        Some(Err(Error::InvalidValues(
            "Division with 0".to_string(),
            vec![Value::Integer(0)],
        )))
    );
}

#[test]
fn subtract_tokens_use_the_reversed_operand_order() {
    let tokens = vec![
        Token::new(TokenType::Minus, "-".to_string(), "-".to_string(), 1),
        Token::new(TokenType::Number, "2".to_string(), "2".to_string(), 1),
        Token::new(TokenType::Number, "1".to_string(), "1".to_string(), 1),
    ];
    let expr = Translator::from(tokens).unwrap();
    assert_eq!(
        expr,
        Box::new(Expression::Subtract {
            left: integer(1),
            right: integer(2),
        })
    );
    let (r, _) = eval_top(&expr);
    assert_eq!(r, Some(Ok(Value::Integer(-1))));
}

#[test]
fn a_let_binding_is_seen_by_its_scope() {
    let expr = Expression::Let {
        variables: vec![("x".to_string(), integer(1))],
        scope: Box::new(Expression::Use {
            variable: "x".to_string(),
        }),
    };
    let (r, _) = eval_top(&expr);
    assert_eq!(r, Some(Ok(Value::Integer(1))));
}

#[test]
fn an_unbound_name_is_an_undefined_variable() {
    let expr = Expression::Use {
        variable: "y".to_string(),
    };
    let (r, _) = eval_top(&expr);
    assert_eq!(r, Some(Err(Error::UndefinedVariable("y".to_string()))));

    let (r2, _) = eval_in(&expr, Environment::new());
    assert_eq!(r2, Some(Err(Error::UndefinedVariable("y".to_string()))));
}

#[test]
fn a_chain_propagates_an_assignment_to_its_right_side() {
    let expr = Expression::Chain {
        left: Box::new(Expression::Assign {
            variable: "x".to_string(),
            value: integer(2),
        }),
        right: Box::new(Expression::Use {
            variable: "x".to_string(),
        }),
    };
    let (r, _) = eval_in(&expr, Environment::new());
    assert_eq!(r, Some(Ok(Value::Integer(2))));
}

#[test]
fn a_chain_after_a_plain_value_keeps_the_old_environment() {
    let mut env = Environment::new();
    env.insert("x".to_string(), Expression::Primitive(Primitive::Integer(9)));
    let expr = Expression::Chain {
        left: integer(7),
        right: Box::new(Expression::Use {
            variable: "x".to_string(),
        }),
    };
    let (r, _) = eval_in(&expr, env);
    assert_eq!(r, Some(Ok(Value::Integer(9))));
}

#[test]
fn a_for_body_that_yields_state_carries_it_forward() {
    // Each iteration prints the accumulator, then folds the loop variable
    // into it; the printed values show the carry-over travelling across
    // iterations.
    let body = Expression::Chain {
        left: Box::new(Expression::Print {
            expression: Box::new(Expression::Use {
                variable: "x".to_string(),
            }),
        }),
        right: Box::new(Expression::Assign {
            variable: "x".to_string(),
            value: Box::new(Expression::Sum {
                left: Box::new(Expression::Use {
                    variable: "x".to_string(),
                }),
                right: Box::new(Expression::Use {
                    variable: "i".to_string(),
                }),
            }),
        }),
    };
    let mut env = Environment::new();
    env.insert("x".to_string(), Expression::Primitive(Primitive::Integer(0)));
    let expr = Expression::For {
        variable: "i".to_string(),
        from: integer(0),
        to: integer(2),
        body: Box::new(body),
    };
    let (r, out) = eval_in(&expr, env);
    assert_eq!(r, Some(Ok(Value::Unit)));
    assert_eq!(
        out,
        vec![
            lit("0"),
            TextPiece::Newline,
            lit("0"),
            TextPiece::Newline,
            lit("1"),
            TextPiece::Newline,
        ]
    );
}

#[test]
fn a_for_body_without_state_leaves_the_carry_over_alone() {
    let body = Expression::Print {
        expression: Box::new(Expression::Use {
            variable: "x".to_string(),
        }),
    };
    let mut env = Environment::new();
    env.insert("x".to_string(), Expression::Primitive(Primitive::Integer(5)));
    let expr = Expression::For {
        variable: "i".to_string(),
        from: integer(0),
        to: integer(2),
        body: Box::new(body),
    };
    let (r, out) = eval_in(&expr, env);
    assert_eq!(r, Some(Ok(Value::Unit)));
    assert_eq!(
        out,
        vec![
            lit("5"),
            TextPiece::Newline,
            lit("5"),
            TextPiece::Newline,
            lit("5"),
            TextPiece::Newline,
        ]
    );
}

#[test]
fn an_evaluated_literal_is_a_no_op_every_time() {
    let expr = Expression::Primitive(Primitive::String("steady".to_string()));
    let (first, out_first) = eval_top(&expr);
    let (second, out_second) = eval_top(&expr);
    assert_eq!(first, Some(Ok(Value::String("steady".to_string()))));
    assert_eq!(first, second);
    assert!(out_first.is_empty() && out_second.is_empty());

    let mut env = Environment::new();
    env.insert("x".to_string(), Expression::Primitive(Primitive::Integer(3)));
    let (third, _) = eval_in(&expr, env);
    assert_eq!(first, third);
}

#[test]
fn arithmetic_needs_integers_on_both_sides() {
    let expr = Expression::Sum {
        left: integer(1),
        right: Box::new(Expression::Primitive(Primitive::Boolean(true))),
    };
    let (r, _) = eval_top(&expr);
    assert_eq!(
        r,
        Some(Err(Error::InvalidValues(
            "Sum".to_string(),
            vec![Value::Integer(1), Value::Boolean(true)],
        )))
    );
}

#[test]
fn addition_wraps_at_the_integer_boundary() {
    let expr = Expression::Sum {
        left: integer(i32::MAX),
        right: integer(1),
    };
    let (r, _) = eval_top(&expr);
    assert_eq!(r, Some(Ok(Value::Integer(i32::MIN))));
}

#[test]
fn comparisons_and_unary_operators_work_on_integers() {
    let less = Expression::Compare {
        left: integer(3),
        operand: Operand::LessThan,
        right: integer(5),
    };
    let (r, _) = eval_top(&less);
    assert_eq!(r, Some(Ok(Value::Boolean(true))));

    let negate = Expression::Unary {
        operand: Operand::Negate,
        right: integer(8),
    };
    let (r2, _) = eval_top(&negate);
    assert_eq!(r2, Some(Ok(Value::Integer(-8))));

    let not_zero = Expression::Unary {
        operand: Operand::Not,
        right: integer(0),
    };
    let (r3, _) = eval_top(&not_zero);
    assert_eq!(r3, Some(Ok(Value::Boolean(true))));

    let bad = Expression::Unary {
        operand: Operand::Negate,
        right: Box::new(Expression::Primitive(Primitive::Boolean(true))),
    };
    let (r4, _) = eval_top(&bad);
    assert_eq!(r4, Some(Err(Error::InvalidOperand(Operand::Negate))));
}

#[test]
fn an_if_selects_its_branch_by_a_boolean_condition() {
    let expr = Expression::If {
        condition: Box::new(Expression::Primitive(Primitive::Boolean(false))),
        then_branch: integer(1),
        else_branch: integer(2),
    };
    let (r, _) = eval_top(&expr);
    assert_eq!(r, Some(Ok(Value::Integer(2))));

    let bad = Expression::If {
        condition: integer(1),
        then_branch: integer(1),
        else_branch: integer(2),
    };
    let (r2, _) = eval_top(&bad);
    assert_eq!(
        r2,
        Some(Err(Error::InvalidValues(
            "If".to_string(),
            vec![Value::Integer(1)],
        )))
    );
}

#[test]
fn a_bare_placeholder_is_an_evaluation_error() {
    let expr = Expression::Primitive(Primitive::Placeholder);
    let (r, _) = eval_top(&expr);
    assert_eq!(
        r,
        Some(Err(Error::InvalidValues(
            "Invalid primitive value".to_string(),
            vec![],
        )))
    );
}

#[test]
fn an_assignment_without_an_environment_fails() {
    let expr = Expression::Assign {
        variable: "x".to_string(),
        value: integer(1),
    };
    let (r, _) = eval_top(&expr);
    assert_eq!(r, Some(Err(Error::UndefinedVariable("x".to_string()))));
}

#[test]
fn a_for_over_bad_bounds_fails() {
    let expr = Expression::For {
        variable: "i".to_string(),
        from: Box::new(Expression::Primitive(Primitive::Boolean(true))),
        to: integer(2),
        body: integer(0),
    };
    let (r, _) = eval_top(&expr);
    assert_eq!(
        r,
        Some(Err(Error::InvalidValues(
            "For => bad [from..to]".to_string(),
            vec![Value::Boolean(true), Value::Integer(2)],
        )))
    );
}

#[test]
fn printing_a_state_lists_its_bindings() {
    let expr = Expression::Let {
        variables: vec![("x".to_string(), integer(4))],
        scope: Box::new(Expression::Print {
            expression: Box::new(Expression::DeriveState {
                expression: Box::new(Expression::Empty),
            }),
        }),
    };
    let (r, out) = eval_top(&expr);
    assert_eq!(r, Some(Ok(Value::Unit)));
    assert_eq!(
        out,
        vec![lit("x = "), lit("4"), lit("\n"), TextPiece::Newline]
    );
}

#[test]
fn interpret_swallows_the_error_and_hands_it_back() {
    let expr = Expression::Use {
        variable: "ghostly".to_string(),
    };
    let mut out: Vec<TextPiece> = Vec::new();
    let (v, err) = interpret(&expr, &mut out, FUEL);
    assert_eq!(v, Value::Unit);
    assert_eq!(err, Some(Error::UndefinedVariable("ghostly".to_string())));
}

#[test]
fn interpret_with_state_reads_the_carried_environment() {
    let mut env = Environment::new();
    env.insert("x".to_string(), Expression::Primitive(Primitive::Integer(11)));
    let expr = Expression::Use {
        variable: "x".to_string(),
    };
    let mut out: Vec<TextPiece> = Vec::new();
    let (v, err) = interpret_with_state(&expr, Some(env), &mut out, FUEL);
    assert_eq!(v, Value::Integer(11));
    assert_eq!(err, None);
}

#[test]
fn a_repl_line_carries_its_assignments_to_the_next_line() {
    let first = Scanner::new("let x = 41\nx".to_string()).scan().0;
    let mut out: Vec<TextPiece> = Vec::new();
    let (state, parse_err, eval_err) = repl_line(first, None, &mut out, FUEL);
    assert_eq!(parse_err, None);
    assert_eq!(eval_err, None);
    // `DeriveState` snapshots the environment the line was STARTED with,
    // so a line begun with no environment carries none on.
    assert!(state.is_none());

    // A `DeriveState` wrapper means every line hands its environment on;
    // an empty line still carries the absent environment.
    let second = Scanner::new("print 41".to_string()).scan().0;
    let mut out2: Vec<TextPiece> = Vec::new();
    let (_state2, parse_err2, eval_err2) = repl_line(second, None, &mut out2, FUEL);
    assert_eq!(parse_err2, None);
    assert_eq!(eval_err2, None);
    assert_eq!(out2, vec![lit("41"), TextPiece::Newline]);
}

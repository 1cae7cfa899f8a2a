//! The two embedding entry points around evaluation, and the decision step
//! of the interactive loop. Writing text to a sink and reading lines are
//! left to the embedder; everything here only computes.

use vstd::prelude::*;

use crate::environment::Environment;
use crate::evaluation::{eval, evaluate, state_model, EvalOutcome};
use crate::expression::{Expression, ExprModel};
use crate::token::{token_models, Token};
use crate::translator::{translate_program, ParseError, ParseOutcome, Translator};
use crate::values::{piece_models, Error, TextPiece, Value};

verus! {

/// Evaluates an expression at top level, with no environment. An error is
/// handed back beside the designated no-op value, so the embedder can
/// report it; the output that evaluation wrote is appended to `out`.
pub fn interpret(expr: &Expression, out: &mut Vec<TextPiece>, fuel: u64) -> (r: (
    Value,
    Option<Error>,
))
    ensures
        ({
            let s = eval(fuel as nat, expr@, Option::None);
            &&& piece_models(final(out)@) == piece_models(old(out)@) + s.out
            &&& match s.res {
                EvalOutcome::Value(v) => r.0@ == v && r.1 is None,
                EvalOutcome::Failed(e) => r.0 == Value::Unit && r.1 is Some && r.1->0@ == e,
                EvalOutcome::OutOfFuel => r.0 == Value::Unit && r.1 is None,
            }
        }),
{
    let none_state: Option<Environment> = Option::None;
    match evaluate(expr, &none_state, out, fuel) {
        Option::Some(Result::Ok(v)) => (v, Option::None),
        Option::Some(Result::Err(e)) => (Value::Unit, Option::Some(e)),
        Option::None => (Value::Unit, Option::None),
    }
}

/// Evaluates an expression against a carried environment, as the
/// interactive loop does between lines.
pub fn interpret_with_state(
    expr: &Expression,
    state: Option<Environment>,
    out: &mut Vec<TextPiece>,
    fuel: u64,
) -> (r: (Value, Option<Error>))
    ensures
        ({
            let s = eval(fuel as nat, expr@, state_model(state));
            &&& piece_models(final(out)@) == piece_models(old(out)@) + s.out
            &&& match s.res {
                EvalOutcome::Value(v) => r.0@ == v && r.1 is None,
                EvalOutcome::Failed(e) => r.0 == Value::Unit && r.1 is Some && r.1->0@ == e,
                EvalOutcome::OutOfFuel => r.0 == Value::Unit && r.1 is None,
            }
        }),
{
    match evaluate(expr, &state, out, fuel) {
        Option::Some(Result::Ok(v)) => (v, Option::None),
        Option::Some(Result::Err(e)) => (Value::Unit, Option::Some(e)),
        Option::None => (Value::Unit, Option::None),
    }
}

/// One line of the interactive loop: the tokens are translated, the tree
/// is wrapped in `DeriveState`, and the result is evaluated against the
/// carried environment. A `State` result becomes the environment carried
/// to the next line; any other result resets it to absent. A parse
/// failure keeps the last good environment.
pub fn repl_line(
    tokens: Vec<Token>,
    state: Option<Environment>,
    out: &mut Vec<TextPiece>,
    fuel: u64,
) -> (r: (Option<Environment>, Option<ParseError>, Option<Error>))
    ensures
        ({
            match translate_program(token_models(tokens@)) {
                ParseOutcome::Refused(pe) => {
                    &&& state_model(r.0) == state_model(state)
                    &&& r.1 is Some && r.1->0@ == pe
                    &&& r.2 is None
                    &&& piece_models(final(out)@) == piece_models(old(out)@)
                },
                ParseOutcome::Parsed(m) => {
                    let s = eval(
                        fuel as nat,
                        ExprModel::DeriveState { expression: Box::new(m) },
                        state_model(state),
                    );
                    &&& piece_models(final(out)@) == piece_models(old(out)@) + s.out
                    &&& r.1 is None
                    &&& match s.res {
                        EvalOutcome::Value(v) => r.2 is None && match v {
                            crate::values::ValueModel::State(ns) => state_model(r.0) == ns,
                            _ => r.0 is None,
                        },
                        EvalOutcome::Failed(e) => r.0 is None && r.2 is Some && r.2->0@ == e,
                        EvalOutcome::OutOfFuel => r.0 is None && r.2 is None,
                    }
                },
            }
        }),
{
    match Translator::from(tokens) {
        Result::Err(pe) => (state, Option::Some(pe), Option::None),
        Result::Ok(b) => {
            let expr = Expression::DeriveState { expression: b };
            match evaluate(&expr, &state, out, fuel) {
                Option::Some(Result::Ok(v)) => match v {
                    Value::State(ns) => (ns, Option::None, Option::None),
                    _ => (Option::None, Option::None, Option::None),
                },
                Option::Some(Result::Err(e)) => (Option::None, Option::None, Option::Some(e)),
                Option::None => (Option::None, Option::None, Option::None),
            }
        },
    }
}

} // verus!

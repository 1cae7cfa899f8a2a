//! Runtime results: the value algebra, the failure taxonomy, and the text
//! pieces that `Print` writes to the output sink.

use vstd::prelude::*;

use crate::environment::{EnvModel, Environment};
use crate::expression::Operand;
use crate::numbers::{dec_str, render_i32};

verus! {

/// The result algebra of evaluation. `Float` holds the exact quotient that a
/// division produced, as its dividend and divisor; the divisor is never
/// zero. `State` carries an environment snapshot out of evaluation as an
/// ordinary value.
#[derive(Debug, PartialEq)]
pub enum Value {
    String(String),
    Integer(i32),
    Float { dividend: i32, divisor: i32 },
    Boolean(bool),
    State(Option<Environment>),
    Unit,
}

/// The mathematical image of a `Value`.
pub enum ValueModel {
    Str(Seq<char>),
    Integer(i32),
    Float { dividend: i32, divisor: i32 },
    Boolean(bool),
    State(Option<EnvModel>),
    Unit,
}

impl View for Value {
    type V = ValueModel;

    open spec fn view(&self) -> ValueModel {
        match self {
            Value::String(s) => ValueModel::Str(s@),
            Value::Integer(v) => ValueModel::Integer(*v),
            Value::Float { dividend, divisor } => ValueModel::Float {
                dividend: *dividend,
                divisor: *divisor,
            },
            Value::Boolean(b) => ValueModel::Boolean(*b),
            Value::State(os) => ValueModel::State(
                match os {
                    Option::Some(env) => Option::Some(env@),
                    Option::None => Option::None,
                },
            ),
            Value::Unit => ValueModel::Unit,
        }
    }
}

/// The models of a list of values, in order.
pub open spec fn value_models(vs: Seq<Value>) -> Seq<ValueModel> {
    vs.map_values(|v: Value| v@)
}

impl Value {
    /// An explicit deep copy whose result has the same model as the
    /// original.
    pub fn duplicate(&self) -> (r: Value)
        ensures
            r@ == self@,
    {
        match self {
            Value::String(s) => Value::String(s.clone()),
            Value::Integer(v) => Value::Integer(*v),
            Value::Float { dividend, divisor } => Value::Float {
                dividend: *dividend,
                divisor: *divisor,
            },
            Value::Boolean(b) => Value::Boolean(*b),
            Value::State(os) => Value::State(
                match os {
                    Option::Some(env) => Option::Some(env.duplicate()),
                    Option::None => Option::None,
                },
            ),
            Value::Unit => Value::Unit,
        }
    }
}

/// The failure taxonomy of evaluation. No variant carries partial results;
/// evaluation is fail-fast.
#[derive(Debug, PartialEq)]
pub enum Error {
    /// An operator reached a position where it makes no sense.
    InvalidOperand(Operand),
    /// Operand values of the wrong kind, under a label naming the construct.
    InvalidValues(String, Vec<Value>),
    /// A name was used or assigned with no binding in scope.
    UndefinedVariable(String),
}

/// The mathematical image of an `Error`.
pub enum ErrorModel {
    InvalidOperand(Operand),
    InvalidValues(Seq<char>, Seq<ValueModel>),
    UndefinedVariable(Seq<char>),
}

impl View for Error {
    type V = ErrorModel;

    open spec fn view(&self) -> ErrorModel {
        match self {
            Error::InvalidOperand(op) => ErrorModel::InvalidOperand(*op),
            Error::InvalidValues(label, vs) => ErrorModel::InvalidValues(
                label@,
                value_models(vs@),
            ),
            Error::UndefinedVariable(name) => ErrorModel::UndefinedVariable(name@),
        }
    }
}

/// One piece of output text. `Quotient` stands for the textual form of the
/// exact quotient `dividend / divisor`, which is rendered outside the
/// library; `Newline` ends the line that a `Print` produced.
#[derive(Debug, PartialEq)]
pub enum TextPiece {
    Lit(String),
    Quotient { dividend: i32, divisor: i32 },
    Newline,
}

/// The mathematical image of a `TextPiece`.
pub enum PieceModel {
    Lit(Seq<char>),
    Quotient { dividend: i32, divisor: i32 },
    Newline,
}

impl View for TextPiece {
    type V = PieceModel;

    open spec fn view(&self) -> PieceModel {
        match self {
            TextPiece::Lit(s) => PieceModel::Lit(s@),
            TextPiece::Quotient { dividend, divisor } => PieceModel::Quotient {
                dividend: *dividend,
                divisor: *divisor,
            },
            TextPiece::Newline => PieceModel::Newline,
        }
    }
}

/// The models of a list of text pieces, in order.
pub open spec fn piece_models(ps: Seq<TextPiece>) -> Seq<PieceModel> {
    ps.map_values(|p: TextPiece| p@)
}

/// The text that a value contributes to a printed line: strings stand as
/// they are, integers in decimal, quotients as a `Quotient` piece, booleans
/// as `true` or `false`, a unit as nothing, and a state value under the
/// fixed name `State`.
pub open spec fn value_pieces(v: ValueModel) -> Seq<PieceModel> {
    match v {
        ValueModel::Str(s) => seq![PieceModel::Lit(s)],
        ValueModel::Integer(i) => seq![PieceModel::Lit(dec_str(i as int))],
        ValueModel::Float { dividend, divisor } => seq![
            PieceModel::Quotient { dividend, divisor },
        ],
        ValueModel::Boolean(b) => if b {
            seq![PieceModel::Lit("true"@)]
        } else {
            seq![PieceModel::Lit("false"@)]
        },
        ValueModel::Unit => Seq::empty(),
        ValueModel::State(_) => seq![PieceModel::Lit("State"@)],
    }
}

/// Appending a piece appends its model.
pub proof fn lemma_piece_models_push(ps: Seq<TextPiece>, p: TextPiece)
    ensures
        piece_models(ps.push(p)) =~= piece_models(ps).push(p@),
{
}

/// Appends the text of one value to the output, as `value_pieces` says.
pub fn push_value_pieces(v: &Value, out: &mut Vec<TextPiece>)
    ensures
        piece_models(final(out)@) == piece_models(old(out)@) + value_pieces(v@),
{
    let ghost prev = out@;
    match v {
        Value::String(s) => out.push(TextPiece::Lit(s.clone())),
        Value::Integer(i) => out.push(TextPiece::Lit(render_i32(*i))),
        Value::Float { dividend, divisor } => out.push(
            TextPiece::Quotient { dividend: *dividend, divisor: *divisor },
        ),
        Value::Boolean(b) => {
            if *b {
                out.push(TextPiece::Lit(String::from_str("true")));
            } else {
                out.push(TextPiece::Lit(String::from_str("false")));
            }
        },
        Value::State(_) => out.push(TextPiece::Lit(String::from_str("State"))),
        Value::Unit => {},
    }
    proof {
        assert(piece_models(out@) =~= piece_models(prev) + value_pieces(v@));
    }
}

} // verus!

//! The evaluator: a fuel-bounded recursive interpretation of expression
//! trees against an optional environment, defined first as a mathematical
//! function on models and then implemented by executable code proved equal
//! to it.
//!
//! Fuel bounds the depth of evaluation. Every recursive step spends one
//! unit; an evaluation that runs out is reported as such rather than
//! looping forever, which can otherwise happen because `Use` re-evaluates
//! stored expressions.

use vstd::prelude::*;

use crate::environment::{env_lookup, env_update, EnvModel, Environment};
use crate::expression::{expr_model, ExprModel, Expression, Operand, Primitive, PrimitiveModel};
use crate::values::{
    piece_models, push_value_pieces, value_models, value_pieces, Error, ErrorModel, PieceModel,
    TextPiece, Value, ValueModel,
};

verus! {

/// What one evaluation step came to: a value, a failure, or fuel running
/// out.
pub enum EvalOutcome {
    Value(ValueModel),
    Failed(ErrorModel),
    OutOfFuel,
}

/// The meaning of one evaluation: its outcome and the output it wrote.
pub struct EvalModel {
    pub res: EvalOutcome,
    pub out: Seq<PieceModel>,
}

/// What a state listing came to: its rendered text, a failure, or fuel
/// running out.
pub enum ListingOutcome {
    Rendered(Seq<PieceModel>),
    Failed(ErrorModel),
    OutOfFuel,
}

/// The meaning of rendering a state listing: its outcome and the output
/// that the re-evaluation of its bindings wrote.
pub struct ListingModel {
    pub res: ListingOutcome,
    pub out: Seq<PieceModel>,
}

/// The two-operand constructs that evaluate both sides to integers.
#[derive(Clone, Copy)]
pub enum BinaryKind {
    Sum,
    Product,
    Subtract,
    Divide,
    Compare(Operand),
}

/// The model of an optional environment.
pub open spec fn state_model(s: Option<Environment>) -> Option<EnvModel> {
    match s {
        Option::Some(env) => Option::Some(env@),
        Option::None => Option::None,
    }
}

/// An evaluation that produced a value.
pub open spec fn done(v: ValueModel, out: Seq<PieceModel>) -> EvalModel {
    EvalModel { res: EvalOutcome::Value(v), out }
}

/// An evaluation that failed.
pub open spec fn failed(e: ErrorModel, out: Seq<PieceModel>) -> EvalModel {
    EvalModel { res: EvalOutcome::Failed(e), out }
}

/// An evaluation that ran out of fuel.
pub open spec fn starved(out: Seq<PieceModel>) -> EvalModel {
    EvalModel { res: EvalOutcome::OutOfFuel, out }
}

/// The label under which a two-operand construct reports bad values.
pub open spec fn binary_label(kind: BinaryKind) -> Seq<char> {
    match kind {
        BinaryKind::Sum => "Sum"@,
        BinaryKind::Product => "Product"@,
        BinaryKind::Subtract => "Subtract"@,
        BinaryKind::Divide => "Divide"@,
        BinaryKind::Compare(_) => "Compare"@,
    }
}

/// What a two-operand construct makes of its two operand values. Both must
/// be integers; arithmetic wraps; division by zero fails; a division
/// returns the exact quotient as a `Float`; comparisons with a unary
/// operand fail.
pub open spec fn combine_binary(kind: BinaryKind, lv: ValueModel, rv: ValueModel) -> EvalOutcome {
    match (lv, rv) {
        (ValueModel::Integer(a), ValueModel::Integer(b)) => match kind {
            BinaryKind::Sum => EvalOutcome::Value(ValueModel::Integer(a.wrapping_add(b))),
            BinaryKind::Product => EvalOutcome::Value(ValueModel::Integer(a.wrapping_mul(b))),
            BinaryKind::Subtract => EvalOutcome::Value(ValueModel::Integer(a.wrapping_sub(b))),
            BinaryKind::Divide => {
                if b == 0 {
                    EvalOutcome::Failed(ErrorModel::InvalidValues("Division with 0"@, seq![rv]))
                } else {
                    EvalOutcome::Value(ValueModel::Float { dividend: a, divisor: b })
                }
            },
            BinaryKind::Compare(op) => match op {
                Operand::Equals => EvalOutcome::Value(ValueModel::Boolean(a == b)),
                Operand::LessThan => EvalOutcome::Value(ValueModel::Boolean(a < b)),
                Operand::GreaterThan => EvalOutcome::Value(ValueModel::Boolean(a > b)),
                _ => EvalOutcome::Failed(ErrorModel::InvalidOperand(op)),
            },
        },
        _ => EvalOutcome::Failed(ErrorModel::InvalidValues(binary_label(kind), seq![lv, rv])),
    }
}

/// What a unary construct makes of its operand value. `Negate` negates an
/// integer (wrapping); `Not` tests an integer against zero or negates a
/// boolean.
pub open spec fn combine_unary(op: Operand, v: ValueModel) -> EvalOutcome {
    match v {
        ValueModel::Integer(x) => match op {
            Operand::Negate => EvalOutcome::Value(ValueModel::Integer(0i32.wrapping_sub(x))),
            Operand::Not => EvalOutcome::Value(ValueModel::Boolean(x == 0)),
            _ => EvalOutcome::Failed(ErrorModel::InvalidOperand(op)),
        },
        ValueModel::Boolean(b) => match op {
            Operand::Not => EvalOutcome::Value(ValueModel::Boolean(!b)),
            _ => EvalOutcome::Failed(ErrorModel::InvalidOperand(op)),
        },
        _ => EvalOutcome::Failed(ErrorModel::InvalidValues("Unary"@, seq![v])),
    }
}

/// The environment extended with each binding in order, first to last.
pub open spec fn env_extend(m: EnvModel, vs: Seq<(Seq<char>, ExprModel)>) -> EnvModel
    decreases vs.len(),
{
    if vs.len() == 0 {
        m
    } else {
        env_extend(env_update(m, vs[0].0, vs[0].1), vs.drop_first())
    }
}

/// The meaning of evaluating `e` against `env` with `fuel` steps to spend.
pub open spec fn eval(fuel: nat, e: ExprModel, env: Option<EnvModel>) -> EvalModel
    decreases fuel, 0int,
{
    if fuel == 0 {
        starved(Seq::empty())
    } else {
        let f = (fuel - 1) as nat;
        match e {
            ExprModel::Empty => done(ValueModel::Unit, Seq::empty()),
            ExprModel::Primitive(p) => match p {
                PrimitiveModel::Integer(v) => done(ValueModel::Integer(v), Seq::empty()),
                PrimitiveModel::Str(s) => done(ValueModel::Str(s), Seq::empty()),
                PrimitiveModel::Boolean(b) => done(ValueModel::Boolean(b), Seq::empty()),
                PrimitiveModel::Placeholder => failed(
                    ErrorModel::InvalidValues("Invalid primitive value"@, Seq::empty()),
                    Seq::empty(),
                ),
            },
            ExprModel::Group(inner) => eval(f, *inner, env),
            ExprModel::Sum { left, right } => eval_binary(f, BinaryKind::Sum, *left, *right, env),
            ExprModel::Product { left, right } => eval_binary(
                f,
                BinaryKind::Product,
                *left,
                *right,
                env,
            ),
            ExprModel::Subtract { left, right } => eval_binary(
                f,
                BinaryKind::Subtract,
                *left,
                *right,
                env,
            ),
            ExprModel::Divide { left, right } => eval_binary(
                f,
                BinaryKind::Divide,
                *left,
                *right,
                env,
            ),
            ExprModel::Compare { left, operand, right } => eval_binary(
                f,
                BinaryKind::Compare(operand),
                *left,
                *right,
                env,
            ),
            ExprModel::If { condition, then_branch, else_branch } => eval_if(
                f,
                *condition,
                *then_branch,
                *else_branch,
                env,
            ),
            ExprModel::Let { variables, scope } => eval_let(f, variables, *scope, env),
            ExprModel::Use { variable } => eval_use(f, variable, env),
            ExprModel::Unary { operand, right } => eval_unary_construct(f, operand, *right, env),
            ExprModel::Assign { variable, value } => eval_assign(f, variable, *value, env),
            ExprModel::For { variable, from, to, body } => eval_for_construct(
                f,
                variable,
                *from,
                *to,
                *body,
                env,
            ),
            ExprModel::Print { expression } => eval_print(f, *expression, env),
            ExprModel::Chain { left, right } => eval_chain(f, *left, *right, env),
            ExprModel::DeriveState { expression } => eval_derive(f, *expression, env),
        }
    }
}

/// The meaning of evaluating both operands of a two-operand construct,
/// left first, and combining their values.
pub open spec fn eval_binary(
    fuel: nat,
    kind: BinaryKind,
    l: ExprModel,
    r: ExprModel,
    env: Option<EnvModel>,
) -> EvalModel
    decreases fuel, 1int,
{
    let lr = eval(fuel, l, env);
    match lr.res {
        EvalOutcome::Value(lv) => {
            let rr = eval(fuel, r, env);
            match rr.res {
                EvalOutcome::Value(rv) => EvalModel {
                    res: combine_binary(kind, lv, rv),
                    out: lr.out + rr.out,
                },
                _ => EvalModel { res: rr.res, out: lr.out + rr.out },
            }
        },
        _ => lr,
    }
}

/// The meaning of an `If`: the condition must come to a boolean, which
/// selects the branch.
pub open spec fn eval_if(
    fuel: nat,
    condition: ExprModel,
    then_branch: ExprModel,
    else_branch: ExprModel,
    env: Option<EnvModel>,
) -> EvalModel
    decreases fuel, 1int,
{
    let c = eval(fuel, condition, env);
    match c.res {
        EvalOutcome::Value(cv) => match cv {
            ValueModel::Boolean(b) => {
                let r = if b {
                    eval(fuel, then_branch, env)
                } else {
                    eval(fuel, else_branch, env)
                };
                EvalModel { res: r.res, out: c.out + r.out }
            },
            _ => failed(ErrorModel::InvalidValues("If"@, seq![cv]), c.out),
        },
        _ => c,
    }
}

/// The meaning of a `Let`: the current environment, or a fresh one when
/// absent, is extended with every binding in order, and the scope is
/// evaluated against the extension.
pub open spec fn eval_let(
    fuel: nat,
    variables: Seq<(Seq<char>, ExprModel)>,
    scope: ExprModel,
    env: Option<EnvModel>,
) -> EvalModel
    decreases fuel, 1int,
{
    let base = match env {
        Option::Some(m) => m,
        Option::None => Seq::empty(),
    };
    eval(fuel, scope, Option::Some(env_extend(base, variables)))
}

/// The meaning of a `Use`: the stored expression of the first binding of
/// the name is re-evaluated against the current environment; an absent
/// environment or a missing binding is an undefined variable.
pub open spec fn eval_use(fuel: nat, variable: Seq<char>, env: Option<EnvModel>) -> EvalModel
    decreases fuel, 1int,
{
    match env {
        Option::None => failed(ErrorModel::UndefinedVariable(variable), Seq::empty()),
        Option::Some(m) => match env_lookup(m, variable) {
            Option::None => failed(ErrorModel::UndefinedVariable(variable), Seq::empty()),
            Option::Some(stored) => eval(fuel, stored, Option::Some(m)),
        },
    }
}

/// The meaning of a unary construct: the operand is evaluated and combined
/// with the operator.
pub open spec fn eval_unary_construct(
    fuel: nat,
    operand: Operand,
    right: ExprModel,
    env: Option<EnvModel>,
) -> EvalModel
    decreases fuel, 1int,
{
    let r = eval(fuel, right, env);
    match r.res {
        EvalOutcome::Value(v) => EvalModel { res: combine_unary(operand, v), out: r.out },
        _ => r,
    }
}

/// The meaning of an `Assign`: with an environment present, the value is
/// evaluated in it, wrapped back into a literal expression, and bound in a
/// copy; the new snapshot is returned as a `State` value. Without an
/// environment there is nothing to extend. A value with no literal form
/// cannot be stored back.
pub open spec fn eval_assign(
    fuel: nat,
    variable: Seq<char>,
    value: ExprModel,
    env: Option<EnvModel>,
) -> EvalModel
    decreases fuel, 1int,
{
    match env {
        Option::None => failed(ErrorModel::UndefinedVariable(variable), Seq::empty()),
        Option::Some(m) => {
            let r = eval(fuel, value, Option::Some(m));
            match r.res {
                EvalOutcome::Value(v) => match v {
                    ValueModel::Integer(n) => done(
                        ValueModel::State(
                            Option::Some(
                                env_update(
                                    m,
                                    variable,
                                    ExprModel::Primitive(PrimitiveModel::Integer(n)),
                                ),
                            ),
                        ),
                        r.out,
                    ),
                    ValueModel::Str(s) => done(
                        ValueModel::State(
                            Option::Some(
                                env_update(
                                    m,
                                    variable,
                                    ExprModel::Primitive(PrimitiveModel::Str(s)),
                                ),
                            ),
                        ),
                        r.out,
                    ),
                    ValueModel::Boolean(b) => done(
                        ValueModel::State(
                            Option::Some(
                                env_update(
                                    m,
                                    variable,
                                    ExprModel::Primitive(PrimitiveModel::Boolean(b)),
                                ),
                            ),
                        ),
                        r.out,
                    ),
                    _ => failed(ErrorModel::InvalidValues("Assign"@, seq![v]), r.out),
                },
                _ => r,
            }
        },
    }
}

/// The meaning of a `For`: the bounds are evaluated first and must both be
/// integers; the loop then runs over the inclusive range.
pub open spec fn eval_for_construct(
    fuel: nat,
    variable: Seq<char>,
    from: ExprModel,
    to: ExprModel,
    body: ExprModel,
    env: Option<EnvModel>,
) -> EvalModel
    decreases fuel, 1int,
{
    let fr = eval(fuel, from, env);
    match fr.res {
        EvalOutcome::Value(fv) => {
            let tr = eval(fuel, to, env);
            match tr.res {
                EvalOutcome::Value(tv) => match (fv, tv) {
                    (ValueModel::Integer(a), ValueModel::Integer(b)) => {
                        let lr = eval_for(
                            fuel,
                            variable,
                            a as int,
                            b as int,
                            body,
                            env is Some,
                            env,
                        );
                        EvalModel { res: lr.res, out: fr.out + tr.out + lr.out }
                    },
                    _ => failed(
                        ErrorModel::InvalidValues("For => bad [from..to]"@, seq![fv, tv]),
                        fr.out + tr.out,
                    ),
                },
                _ => EvalModel { res: tr.res, out: fr.out + tr.out },
            }
        },
        _ => fr,
    }
}

/// The meaning of the loop of a `For`: one iteration for each integer from
/// `i` to `to` inclusive. With an outer environment and a carry-over
/// snapshot present, each iteration binds the variable in the carry-over,
/// and a body that comes to a `State` value replaces the carry-over for the
/// following iterations; any other body value leaves it untouched.
/// Otherwise each iteration runs in a fresh environment holding only the
/// variable, and body values are discarded. Errors stop the loop; its own
/// value is always `Unit`.
pub open spec fn eval_for(
    fuel: nat,
    variable: Seq<char>,
    i: int,
    to: int,
    body: ExprModel,
    outer_some: bool,
    carry: Option<EnvModel>,
) -> EvalModel
    decreases fuel, 0int,
{
    if i > to {
        done(ValueModel::Unit, Seq::empty())
    } else if fuel == 0 {
        starved(Seq::empty())
    } else {
        let f = (fuel - 1) as nat;
        let cur = ExprModel::Primitive(PrimitiveModel::Integer(i as i32));
        if outer_some && carry is Some {
            let prev = carry->0;
            let br = eval(f, body, Option::Some(env_update(prev, variable, cur)));
            match br.res {
                EvalOutcome::Value(bv) => {
                    let next = match bv {
                        ValueModel::State(nv) => nv,
                        _ => carry,
                    };
                    let rest = eval_for(f, variable, i + 1, to, body, outer_some, next);
                    EvalModel { res: rest.res, out: br.out + rest.out }
                },
                _ => br,
            }
        } else {
            let br = eval(f, body, Option::Some(seq![(variable, cur)]));
            match br.res {
                EvalOutcome::Value(_) => {
                    let rest = eval_for(f, variable, i + 1, to, body, outer_some, carry);
                    EvalModel { res: rest.res, out: br.out + rest.out }
                },
                _ => br,
            }
        }
    }
}

/// The meaning of a `Print`: the operand is evaluated and rendered. A
/// state with an environment renders as its listing; an absent state and a
/// unit render as empty text; every other value renders as its natural
/// text. The rendered line goes to the output, ended by a newline, and the
/// construct itself comes to `Unit`.
pub open spec fn eval_print(fuel: nat, expression: ExprModel, env: Option<EnvModel>) -> EvalModel
    decreases fuel, 1int,
{
    let r = eval(fuel, expression, env);
    match r.res {
        EvalOutcome::Value(v) => match v {
            ValueModel::State(Option::Some(m)) => {
                let lr = eval_listing(fuel, m, env);
                match lr.res {
                    ListingOutcome::Rendered(text) => done(
                        ValueModel::Unit,
                        r.out + lr.out + text + seq![PieceModel::Newline],
                    ),
                    ListingOutcome::Failed(e) => failed(e, r.out + lr.out),
                    ListingOutcome::OutOfFuel => starved(r.out + lr.out),
                }
            },
            ValueModel::State(Option::None) => done(
                ValueModel::Unit,
                r.out + seq![PieceModel::Newline],
            ),
            _ => done(ValueModel::Unit, r.out + value_pieces(v) + seq![PieceModel::Newline]),
        },
        _ => r,
    }
}

/// The meaning of a `Chain`: the left side is evaluated; a `State` value
/// hands its environment to the right side, any other value leaves the
/// environment unchanged.
pub open spec fn eval_chain(
    fuel: nat,
    left: ExprModel,
    right: ExprModel,
    env: Option<EnvModel>,
) -> EvalModel
    decreases fuel, 1int,
{
    let lr = eval(fuel, left, env);
    match lr.res {
        EvalOutcome::Value(lv) => {
            let next_env = match lv {
                ValueModel::State(s) => s,
                _ => env,
            };
            let rr = eval(fuel, right, next_env);
            EvalModel { res: rr.res, out: lr.out + rr.out }
        },
        _ => lr,
    }
}

/// The meaning of a `DeriveState`: the operand is evaluated for its output
/// alone, and the current environment is handed back as a `State` value.
pub open spec fn eval_derive(fuel: nat, expression: ExprModel, env: Option<EnvModel>) -> EvalModel
    decreases fuel, 1int,
{
    let r = eval(fuel, expression, env);
    match r.res {
        EvalOutcome::Value(_) => done(ValueModel::State(env), r.out),
        _ => r,
    }
}

/// The meaning of rendering a state listing: each binding, in order, is
/// re-evaluated against the caller's environment and rendered as a line
/// `name = value`.
pub open spec fn eval_listing(fuel: nat, entries: EnvModel, env: Option<EnvModel>) -> ListingModel
    decreases fuel, 0int,
{
    if fuel == 0 {
        ListingModel { res: ListingOutcome::OutOfFuel, out: Seq::empty() }
    } else if entries.len() == 0 {
        ListingModel { res: ListingOutcome::Rendered(Seq::empty()), out: Seq::empty() }
    } else {
        let f = (fuel - 1) as nat;
        let r = eval(f, entries[0].1, env);
        match r.res {
            EvalOutcome::Value(v) => {
                let rest = eval_listing(f, entries.drop_first(), env);
                match rest.res {
                    ListingOutcome::Rendered(text) => ListingModel {
                        res: ListingOutcome::Rendered(
                            seq![PieceModel::Lit(entries[0].0 + " = "@)] + value_pieces(v)
                                + seq![PieceModel::Lit("\n"@)] + text,
                        ),
                        out: r.out + rest.out,
                    },
                    _ => ListingModel { res: rest.res, out: r.out + rest.out },
                }
            },
            EvalOutcome::Failed(e) => ListingModel { res: ListingOutcome::Failed(e), out: r.out },
            EvalOutcome::OutOfFuel => ListingModel {
                res: ListingOutcome::OutOfFuel,
                out: r.out,
            },
        }
    }
}

/// How an executable result and the output it appended relate to an
/// evaluation model: the appended output is the model's, and the result
/// mirrors the model's outcome.
pub open spec fn matches_eval(
    r: Option<Result<Value, Error>>,
    old_pieces: Seq<PieceModel>,
    new_pieces: Seq<PieceModel>,
    s: EvalModel,
) -> bool {
    &&& new_pieces == old_pieces + s.out
    &&& match r {
        Option::None => s.res is OutOfFuel,
        Option::Some(q) => match q {
            Result::Ok(v) => s.res == EvalOutcome::Value(v@),
            Result::Err(e) => s.res == EvalOutcome::Failed(e@),
        },
    }
}

/// Concatenating piece lists concatenates their models.
pub proof fn lemma_piece_models_concat(a: Seq<TextPiece>, b: Seq<TextPiece>)
    ensures
        piece_models(a + b) =~= piece_models(a) + piece_models(b),
{
}

/// Extending an environment by one more binding updates the extension.
proof fn lemma_env_extend_push(
    m: EnvModel,
    vs: Seq<(Seq<char>, ExprModel)>,
    p: (Seq<char>, ExprModel),
)
    ensures
        env_extend(m, vs.push(p)) == env_update(env_extend(m, vs), p.0, p.1),
    decreases vs.len(),
{
    if vs.len() == 0 {
        assert(vs.push(p).drop_first() =~= Seq::<(Seq<char>, ExprModel)>::empty());
        reveal_with_fuel(env_extend, 3);
    } else {
        lemma_env_extend_push(env_update(m, vs[0].0, vs[0].1), vs.drop_first(), p);
        assert(vs.push(p).drop_first() =~= vs.drop_first().push(p));
    }
}

/// An explicit deep copy of an optional environment.
pub fn duplicate_state(state: &Option<Environment>) -> (r: Option<Environment>)
    ensures
        state_model(r) == state_model(*state),
{
    match state {
        Option::Some(env) => Option::Some(env.duplicate()),
        Option::None => Option::None,
    }
}

/// The label under which a two-operand construct reports bad values.
fn binary_label_text(kind: BinaryKind) -> (r: String)
    ensures
        r@ == binary_label(kind),
{
    match kind {
        BinaryKind::Sum => String::from_str("Sum"),
        BinaryKind::Product => String::from_str("Product"),
        BinaryKind::Subtract => String::from_str("Subtract"),
        BinaryKind::Divide => String::from_str("Divide"),
        BinaryKind::Compare(_) => String::from_str("Compare"),
    }
}

/// Evaluates an expression against an optional environment, spending at
/// most `fuel` steps, and appends whatever `Print` constructs write to
/// `out`. Returns the value or the error that `eval` gives the expression,
/// and nothing if the fuel ran out first.
pub fn evaluate(
    expr: &Expression,
    state: &Option<Environment>,
    out: &mut Vec<TextPiece>,
    fuel: u64,
) -> (r: Option<Result<Value, Error>>)
    ensures
        matches_eval(
            r,
            piece_models(old(out)@),
            piece_models(final(out)@),
            eval(fuel as nat, expr@, state_model(*state)),
        ),
    decreases fuel, 0int,
{
    if fuel == 0 {
        proof {
            assert(piece_models(out@) =~= piece_models(out@) + Seq::<PieceModel>::empty());
        }
        return Option::None;
    }
    let f = fuel - 1;
    match expr {
        Expression::Empty => {
            proof {
                assert(piece_models(out@) =~= piece_models(out@) + Seq::<PieceModel>::empty());
            }
            Option::Some(Result::Ok(Value::Unit))
        },
        Expression::Primitive(p) => {
            proof {
                assert(piece_models(out@) =~= piece_models(out@) + Seq::<PieceModel>::empty());
            }
            match p {
                Primitive::Integer(v) => Option::Some(Result::Ok(Value::Integer(*v))),
                Primitive::String(s) => Option::Some(Result::Ok(Value::String(s.clone()))),
                Primitive::Boolean(b) => Option::Some(Result::Ok(Value::Boolean(*b))),
                Primitive::Placeholder => {
                    let vs: Vec<Value> = Vec::new();
                    proof {
                        assert(value_models(vs@) =~= Seq::<ValueModel>::empty());
                    }
                    Option::Some(
                        Result::Err(
                            Error::InvalidValues(String::from_str("Invalid primitive value"), vs),
                        ),
                    )
                },
            }
        },
        Expression::Group(inner) => evaluate(inner, state, out, f),
        Expression::Sum { left, right } => evaluate_binary(
            BinaryKind::Sum,
            left,
            right,
            state,
            out,
            f,
        ),
        Expression::Product { left, right } => evaluate_binary(
            BinaryKind::Product,
            left,
            right,
            state,
            out,
            f,
        ),
        Expression::Subtract { left, right } => evaluate_binary(
            BinaryKind::Subtract,
            left,
            right,
            state,
            out,
            f,
        ),
        Expression::Divide { left, right } => evaluate_binary(
            BinaryKind::Divide,
            left,
            right,
            state,
            out,
            f,
        ),
        Expression::Compare { left, operand, right } => evaluate_binary(
            BinaryKind::Compare(*operand),
            left,
            right,
            state,
            out,
            f,
        ),
        Expression::If { condition, then_branch, else_branch } => evaluate_if(
            condition,
            then_branch,
            else_branch,
            state,
            out,
            f,
        ),
        Expression::Let { variables, scope } => evaluate_let(variables, scope, state, out, f),
        Expression::Use { variable } => evaluate_use(variable, state, out, f),
        Expression::Unary { operand, right } => evaluate_unary(*operand, right, state, out, f),
        Expression::Assign { variable, value } => evaluate_assign(
            variable,
            value,
            state,
            out,
            f,
        ),
        Expression::For { variable, from, to, body } => evaluate_for_construct(
            variable,
            from,
            to,
            body,
            state,
            out,
            f,
        ),
        Expression::Print { expression } => evaluate_print(expression, state, out, f),
        Expression::Chain { left, right } => evaluate_chain(left, right, state, out, f),
        Expression::DeriveState { expression } => evaluate_derive(expression, state, out, f),
    }
}

/// Evaluates the two operands of a two-operand construct, left first, and
/// combines their values as `eval_binary` says.
fn evaluate_binary(
    kind: BinaryKind,
    left: &Expression,
    right: &Expression,
    state: &Option<Environment>,
    out: &mut Vec<TextPiece>,
    fuel: u64,
) -> (r: Option<Result<Value, Error>>)
    ensures
        matches_eval(
            r,
            piece_models(old(out)@),
            piece_models(final(out)@),
            eval_binary(fuel as nat, kind, left@, right@, state_model(*state)),
        ),
    decreases fuel, 1int,
{
    let ghost sm = state_model(*state);
    let ghost slr = eval(fuel as nat, left@, sm);
    let lr = evaluate(left, state, out, fuel);
    let lv = match lr {
        Option::None => {
            return Option::None;
        },
        Option::Some(Result::Err(e)) => {
            return Option::Some(Result::Err(e));
        },
        Option::Some(Result::Ok(v)) => v,
    };
    let ghost srr = eval(fuel as nat, right@, sm);
    let rr = evaluate(right, state, out, fuel);
    proof {
        assert(piece_models(out@) =~= piece_models(old(out)@) + (slr.out + srr.out));
    }
    let rv = match rr {
        Option::None => {
            return Option::None;
        },
        Option::Some(Result::Err(e)) => {
            return Option::Some(Result::Err(e));
        },
        Option::Some(Result::Ok(v)) => v,
    };
    match (lv, rv) {
        (Value::Integer(a), Value::Integer(b)) => match kind {
            BinaryKind::Sum => Option::Some(Result::Ok(Value::Integer(a.wrapping_add(b)))),
            BinaryKind::Product => Option::Some(Result::Ok(Value::Integer(a.wrapping_mul(b)))),
            BinaryKind::Subtract => Option::Some(Result::Ok(Value::Integer(a.wrapping_sub(b)))),
            BinaryKind::Divide => {
                if b == 0 {
                    let mut vs: Vec<Value> = Vec::new();
                    vs.push(Value::Integer(b));
                    proof {
                        assert(value_models(vs@) =~= seq![ValueModel::Integer(b)]);
                    }
                    Option::Some(
                        Result::Err(
                            Error::InvalidValues(String::from_str("Division with 0"), vs),
                        ),
                    )
                } else {
                    Option::Some(Result::Ok(Value::Float { dividend: a, divisor: b }))
                }
            },
            BinaryKind::Compare(op) => match op {
                Operand::Equals => Option::Some(Result::Ok(Value::Boolean(a == b))),
                Operand::LessThan => Option::Some(Result::Ok(Value::Boolean(a < b))),
                Operand::GreaterThan => Option::Some(Result::Ok(Value::Boolean(a > b))),
                _ => Option::Some(Result::Err(Error::InvalidOperand(op))),
            },
        },
        (x, y) => {
            let ghost xm = x@;
            let ghost ym = y@;
            let mut vs: Vec<Value> = Vec::new();
            vs.push(x);
            vs.push(y);
            proof {
                assert(value_models(vs@) =~= seq![xm, ym]);
            }
            Option::Some(Result::Err(Error::InvalidValues(binary_label_text(kind), vs)))
        },
    }
}

/// Evaluates an `If`, as `eval_if` says.
fn evaluate_if(
    condition: &Expression,
    then_branch: &Expression,
    else_branch: &Expression,
    state: &Option<Environment>,
    out: &mut Vec<TextPiece>,
    fuel: u64,
) -> (r: Option<Result<Value, Error>>)
    ensures
        matches_eval(
            r,
            piece_models(old(out)@),
            piece_models(final(out)@),
            eval_if(fuel as nat, condition@, then_branch@, else_branch@, state_model(*state)),
        ),
    decreases fuel, 1int,
{
    let ghost sm = state_model(*state);
    let ghost sc = eval(fuel as nat, condition@, sm);
    let c = evaluate(condition, state, out, fuel);
    match c {
        Option::None => Option::None,
        Option::Some(Result::Err(e)) => Option::Some(Result::Err(e)),
        Option::Some(Result::Ok(cv)) => match cv {
            Value::Boolean(b) => {
                let ghost sb = if b {
                    eval(fuel as nat, then_branch@, sm)
                } else {
                    eval(fuel as nat, else_branch@, sm)
                };
                let br = if b {
                    evaluate(then_branch, state, out, fuel)
                } else {
                    evaluate(else_branch, state, out, fuel)
                };
                proof {
                    assert(piece_models(out@) =~= piece_models(old(out)@) + (sc.out + sb.out));
                }
                br
            },
            other => {
                let ghost ov = other@;
                let mut vs: Vec<Value> = Vec::new();
                vs.push(other);
                proof {
                    assert(value_models(vs@) =~= seq![ov]);
                }
                Option::Some(Result::Err(Error::InvalidValues(String::from_str("If"), vs)))
            },
        },
    }
}

/// Evaluates a `Let`, as `eval_let` says.
fn evaluate_let(
    variables: &Vec<(String, crate::expression::ExpressionRef)>,
    scope: &Expression,
    state: &Option<Environment>,
    out: &mut Vec<TextPiece>,
    fuel: u64,
) -> (r: Option<Result<Value, Error>>)
    ensures
        matches_eval(
            r,
            piece_models(old(out)@),
            piece_models(final(out)@),
            eval_let(
                fuel as nat,
                crate::expression::binding_models(variables@),
                scope@,
                state_model(*state),
            ),
        ),
    decreases fuel, 1int,
{
    let mut base = match state {
        Option::Some(env) => env.duplicate(),
        Option::None => Environment::new(),
    };
    let ghost m0 = base@;
    let ghost bm = crate::expression::binding_models(variables@);
    proof {
        crate::expression::lemma_binding_models(variables@);
    }
    let mut i: usize = 0;
    while i < variables.len()
        invariant
            i <= variables@.len(),
            bm == crate::expression::binding_models(variables@),
            bm.len() == variables@.len(),
            forall|k: int|
                0 <= k < variables@.len() ==> #[trigger] bm[k] == (
                    variables@[k].0@,
                    expr_model(*variables@[k].1),
                ),
            base@ == env_extend(m0, bm.subrange(0, i as int)),
        decreases variables@.len() - i,
    {
        let name = variables[i].0.clone();
        let val = variables[i].1.duplicate();
        base.insert(name, val);
        proof {
            lemma_env_extend_push(m0, bm.subrange(0, i as int), bm[i as int]);
            assert(bm.subrange(0, i as int).push(bm[i as int]) =~= bm.subrange(
                0,
                i as int + 1,
            ));
        }
        i = i + 1;
    }
    proof {
        assert(bm.subrange(0, bm.len() as int) =~= bm);
    }
    let new_state = Option::Some(base);
    evaluate(scope, &new_state, out, fuel)
}

/// Evaluates a `Use`, as `eval_use` says.
fn evaluate_use(
    variable: &String,
    state: &Option<Environment>,
    out: &mut Vec<TextPiece>,
    fuel: u64,
) -> (r: Option<Result<Value, Error>>)
    ensures
        matches_eval(
            r,
            piece_models(old(out)@),
            piece_models(final(out)@),
            eval_use(fuel as nat, variable@, state_model(*state)),
        ),
    decreases fuel, 1int,
{
    match state {
        Option::None => {
            proof {
                assert(piece_models(out@) =~= piece_models(out@) + Seq::<PieceModel>::empty());
            }
            Option::Some(Result::Err(Error::UndefinedVariable(variable.clone())))
        },
        Option::Some(env) => match env.get(variable) {
            Option::None => {
                proof {
                    assert(piece_models(out@) =~= piece_models(out@)
                        + Seq::<PieceModel>::empty());
                }
                Option::Some(Result::Err(Error::UndefinedVariable(variable.clone())))
            },
            Option::Some(stored) => {
                let dup = stored.duplicate();
                evaluate(&dup, state, out, fuel)
            },
        },
    }
}

/// Evaluates a unary construct, as `eval_unary_construct` says.
fn evaluate_unary(
    operand: Operand,
    right: &Expression,
    state: &Option<Environment>,
    out: &mut Vec<TextPiece>,
    fuel: u64,
) -> (r: Option<Result<Value, Error>>)
    ensures
        matches_eval(
            r,
            piece_models(old(out)@),
            piece_models(final(out)@),
            eval_unary_construct(fuel as nat, operand, right@, state_model(*state)),
        ),
    decreases fuel, 1int,
{
    let rr = evaluate(right, state, out, fuel);
    match rr {
        Option::None => Option::None,
        Option::Some(Result::Err(e)) => Option::Some(Result::Err(e)),
        Option::Some(Result::Ok(v)) => match v {
            Value::Integer(x) => match operand {
                Operand::Negate => Option::Some(Result::Ok(Value::Integer(0i32.wrapping_sub(x)))),
                Operand::Not => Option::Some(Result::Ok(Value::Boolean(x == 0))),
                _ => Option::Some(Result::Err(Error::InvalidOperand(operand))),
            },
            Value::Boolean(b) => match operand {
                Operand::Not => Option::Some(Result::Ok(Value::Boolean(!b))),
                _ => Option::Some(Result::Err(Error::InvalidOperand(operand))),
            },
            other => {
                let ghost ov = other@;
                let mut vs: Vec<Value> = Vec::new();
                vs.push(other);
                proof {
                    assert(value_models(vs@) =~= seq![ov]);
                }
                Option::Some(Result::Err(Error::InvalidValues(String::from_str("Unary"), vs)))
            },
        },
    }
}

/// Evaluates an `Assign`, as `eval_assign` says.
fn evaluate_assign(
    variable: &String,
    value: &Expression,
    state: &Option<Environment>,
    out: &mut Vec<TextPiece>,
    fuel: u64,
) -> (r: Option<Result<Value, Error>>)
    ensures
        matches_eval(
            r,
            piece_models(old(out)@),
            piece_models(final(out)@),
            eval_assign(fuel as nat, variable@, value@, state_model(*state)),
        ),
    decreases fuel, 1int,
{
    match state {
        Option::None => {
            proof {
                assert(piece_models(out@) =~= piece_models(out@) + Seq::<PieceModel>::empty());
            }
            Option::Some(Result::Err(Error::UndefinedVariable(variable.clone())))
        },
        Option::Some(env) => {
            let vr = evaluate(value, state, out, fuel);
            match vr {
                Option::None => Option::None,
                Option::Some(Result::Err(e)) => Option::Some(Result::Err(e)),
                Option::Some(Result::Ok(v)) => match v {
                    Value::Integer(n) => {
                        let mut m2 = env.duplicate();
                        m2.insert(variable.clone(), Expression::Primitive(Primitive::Integer(n)));
                        Option::Some(Result::Ok(Value::State(Option::Some(m2))))
                    },
                    Value::String(s) => {
                        let mut m2 = env.duplicate();
                        m2.insert(variable.clone(), Expression::Primitive(Primitive::String(s)));
                        Option::Some(Result::Ok(Value::State(Option::Some(m2))))
                    },
                    Value::Boolean(b) => {
                        let mut m2 = env.duplicate();
                        m2.insert(variable.clone(), Expression::Primitive(Primitive::Boolean(b)));
                        Option::Some(Result::Ok(Value::State(Option::Some(m2))))
                    },
                    other => {
                        let ghost ov = other@;
                        let mut vs: Vec<Value> = Vec::new();
                        vs.push(other);
                        proof {
                            assert(value_models(vs@) =~= seq![ov]);
                        }
                        Option::Some(
                            Result::Err(Error::InvalidValues(String::from_str("Assign"), vs)),
                        )
                    },
                },
            }
        },
    }
}

/// Evaluates a `For`, as `eval_for_construct` says.
fn evaluate_for_construct(
    variable: &String,
    from: &Expression,
    to: &Expression,
    body: &Expression,
    state: &Option<Environment>,
    out: &mut Vec<TextPiece>,
    fuel: u64,
) -> (r: Option<Result<Value, Error>>)
    ensures
        matches_eval(
            r,
            piece_models(old(out)@),
            piece_models(final(out)@),
            eval_for_construct(
                fuel as nat,
                variable@,
                from@,
                to@,
                body@,
                state_model(*state),
            ),
        ),
    decreases fuel, 1int,
{
    let ghost sm = state_model(*state);
    let ghost sfr = eval(fuel as nat, from@, sm);
    let fr = evaluate(from, state, out, fuel);
    match fr {
        Option::None => Option::None,
        Option::Some(Result::Err(e)) => Option::Some(Result::Err(e)),
        Option::Some(Result::Ok(fv)) => {
            let ghost stm = eval(fuel as nat, to@, sm);
            let tr = evaluate(to, state, out, fuel);
            proof {
                assert(piece_models(out@) =~= piece_models(old(out)@) + (sfr.out + stm.out));
            }
            match tr {
                Option::None => Option::None,
                Option::Some(Result::Err(e)) => Option::Some(Result::Err(e)),
                Option::Some(Result::Ok(tv)) => match (fv, tv) {
                    (Value::Integer(a), Value::Integer(b)) => {
                        let outer_some = state.is_some();
                        let carry = duplicate_state(state);
                        let ghost slr = eval_for(
                            fuel as nat,
                            variable@,
                            a as int,
                            b as int,
                            body@,
                            outer_some,
                            state_model(carry),
                        );
                        let lr = evaluate_for(variable, a, b, body, outer_some, carry, out, fuel);
                        proof {
                            assert(piece_models(out@) =~= piece_models(old(out)@) + (sfr.out
                                + stm.out + slr.out));
                        }
                        lr
                    },
                    (x, y) => {
                        let ghost xm = x@;
                        let ghost ym = y@;
                        let mut vs: Vec<Value> = Vec::new();
                        vs.push(x);
                        vs.push(y);
                        proof {
                            assert(value_models(vs@) =~= seq![xm, ym]);
                        }
                        Option::Some(
                            Result::Err(
                                Error::InvalidValues(
                                    String::from_str("For => bad [from..to]"),
                                    vs,
                                ),
                            ),
                        )
                    },
                },
            }
        },
    }
}

/// Runs the loop of a `For` from `i` to `to` inclusive, as `eval_for`
/// says.
fn evaluate_for(
    variable: &String,
    i: i32,
    to: i32,
    body: &Expression,
    outer_some: bool,
    carry: Option<Environment>,
    out: &mut Vec<TextPiece>,
    fuel: u64,
) -> (r: Option<Result<Value, Error>>)
    ensures
        matches_eval(
            r,
            piece_models(old(out)@),
            piece_models(final(out)@),
            eval_for(
                fuel as nat,
                variable@,
                i as int,
                to as int,
                body@,
                outer_some,
                state_model(carry),
            ),
        ),
    decreases fuel, 0int,
{
    if i > to {
        proof {
            assert(piece_models(out@) =~= piece_models(out@) + Seq::<PieceModel>::empty());
        }
        return Option::Some(Result::Ok(Value::Unit));
    }
    if fuel == 0 {
        proof {
            assert(piece_models(out@) =~= piece_models(out@) + Seq::<PieceModel>::empty());
        }
        return Option::None;
    }
    let f = fuel - 1;
    let cur = Expression::Primitive(Primitive::Integer(i));
    if outer_some && carry.is_some() {
        let prev = carry.unwrap();
        let mut m2 = prev.duplicate();
        m2.insert(variable.clone(), cur);
        let body_state = Option::Some(m2);
        let ghost sbr = eval(f as nat, body@, state_model(body_state));
        let br = evaluate(body, &body_state, out, f);
        match br {
            Option::None => Option::None,
            Option::Some(Result::Err(e)) => Option::Some(Result::Err(e)),
            Option::Some(Result::Ok(bv)) => {
                let next: Option<Environment> = match bv {
                    Value::State(nv) => nv,
                    _ => Option::Some(prev),
                };
                let ghost srest = eval_for(
                    f as nat,
                    variable@,
                    i as int + 1,
                    to as int,
                    body@,
                    outer_some,
                    state_model(next),
                );
                let rest = if i == to {
                    proof {
                        assert(piece_models(out@) =~= piece_models(out@)
                            + Seq::<PieceModel>::empty());
                    }
                    Option::Some(Result::Ok(Value::Unit))
                } else {
                    evaluate_for(variable, i + 1, to, body, outer_some, next, out, f)
                };
                proof {
                    assert(piece_models(out@) =~= piece_models(old(out)@) + (sbr.out
                        + srest.out));
                }
                rest
            },
        }
    } else {
        let mut m2 = Environment::new();
        m2.insert(variable.clone(), cur);
        let body_state = Option::Some(m2);
        let ghost sbr = eval(f as nat, body@, state_model(body_state));
        let br = evaluate(body, &body_state, out, f);
        match br {
            Option::None => Option::None,
            Option::Some(Result::Err(e)) => Option::Some(Result::Err(e)),
            Option::Some(Result::Ok(_)) => {
                let ghost srest = eval_for(
                    f as nat,
                    variable@,
                    i as int + 1,
                    to as int,
                    body@,
                    outer_some,
                    state_model(carry),
                );
                let rest = if i == to {
                    proof {
                        assert(piece_models(out@) =~= piece_models(out@)
                            + Seq::<PieceModel>::empty());
                    }
                    Option::Some(Result::Ok(Value::Unit))
                } else {
                    evaluate_for(variable, i + 1, to, body, outer_some, carry, out, f)
                };
                proof {
                    assert(piece_models(out@) =~= piece_models(old(out)@) + (sbr.out
                        + srest.out));
                }
                rest
            },
        }
    }
}

/// Evaluates a `Print`, as `eval_print` says.
fn evaluate_print(
    expression: &Expression,
    state: &Option<Environment>,
    out: &mut Vec<TextPiece>,
    fuel: u64,
) -> (r: Option<Result<Value, Error>>)
    ensures
        matches_eval(
            r,
            piece_models(old(out)@),
            piece_models(final(out)@),
            eval_print(fuel as nat, expression@, state_model(*state)),
        ),
    decreases fuel, 1int,
{
    let ghost sm = state_model(*state);
    let ghost spr = eval(fuel as nat, expression@, sm);
    let pr = evaluate(expression, state, out, fuel);
    match pr {
        Option::None => Option::None,
        Option::Some(Result::Err(e)) => Option::Some(Result::Err(e)),
        Option::Some(Result::Ok(v)) => match v {
            Value::State(opt) => match opt {
                Option::Some(m) => {
                    let ghost slr = eval_listing(fuel as nat, m@, sm);
                    let mut text: Vec<TextPiece> = Vec::new();
                    proof {
                        assert(m@.skip(0) =~= m@);
                    }
                    let lr = evaluate_listing(&m, 0, state, &mut text, out, fuel);
                    match lr {
                        Option::None => {
                            proof {
                                assert(piece_models(out@) =~= piece_models(old(out)@) + (
                                spr.out + slr.out));
                            }
                            Option::None
                        },
                        Option::Some(Result::Err(e)) => {
                            proof {
                                assert(piece_models(out@) =~= piece_models(old(out)@) + (
                                spr.out + slr.out));
                            }
                            Option::Some(Result::Err(e))
                        },
                        Option::Some(Result::Ok(_)) => {
                            let ghost tm = piece_models(text@);
                            let ghost out_mid = out@;
                            let ghost text_now = text@;
                            out.append(&mut text);
                            let ghost out_app = out@;
                            out.push(TextPiece::Newline);
                            proof {
                                lemma_piece_models_concat(out_mid, text_now);
                                crate::values::lemma_piece_models_push(
                                    out_app,
                                    TextPiece::Newline,
                                );
                                assert(piece_models(Seq::<TextPiece>::empty())
                                    =~= Seq::<PieceModel>::empty());
                                assert(tm == slr.res->Rendered_0);
                                assert(piece_models(out@) =~= piece_models(old(out)@) + (
                                spr.out + slr.out + tm + seq![PieceModel::Newline]));
                            }
                            Option::Some(Result::Ok(Value::Unit))
                        },
                    }
                },
                Option::None => {
                    let ghost out_mid = out@;
                    out.push(TextPiece::Newline);
                    proof {
                        crate::values::lemma_piece_models_push(out_mid, TextPiece::Newline);
                        assert(piece_models(out@) =~= piece_models(old(out)@) + (spr.out
                            + seq![PieceModel::Newline]));
                    }
                    Option::Some(Result::Ok(Value::Unit))
                },
            },
            other => {
                let ghost ov = other@;
                push_value_pieces(&other, out);
                let ghost out_mid = out@;
                out.push(TextPiece::Newline);
                proof {
                    crate::values::lemma_piece_models_push(out_mid, TextPiece::Newline);
                    assert(piece_models(out@) =~= piece_models(old(out)@) + (spr.out
                        + value_pieces(ov) + seq![PieceModel::Newline]));
                }
                Option::Some(Result::Ok(Value::Unit))
            },
        },
    }
}

/// Evaluates a `Chain`, as `eval_chain` says.
fn evaluate_chain(
    left: &Expression,
    right: &Expression,
    state: &Option<Environment>,
    out: &mut Vec<TextPiece>,
    fuel: u64,
) -> (r: Option<Result<Value, Error>>)
    ensures
        matches_eval(
            r,
            piece_models(old(out)@),
            piece_models(final(out)@),
            eval_chain(fuel as nat, left@, right@, state_model(*state)),
        ),
    decreases fuel, 1int,
{
    let ghost sm = state_model(*state);
    let ghost slr = eval(fuel as nat, left@, sm);
    let lr = evaluate(left, state, out, fuel);
    match lr {
        Option::None => Option::None,
        Option::Some(Result::Err(e)) => Option::Some(Result::Err(e)),
        Option::Some(Result::Ok(lv)) => match lv {
            Value::State(s) => {
                let ghost srr = eval(fuel as nat, right@, state_model(s));
                let rr = evaluate(right, &s, out, fuel);
                proof {
                    assert(piece_models(out@) =~= piece_models(old(out)@) + (slr.out + srr.out));
                }
                rr
            },
            _ => {
                let ghost srr = eval(fuel as nat, right@, sm);
                let rr = evaluate(right, state, out, fuel);
                proof {
                    assert(piece_models(out@) =~= piece_models(old(out)@) + (slr.out + srr.out));
                }
                rr
            },
        },
    }
}

/// Evaluates a `DeriveState`, as `eval_derive` says.
fn evaluate_derive(
    expression: &Expression,
    state: &Option<Environment>,
    out: &mut Vec<TextPiece>,
    fuel: u64,
) -> (r: Option<Result<Value, Error>>)
    ensures
        matches_eval(
            r,
            piece_models(old(out)@),
            piece_models(final(out)@),
            eval_derive(fuel as nat, expression@, state_model(*state)),
        ),
    decreases fuel, 1int,
{
    let rr = evaluate(expression, state, out, fuel);
    match rr {
        Option::None => Option::None,
        Option::Some(Result::Err(e)) => Option::Some(Result::Err(e)),
        Option::Some(Result::Ok(_)) => Option::Some(
            Result::Ok(Value::State(duplicate_state(state))),
        ),
    }
}

/// Renders the listing of a state's bindings from position `idx` on, as
/// `eval_listing` says: the lines go to `text`, and whatever the
/// re-evaluation of the bindings prints goes to `out`.
fn evaluate_listing(
    entries: &Environment,
    idx: usize,
    state: &Option<Environment>,
    text: &mut Vec<TextPiece>,
    out: &mut Vec<TextPiece>,
    fuel: u64,
) -> (r: Option<Result<(), Error>>)
    requires
        idx <= entries@.len(),
    ensures
        ({
            let s = eval_listing(fuel as nat, entries@.skip(idx as int), state_model(*state));
            &&& piece_models(final(out)@) == piece_models(old(out)@) + s.out
            &&& match r {
                Option::None => s.res is OutOfFuel,
                Option::Some(q) => match q {
                    Result::Ok(_) => s.res is Rendered && piece_models(final(text)@)
                        == piece_models(old(text)@) + s.res->Rendered_0,
                    Result::Err(e) => s.res == ListingOutcome::Failed(e@),
                },
            }
        }),
    decreases fuel, 0int,
{
    let ghost rest_entries = entries@.skip(idx as int);
    if fuel == 0 {
        proof {
            assert(piece_models(out@) =~= piece_models(out@) + Seq::<PieceModel>::empty());
        }
        return Option::None;
    }
    let f = fuel - 1;
    if idx >= entries.len() {
        proof {
            assert(rest_entries =~= Seq::<(Seq<char>, ExprModel)>::empty());
            assert(piece_models(out@) =~= piece_models(out@) + Seq::<PieceModel>::empty());
            assert(piece_models(text@) =~= piece_models(text@) + Seq::<PieceModel>::empty());
        }
        return Option::Some(Result::Ok(()));
    }
    let entry = entries.entry_at(idx);
    let dup = entry.1.duplicate();
    proof {
        assert(rest_entries[0] == entries@[idx as int]);
    }
    let ghost sbr = eval(f as nat, dup@, state_model(*state));
    let br = evaluate(&dup, state, out, f);
    match br {
        Option::None => Option::None,
        Option::Some(Result::Err(e)) => Option::Some(Result::Err(e)),
        Option::Some(Result::Ok(v)) => {
            let ghost t0 = piece_models(text@);
            let ghost vm = v@;
            let ghost line = seq![PieceModel::Lit(rest_entries[0].0 + " = "@)] + value_pieces(vm)
                + seq![PieceModel::Lit("\n"@)];
            let mut label = entry.0.clone();
            label.append(" = ");
            let ghost lm = label@;
            text.push(TextPiece::Lit(label));
            proof {
                assert(lm == rest_entries[0].0 + " = "@);
                assert(piece_models(text@) =~= t0 + seq![PieceModel::Lit(lm)]);
            }
            push_value_pieces(&v, text);
            let ghost t2 = piece_models(text@);
            text.push(TextPiece::Lit(String::from_str("\n")));
            proof {
                assert(piece_models(text@) =~= t2 + seq![PieceModel::Lit("\n"@)]);
                assert(piece_models(text@) =~= t0 + line);
            }
            let ghost srest = eval_listing(
                f as nat,
                entries@.skip(idx as int + 1),
                state_model(*state),
            );
            let rest = evaluate_listing(entries, idx + 1, state, text, out, f);
            proof {
                assert(rest_entries.drop_first() =~= entries@.skip(idx as int + 1));
                assert(piece_models(out@) =~= piece_models(old(out)@) + (sbr.out + srest.out));
            }
            match rest {
                Option::None => Option::None,
                Option::Some(Result::Err(e)) => Option::Some(Result::Err(e)),
                Option::Some(Result::Ok(_)) => {
                    proof {
                        if srest.res is Rendered {
                            assert(piece_models(text@) =~= piece_models(old(text)@) + (line
                                + srest.res->Rendered_0));
                        }
                    }
                    Option::Some(Result::Ok(()))
                },
            }
        },
    }
}

} // verus!

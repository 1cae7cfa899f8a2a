//! The laws of the pipeline: properties that hold of translation and
//! evaluation as a whole, stated over the same models that the executable
//! functions are proved against.

use vstd::prelude::*;

use crate::environment::{env_lookup, env_update, lemma_env_lookup_after_update, EnvModel};
use crate::evaluation::{
    eval, eval_for, EvalModel, EvalOutcome,
};
use crate::expression::{splice, ExprModel, PrimitiveModel};
use crate::numbers::{dec_str, lemma_parse_dec_str};
use crate::token::{TokenModel, TokenType};
use crate::translator::{
    lemma_find_kind_at, translate_program, translate_tokens, ParseOutcome,
};
use crate::values::{PieceModel, ValueModel};

verus! {

/// Round trip: a `Print` over the decimal text of any integer translates
/// to `Print` of that integer's literal, and evaluating it writes exactly
/// that decimal text as one line, against any environment.
pub proof fn lemma_print_integer_round_trip(
    toks: Seq<TokenModel>,
    n: i32,
    env: Option<EnvModel>,
    fuel: nat,
)
    requires
        toks.len() == 2,
        toks[0].kind == TokenType::Print,
        toks[1].kind == TokenType::Number,
        toks[1].lexeme == dec_str(n as int),
        fuel >= 3,
    ensures
        translate_program(toks) == ParseOutcome::Parsed(
            ExprModel::Print {
                expression: Box::new(ExprModel::Primitive(PrimitiveModel::Integer(n))),
            },
        ),
        eval(
            fuel,
            ExprModel::Print {
                expression: Box::new(ExprModel::Primitive(PrimitiveModel::Integer(n))),
            },
            env,
        ) == (EvalModel {
            res: EvalOutcome::Value(ValueModel::Unit),
            out: seq![PieceModel::Lit(dec_str(n as int)), PieceModel::Newline],
        }),
{
    reveal_with_fuel(translate_tokens, 2);
    reveal_with_fuel(crate::translator::translate_then_splice, 2);
    reveal_with_fuel(splice, 2);
    lemma_parse_dec_str(n);
    lemma_find_kind_at(toks, 1, TokenType::EOL, 2);
    let number = toks.subrange(1, 2);
    assert(number =~= seq![toks[1]]);
    let empty = Seq::<TokenModel>::empty();
    assert(number.subrange(1, 1) =~= empty);
    assert(toks.subrange(2, 2) =~= empty);
    assert(translate_tokens(empty) == ParseOutcome::Parsed(
        ExprModel::Primitive(PrimitiveModel::Placeholder),
    ));
    let lit = ExprModel::Primitive(PrimitiveModel::Integer(n));
    assert(splice(lit, ExprModel::Primitive(PrimitiveModel::Placeholder)) == lit);
    assert(translate_tokens(number) == ParseOutcome::Parsed(lit));
    let head = ExprModel::Print { expression: Box::new(lit) };
    assert(splice(head, ExprModel::Primitive(PrimitiveModel::Placeholder)) == head);
    assert(translate_tokens(toks) == ParseOutcome::Parsed(head));
    assert(splice(head, ExprModel::Empty) == head);
    let f1 = (fuel - 1) as nat;
    assert(eval(fuel, head, env) == crate::evaluation::eval_print(f1, lit, env));
    let inner = eval(f1, lit, env);
    assert(inner == (EvalModel {
        res: EvalOutcome::Value(ValueModel::Integer(n)),
        out: Seq::<PieceModel>::empty(),
    }));
    assert(crate::evaluation::eval_print(f1, lit, env).out =~= seq![
        PieceModel::Lit(dec_str(n as int)),
        PieceModel::Newline,
    ]);
    assert(eval(fuel, head, env).out =~= seq![
        PieceModel::Lit(dec_str(n as int)),
        PieceModel::Newline,
    ]);
}

/// Arithmetic: dividing one integer literal by another yields the exact
/// quotient as a `Float`, never an integer; dividing by zero fails with
/// the division-by-zero error.
pub proof fn lemma_divide_exact_quotient(a: i32, b: i32, env: Option<EnvModel>, fuel: nat)
    requires
        fuel >= 3,
    ensures
        ({
            let e = ExprModel::Divide {
                left: Box::new(ExprModel::Primitive(PrimitiveModel::Integer(a))),
                right: Box::new(ExprModel::Primitive(PrimitiveModel::Integer(b))),
            };
            &&& b != 0 ==> eval(fuel, e, env).res == EvalOutcome::Value(
                ValueModel::Float { dividend: a, divisor: b },
            )
            &&& b == 0 ==> eval(fuel, e, env).res == EvalOutcome::Failed(
                crate::values::ErrorModel::InvalidValues(
                    "Division with 0"@,
                    seq![ValueModel::Integer(0)],
                ),
            )
        }),
{
    reveal_with_fuel(eval, 3);
    reveal_with_fuel(crate::evaluation::eval_binary, 2);
}

/// Operand order: tokens shaped `- a b` build `Subtract` with `b` on the
/// left and `a` on the right — encounter order reversed — so they
/// evaluate to `b - a`, not `a - b`.
#[verifier::rlimit(100)]
pub proof fn lemma_subtract_reversed_order(
    toks: Seq<TokenModel>,
    a: i32,
    b: i32,
    env: Option<EnvModel>,
    fuel: nat,
)
    requires
        toks.len() == 3,
        toks[0].kind == TokenType::Minus,
        toks[1].kind == TokenType::Number,
        toks[2].kind == TokenType::Number,
        toks[1].lexeme == dec_str(a as int),
        toks[2].lexeme == dec_str(b as int),
        fuel >= 3,
    ensures
        translate_program(toks) == ParseOutcome::Parsed(
            ExprModel::Subtract {
                left: Box::new(ExprModel::Primitive(PrimitiveModel::Integer(b))),
                right: Box::new(ExprModel::Primitive(PrimitiveModel::Integer(a))),
            },
        ),
        eval(
            fuel,
            ExprModel::Subtract {
                left: Box::new(ExprModel::Primitive(PrimitiveModel::Integer(b))),
                right: Box::new(ExprModel::Primitive(PrimitiveModel::Integer(a))),
            },
            env,
        ).res == EvalOutcome::Value(ValueModel::Integer(b.wrapping_sub(a))),
{
    let lit_a = ExprModel::Primitive(PrimitiveModel::Integer(a));
    let lit_b = ExprModel::Primitive(PrimitiveModel::Integer(b));
    let head = ExprModel::Subtract { left: Box::new(lit_b), right: Box::new(lit_a) };
    lemma_parse_dec_str(a);
    lemma_parse_dec_str(b);
    let empty = Seq::<TokenModel>::empty();
    let one_a = seq![toks[1]];
    let one_b = seq![toks[2]];
    assert(one_a.subrange(1, 1) =~= empty);
    assert(one_b.subrange(1, 1) =~= empty);
    assert(toks.subrange(3, 3) =~= empty);
    let ph = ExprModel::Primitive(PrimitiveModel::Placeholder);
    assert(translate_tokens(empty) == ParseOutcome::Parsed(ph));
    assert(splice(lit_a, ph) == lit_a);
    assert(splice(lit_b, ph) == lit_b);
    assert(splice(lit_a, ExprModel::Empty) == lit_a);
    assert(splice(lit_b, ExprModel::Empty) == lit_b);
    assert(translate_tokens(one_a) == crate::translator::translate_then_splice(
        lit_a,
        one_a.subrange(1, 1),
    ));
    assert(crate::translator::translate_then_splice(lit_a, empty) == ParseOutcome::Parsed(lit_a));
    assert(translate_tokens(one_b) == crate::translator::translate_then_splice(
        lit_b,
        one_b.subrange(1, 1),
    ));
    assert(crate::translator::translate_then_splice(lit_b, empty) == ParseOutcome::Parsed(lit_b));
    assert(translate_tokens(toks) == crate::translator::translate_reversed_pair(
        toks,
        crate::translator::BinaryShape::Subtract,
    ));
    assert(splice(head, ph) == head);
    assert(splice(head, ExprModel::Empty) == head);
    assert(crate::translator::translate_reversed_pair(
        toks,
        crate::translator::BinaryShape::Subtract,
    ) == crate::translator::translate_then_splice(head, toks.subrange(3, 3)));
    assert(crate::translator::translate_then_splice(head, empty) == ParseOutcome::Parsed(head));
    assert(translate_tokens(toks) == ParseOutcome::Parsed(head));
    let f1 = (fuel - 1) as nat;
    assert(eval(fuel, head, env) == crate::evaluation::eval_binary(
        f1,
        crate::evaluation::BinaryKind::Subtract,
        lit_b,
        lit_a,
        env,
    ));
    assert(eval(f1, lit_b, env).res == EvalOutcome::Value(ValueModel::Integer(b)));
    assert(eval(f1, lit_a, env).res == EvalOutcome::Value(ValueModel::Integer(a)));
    assert(crate::evaluation::eval_binary(
        f1,
        crate::evaluation::BinaryKind::Subtract,
        lit_b,
        lit_a,
        env,
    ).res == EvalOutcome::Value(ValueModel::Integer(b.wrapping_sub(a))));
}

/// Environment persistence: a `Let` of a name to an integer literal makes
/// a `Use` of that name in its scope come to that integer, whatever
/// environment surrounds it.
pub proof fn lemma_let_then_use(
    name: Seq<char>,
    n: i32,
    env: Option<EnvModel>,
    fuel: nat,
)
    requires
        fuel >= 3,
    ensures
        eval(
            fuel,
            ExprModel::Let {
                variables: seq![(name, ExprModel::Primitive(PrimitiveModel::Integer(n)))],
                scope: Box::new(ExprModel::Use { variable: name }),
            },
            env,
        ).res == EvalOutcome::Value(ValueModel::Integer(n)),
{
    let lit = ExprModel::Primitive(PrimitiveModel::Integer(n));
    let base = match env {
        Option::Some(m) => m,
        Option::None => Seq::<(Seq<char>, ExprModel)>::empty(),
    };
    let vars = seq![(name, lit)];
    assert(vars.drop_first() =~= Seq::<(Seq<char>, ExprModel)>::empty());
    reveal_with_fuel(crate::evaluation::env_extend, 3);
    assert(crate::evaluation::env_extend(base, vars) == env_update(base, name, lit));
    lemma_env_lookup_after_update(base, name, lit);
    let m2 = env_update(base, name, lit);
    let whole = ExprModel::Let {
        variables: vars,
        scope: Box::new(ExprModel::Use { variable: name }),
    };
    let f1 = (fuel - 1) as nat;
    assert(eval(fuel, whole, env) == crate::evaluation::eval_let(
        f1,
        vars,
        ExprModel::Use { variable: name },
        env,
    ));
    assert(crate::evaluation::eval_let(f1, vars, ExprModel::Use { variable: name }, env) == eval(
        f1,
        ExprModel::Use { variable: name },
        Option::Some(m2),
    ));
    assert(eval(f1, ExprModel::Use { variable: name }, Option::Some(m2))
        == crate::evaluation::eval_use((f1 - 1) as nat, name, Option::Some(m2)));
    assert(crate::evaluation::eval_use((f1 - 1) as nat, name, Option::Some(m2)) == eval(
        (f1 - 1) as nat,
        lit,
        Option::Some(m2),
    ));
    assert(eval((f1 - 1) as nat, lit, Option::Some(m2)).res == EvalOutcome::Value(
        ValueModel::Integer(n),
    ));
}

/// Environment persistence: using a name that no binding carries fails
/// with an undefined-variable error, whether the environment is absent or
/// merely lacks the name.
pub proof fn lemma_use_undefined(name: Seq<char>, env: Option<EnvModel>, fuel: nat)
    requires
        fuel >= 2,
        env is Some ==> env_lookup(env->0, name) is None,
    ensures
        eval(fuel, ExprModel::Use { variable: name }, env).res == EvalOutcome::Failed(
            crate::values::ErrorModel::UndefinedVariable(name),
        ),
{
    reveal_with_fuel(eval, 2);
    reveal_with_fuel(crate::evaluation::eval_use, 2);
}

/// Sequencing: a `Chain` whose left side assigns an integer to a name
/// makes a `Use` of that name on the right side see the assigned value,
/// through the propagated state.
pub proof fn lemma_chain_propagates_state(name: Seq<char>, n: i32, m: EnvModel, fuel: nat)
    requires
        fuel >= 4,
    ensures
        eval(
            fuel,
            ExprModel::Chain {
                left: Box::new(
                    ExprModel::Assign {
                        variable: name,
                        value: Box::new(ExprModel::Primitive(PrimitiveModel::Integer(n))),
                    },
                ),
                right: Box::new(ExprModel::Use { variable: name }),
            },
            Option::Some(m),
        ).res == EvalOutcome::Value(ValueModel::Integer(n)),
{
    let lit = ExprModel::Primitive(PrimitiveModel::Integer(n));
    lemma_env_lookup_after_update(m, name, lit);
    let assign = ExprModel::Assign { variable: name, value: Box::new(lit) };
    let use_e = ExprModel::Use { variable: name };
    let whole = ExprModel::Chain { left: Box::new(assign), right: Box::new(use_e) };
    let f1 = (fuel - 1) as nat;
    let f2 = (f1 - 1) as nat;
    let m2 = env_update(m, name, lit);
    assert(eval(fuel, whole, Option::Some(m)) == crate::evaluation::eval_chain(
        f1,
        assign,
        use_e,
        Option::Some(m),
    ));
    assert(eval(f1, assign, Option::Some(m)) == crate::evaluation::eval_assign(
        f2,
        name,
        lit,
        Option::Some(m),
    ));
    assert(eval(f2, lit, Option::Some(m)).res == EvalOutcome::Value(ValueModel::Integer(n)));
    assert(crate::evaluation::eval_assign(f2, name, lit, Option::Some(m)).res
        == EvalOutcome::Value(ValueModel::State(Option::Some(m2))));
    assert(eval(f1, use_e, Option::Some(m2)) == crate::evaluation::eval_use(
        f2,
        name,
        Option::Some(m2),
    ));
    assert(crate::evaluation::eval_use(f2, name, Option::Some(m2)) == eval(
        f2,
        lit,
        Option::Some(m2),
    ));
    assert(eval(f2, lit, Option::Some(m2)).res == EvalOutcome::Value(ValueModel::Integer(n)));
}

/// Sequencing: a `Chain` whose left side comes to any value other than a
/// state evaluates its right side against the original, unchanged
/// environment.
pub proof fn lemma_chain_keeps_environment(
    l: ExprModel,
    rgt: ExprModel,
    env: Option<EnvModel>,
    fuel: nat,
)
    requires
        fuel >= 1,
        eval((fuel - 1) as nat, l, env).res is Value,
        !(eval((fuel - 1) as nat, l, env).res->Value_0 is State),
    ensures
        eval(fuel, ExprModel::Chain { left: Box::new(l), right: Box::new(rgt) }, env).res == eval(
            (fuel - 1) as nat,
            rgt,
            env,
        ).res,
{
    reveal_with_fuel(eval, 2);
    reveal_with_fuel(crate::evaluation::eval_chain, 2);
}

/// For-loop accumulation: when the body of an iteration comes to a
/// `State` value, that state is the carry-over that the following
/// iterations run against; any other body value leaves the previous
/// carry-over intact.
pub proof fn lemma_for_carry(
    fuel: nat,
    variable: Seq<char>,
    i: int,
    to: int,
    body: ExprModel,
    prev: EnvModel,
)
    requires
        i <= to,
        fuel >= 1,
    ensures
        ({
            let cur = ExprModel::Primitive(PrimitiveModel::Integer(i as i32));
            let br = eval(
                (fuel - 1) as nat,
                body,
                Option::Some(env_update(prev, variable, cur)),
            );
            match br.res {
                EvalOutcome::Value(bv) => match bv {
                    ValueModel::State(nv) => eval_for(
                        fuel,
                        variable,
                        i,
                        to,
                        body,
                        true,
                        Option::Some(prev),
                    ).res == eval_for((fuel - 1) as nat, variable, i + 1, to, body, true, nv).res,
                    _ => eval_for(fuel, variable, i, to, body, true, Option::Some(prev)).res
                        == eval_for(
                        (fuel - 1) as nat,
                        variable,
                        i + 1,
                        to,
                        body,
                        true,
                        Option::Some(prev),
                    ).res,
                },
                _ => eval_for(fuel, variable, i, to, body, true, Option::Some(prev)).res
                    == br.res,
            }
        }),
{
    reveal_with_fuel(eval_for, 2);
}

/// Idempotence: an already-fully-evaluated literal is a no-op to
/// evaluate — it comes to the same value every time, writes nothing, and
/// pays no attention to the environment.
pub proof fn lemma_primitive_idempotent(
    p: PrimitiveModel,
    env1: Option<EnvModel>,
    env2: Option<EnvModel>,
    fuel1: nat,
    fuel2: nat,
)
    requires
        fuel1 >= 1,
        fuel2 >= 1,
        !(p is Placeholder),
    ensures
        eval(fuel1, ExprModel::Primitive(p), env1) == eval(fuel2, ExprModel::Primitive(p), env2),
        eval(fuel1, ExprModel::Primitive(p), env1).res is Value,
        eval(fuel1, ExprModel::Primitive(p), env1).out == Seq::<PieceModel>::empty(),
{
    reveal_with_fuel(eval, 2);
}

} // verus!

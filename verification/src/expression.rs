//! The expression tree: the sum-typed syntax that the translator produces and
//! the evaluator consumes, together with its mathematical model and the
//! placeholder-splicing rewrite.

use vstd::prelude::*;

verus! {

/// A literal leaf of the tree. `Placeholder` is the distinguished leaf that
/// stands for "whatever comes after" during translation; it is resolved by
/// splicing before evaluation.
#[derive(Debug, Clone, PartialEq)]
pub enum Primitive {
    Integer(i32),
    String(String),
    Boolean(bool),
    Placeholder,
}

/// The operator of a comparison or of a unary expression.
#[derive(Debug, Clone, Copy, PartialEq, Eq, Structural)]
pub enum Operand {
    Equals,
    LessThan,
    GreaterThan,
    Not,
    Negate,
}

/// A shared handle on a sub-tree.
pub type ExpressionRef = Box<Expression>;

/// The syntax tree. Every syntactic construct of the language is a variant.
/// Trees are built bottom-up by the translator and never mutated afterwards.
#[derive(Debug, PartialEq)]
pub enum Expression {
    Primitive(Primitive),
    /// A transparent wrapper produced at line boundaries and around spliced
    /// continuations.
    Group(ExpressionRef),
    Sum { left: ExpressionRef, right: ExpressionRef },
    Product { left: ExpressionRef, right: ExpressionRef },
    Divide { left: ExpressionRef, right: ExpressionRef },
    Subtract { left: ExpressionRef, right: ExpressionRef },
    If { condition: ExpressionRef, then_branch: ExpressionRef, else_branch: ExpressionRef },
    Compare { left: ExpressionRef, operand: Operand, right: ExpressionRef },
    Let { variables: Vec<(String, ExpressionRef)>, scope: ExpressionRef },
    Use { variable: String },
    Unary { operand: Operand, right: ExpressionRef },
    Assign { variable: String, value: ExpressionRef },
    For { variable: String, from: ExpressionRef, to: ExpressionRef, body: ExpressionRef },
    Print { expression: ExpressionRef },
    Chain { left: ExpressionRef, right: ExpressionRef },
    DeriveState { expression: ExpressionRef },
    Empty,
}

/// The mathematical image of a `Primitive`.
pub enum PrimitiveModel {
    Integer(i32),
    Str(Seq<char>),
    Boolean(bool),
    Placeholder,
}

/// The mathematical image of an `Expression`: strings are abstracted to
/// character sequences and binding lists to sequences of pairs.
pub enum ExprModel {
    Primitive(PrimitiveModel),
    Group(Box<ExprModel>),
    Sum { left: Box<ExprModel>, right: Box<ExprModel> },
    Product { left: Box<ExprModel>, right: Box<ExprModel> },
    Divide { left: Box<ExprModel>, right: Box<ExprModel> },
    Subtract { left: Box<ExprModel>, right: Box<ExprModel> },
    If { condition: Box<ExprModel>, then_branch: Box<ExprModel>, else_branch: Box<ExprModel> },
    Compare { left: Box<ExprModel>, operand: Operand, right: Box<ExprModel> },
    Let { variables: Seq<(Seq<char>, ExprModel)>, scope: Box<ExprModel> },
    Use { variable: Seq<char> },
    Unary { operand: Operand, right: Box<ExprModel> },
    Assign { variable: Seq<char>, value: Box<ExprModel> },
    For { variable: Seq<char>, from: Box<ExprModel>, to: Box<ExprModel>, body: Box<ExprModel> },
    Print { expression: Box<ExprModel> },
    Chain { left: Box<ExprModel>, right: Box<ExprModel> },
    DeriveState { expression: Box<ExprModel> },
    Empty,
}

impl View for Primitive {
    type V = PrimitiveModel;

    open spec fn view(&self) -> PrimitiveModel {
        match self {
            Primitive::Integer(v) => PrimitiveModel::Integer(*v),
            Primitive::String(s) => PrimitiveModel::Str(s@),
            Primitive::Boolean(b) => PrimitiveModel::Boolean(*b),
            Primitive::Placeholder => PrimitiveModel::Placeholder,
        }
    }
}

/// The model of an expression.
pub open spec fn expr_model(e: Expression) -> ExprModel
    decreases e,
{
    match e {
        Expression::Primitive(p) => ExprModel::Primitive(p@),
        Expression::Group(inner) => ExprModel::Group(Box::new(expr_model(*inner))),
        Expression::Sum { left, right } => ExprModel::Sum {
            left: Box::new(expr_model(*left)),
            right: Box::new(expr_model(*right)),
        },
        Expression::Product { left, right } => ExprModel::Product {
            left: Box::new(expr_model(*left)),
            right: Box::new(expr_model(*right)),
        },
        Expression::Divide { left, right } => ExprModel::Divide {
            left: Box::new(expr_model(*left)),
            right: Box::new(expr_model(*right)),
        },
        Expression::Subtract { left, right } => ExprModel::Subtract {
            left: Box::new(expr_model(*left)),
            right: Box::new(expr_model(*right)),
        },
        Expression::If { condition, then_branch, else_branch } => ExprModel::If {
            condition: Box::new(expr_model(*condition)),
            then_branch: Box::new(expr_model(*then_branch)),
            else_branch: Box::new(expr_model(*else_branch)),
        },
        Expression::Compare { left, operand, right } => ExprModel::Compare {
            left: Box::new(expr_model(*left)),
            operand,
            right: Box::new(expr_model(*right)),
        },
        Expression::Let { variables, scope } => ExprModel::Let {
            variables: binding_models(variables@),
            scope: Box::new(expr_model(*scope)),
        },
        Expression::Use { variable } => ExprModel::Use { variable: variable@ },
        Expression::Unary { operand, right } => ExprModel::Unary {
            operand,
            right: Box::new(expr_model(*right)),
        },
        Expression::Assign { variable, value } => ExprModel::Assign {
            variable: variable@,
            value: Box::new(expr_model(*value)),
        },
        Expression::For { variable, from, to, body } => ExprModel::For {
            variable: variable@,
            from: Box::new(expr_model(*from)),
            to: Box::new(expr_model(*to)),
            body: Box::new(expr_model(*body)),
        },
        Expression::Print { expression } => ExprModel::Print {
            expression: Box::new(expr_model(*expression)),
        },
        Expression::Chain { left, right } => ExprModel::Chain {
            left: Box::new(expr_model(*left)),
            right: Box::new(expr_model(*right)),
        },
        Expression::DeriveState { expression } => ExprModel::DeriveState {
            expression: Box::new(expr_model(*expression)),
        },
        Expression::Empty => ExprModel::Empty,
    }
}

/// The models of a `Let` binding list, in order.
pub open spec fn binding_models(vs: Seq<(String, ExpressionRef)>) -> Seq<(Seq<char>, ExprModel)>
    decreases vs,
{
    if vs.len() == 0 {
        Seq::empty()
    } else {
        seq![(vs[0].0@, expr_model(*vs[0].1))] + binding_models(vs.drop_first())
    }
}

impl View for Expression {
    type V = ExprModel;

    open spec fn view(&self) -> ExprModel {
        expr_model(*self)
    }
}

/// The placeholder-splicing rewrite on models: the result is `base` with
/// every `Placeholder` leaf replaced by `repl`. The rewrite recurses into
/// every variant uniformly and leaves all non-placeholder structure
/// unchanged.
pub open spec fn splice(base: ExprModel, repl: ExprModel) -> ExprModel
    decreases base,
{
    match base {
        ExprModel::Primitive(p) => match p {
            PrimitiveModel::Placeholder => repl,
            _ => ExprModel::Primitive(p),
        },
        ExprModel::Group(inner) => ExprModel::Group(Box::new(splice(*inner, repl))),
        ExprModel::Sum { left, right } => ExprModel::Sum {
            left: Box::new(splice(*left, repl)),
            right: Box::new(splice(*right, repl)),
        },
        ExprModel::Product { left, right } => ExprModel::Product {
            left: Box::new(splice(*left, repl)),
            right: Box::new(splice(*right, repl)),
        },
        ExprModel::Divide { left, right } => ExprModel::Divide {
            left: Box::new(splice(*left, repl)),
            right: Box::new(splice(*right, repl)),
        },
        ExprModel::Subtract { left, right } => ExprModel::Subtract {
            left: Box::new(splice(*left, repl)),
            right: Box::new(splice(*right, repl)),
        },
        ExprModel::If { condition, then_branch, else_branch } => ExprModel::If {
            condition: Box::new(splice(*condition, repl)),
            then_branch: Box::new(splice(*then_branch, repl)),
            else_branch: Box::new(splice(*else_branch, repl)),
        },
        ExprModel::Compare { left, operand, right } => ExprModel::Compare {
            left: Box::new(splice(*left, repl)),
            operand,
            right: Box::new(splice(*right, repl)),
        },
        ExprModel::Let { variables, scope } => ExprModel::Let {
            variables: splice_bindings(variables, repl),
            scope: Box::new(splice(*scope, repl)),
        },
        ExprModel::Use { variable } => ExprModel::Use { variable },
        ExprModel::Unary { operand, right } => ExprModel::Unary {
            operand,
            right: Box::new(splice(*right, repl)),
        },
        ExprModel::Assign { variable, value } => ExprModel::Assign {
            variable,
            value: Box::new(splice(*value, repl)),
        },
        ExprModel::For { variable, from, to, body } => ExprModel::For {
            variable,
            from: Box::new(splice(*from, repl)),
            to: Box::new(splice(*to, repl)),
            body: Box::new(splice(*body, repl)),
        },
        ExprModel::Print { expression } => ExprModel::Print {
            expression: Box::new(splice(*expression, repl)),
        },
        ExprModel::Chain { left, right } => ExprModel::Chain {
            left: Box::new(splice(*left, repl)),
            right: Box::new(splice(*right, repl)),
        },
        ExprModel::DeriveState { expression } => ExprModel::DeriveState {
            expression: Box::new(splice(*expression, repl)),
        },
        ExprModel::Empty => ExprModel::Empty,
    }
}

impl Primitive {
    /// An explicit deep copy whose result has the same model as the original.
    pub fn duplicate(&self) -> (r: Primitive)
        ensures
            r@ == self@,
    {
        match self {
            Primitive::Integer(v) => Primitive::Integer(*v),
            Primitive::String(s) => Primitive::String(s.clone()),
            Primitive::Boolean(b) => Primitive::Boolean(*b),
            Primitive::Placeholder => Primitive::Placeholder,
        }
    }
}

impl Expression {
    /// An explicit deep copy whose result has the same model as the original.
    pub fn duplicate(&self) -> (r: Expression)
        ensures
            r@ == self@,
        decreases *self,
    {
        match self {
            Expression::Primitive(p) => Expression::Primitive(p.duplicate()),
            Expression::Group(inner) => Expression::Group(Box::new(inner.duplicate())),
            Expression::Sum { left, right } => Expression::Sum {
                left: Box::new(left.duplicate()),
                right: Box::new(right.duplicate()),
            },
            Expression::Product { left, right } => Expression::Product {
                left: Box::new(left.duplicate()),
                right: Box::new(right.duplicate()),
            },
            Expression::Divide { left, right } => Expression::Divide {
                left: Box::new(left.duplicate()),
                right: Box::new(right.duplicate()),
            },
            Expression::Subtract { left, right } => Expression::Subtract {
                left: Box::new(left.duplicate()),
                right: Box::new(right.duplicate()),
            },
            Expression::If { condition, then_branch, else_branch } => Expression::If {
                condition: Box::new(condition.duplicate()),
                then_branch: Box::new(then_branch.duplicate()),
                else_branch: Box::new(else_branch.duplicate()),
            },
            Expression::Compare { left, operand, right } => Expression::Compare {
                left: Box::new(left.duplicate()),
                operand: *operand,
                right: Box::new(right.duplicate()),
            },
            Expression::Let { variables, scope } => Expression::Let {
                variables: duplicate_bindings(variables),
                scope: Box::new(scope.duplicate()),
            },
            Expression::Use { variable } => Expression::Use { variable: variable.clone() },
            Expression::Unary { operand, right } => Expression::Unary {
                operand: *operand,
                right: Box::new(right.duplicate()),
            },
            Expression::Assign { variable, value } => Expression::Assign {
                variable: variable.clone(),
                value: Box::new(value.duplicate()),
            },
            Expression::For { variable, from, to, body } => Expression::For {
                variable: variable.clone(),
                from: Box::new(from.duplicate()),
                to: Box::new(to.duplicate()),
                body: Box::new(body.duplicate()),
            },
            Expression::Print { expression } => Expression::Print {
                expression: Box::new(expression.duplicate()),
            },
            Expression::Chain { left, right } => Expression::Chain {
                left: Box::new(left.duplicate()),
                right: Box::new(right.duplicate()),
            },
            Expression::DeriveState { expression } => Expression::DeriveState {
                expression: Box::new(expression.duplicate()),
            },
            Expression::Empty => Expression::Empty,
        }
    }

    /// A copy of this tree in which every `Placeholder` leaf is replaced by
    /// `expression`; all other structure is kept unchanged.
    pub fn replace_with(&self, expression: Expression) -> (r: Expression)
        ensures
            r@ == splice(self@, expression@),
        decreases *self,
    {
        match self {
            Expression::Primitive(p) => match p {
                Primitive::Placeholder => expression,
                _ => Expression::Primitive(p.duplicate()),
            },
            Expression::Group(inner) => Expression::Group(
                Box::new(inner.replace_with(expression)),
            ),
            Expression::Sum { left, right } => Expression::Sum {
                left: Box::new(left.replace_with(expression.duplicate())),
                right: Box::new(right.replace_with(expression)),
            },
            Expression::Product { left, right } => Expression::Product {
                left: Box::new(left.replace_with(expression.duplicate())),
                right: Box::new(right.replace_with(expression)),
            },
            Expression::Divide { left, right } => Expression::Divide {
                left: Box::new(left.replace_with(expression.duplicate())),
                right: Box::new(right.replace_with(expression)),
            },
            Expression::Subtract { left, right } => Expression::Subtract {
                left: Box::new(left.replace_with(expression.duplicate())),
                right: Box::new(right.replace_with(expression)),
            },
            Expression::If { condition, then_branch, else_branch } => Expression::If {
                condition: Box::new(condition.replace_with(expression.duplicate())),
                then_branch: Box::new(then_branch.replace_with(expression.duplicate())),
                else_branch: Box::new(else_branch.replace_with(expression)),
            },
            Expression::Compare { left, operand, right } => Expression::Compare {
                left: Box::new(left.replace_with(expression.duplicate())),
                operand: *operand,
                right: Box::new(right.replace_with(expression)),
            },
            Expression::Let { variables, scope } => Expression::Let {
                variables: replace_bindings(variables, &expression),
                scope: Box::new(scope.replace_with(expression)),
            },
            Expression::Use { variable } => Expression::Use { variable: variable.clone() },
            Expression::Unary { operand, right } => Expression::Unary {
                operand: *operand,
                right: Box::new(right.replace_with(expression)),
            },
            Expression::Assign { variable, value } => Expression::Assign {
                variable: variable.clone(),
                value: Box::new(value.replace_with(expression)),
            },
            Expression::For { variable, from, to, body } => Expression::For {
                variable: variable.clone(),
                from: Box::new(from.replace_with(expression.duplicate())),
                to: Box::new(to.replace_with(expression.duplicate())),
                body: Box::new(body.replace_with(expression)),
            },
            Expression::Print { expression: inner } => Expression::Print {
                expression: Box::new(inner.replace_with(expression)),
            },
            Expression::Chain { left, right } => Expression::Chain {
                left: Box::new(left.replace_with(expression.duplicate())),
                right: Box::new(right.replace_with(expression)),
            },
            Expression::DeriveState { expression: inner } => Expression::DeriveState {
                expression: Box::new(inner.replace_with(expression)),
            },
            Expression::Empty => Expression::Empty,
        }
    }

    /// The same rewrite, phrased over a mutable handle; the handle itself is
    /// left unchanged and the rewritten tree is returned.
    pub fn replace_with_inner(old_expr: &mut Expression, expression: Expression) -> (r: Expression)
        ensures
            r@ == splice(old(old_expr)@, expression@),
            final(old_expr)@ == old(old_expr)@,
    {
        let r = old_expr.replace_with(expression);
        r
    }
}

/// Deep copies of each pair of a binding list.
fn duplicate_bindings(vs: &Vec<(String, ExpressionRef)>) -> (r: Vec<(String, ExpressionRef)>)
    ensures
        binding_models(r@) == binding_models(vs@),
    decreases vs@,
{
    let mut out: Vec<(String, ExpressionRef)> = Vec::new();
    let mut i: usize = 0;
    while i < vs.len()
        invariant
            i <= vs.len(),
            binding_models(out@) == binding_models(vs@.subrange(0, i as int)),
        decreases vs.len() - i,
    {
        proof {
            assert(decreases_to!(vs@ => vs@[i as int]));
            assert(decreases_to!(vs@[i as int] => *vs@[i as int].1));
        }
        let name = vs[i].0.clone();
        let dup = Box::new(vs[i].1.duplicate());
        let ghost prev = out@;
        let ghost pr = (name, dup);
        out.push((name, dup));
        proof {
            lemma_binding_models_push(prev, pr);
            lemma_binding_models_push(vs@.subrange(0, i as int), vs@[i as int]);
            assert(vs@.subrange(0, i as int).push(vs@[i as int]) =~= vs@.subrange(
                0,
                i as int + 1,
            ));
            assert((pr.0@, expr_model(*pr.1)) == (
                vs@[i as int].0@,
                expr_model(*vs@[i as int].1),
            ));
            assert(binding_models(out@) == binding_models(vs@.subrange(0, i as int + 1)));
        }
        i = i + 1;
    }
    proof {
        assert(vs@.subrange(0, vs@.len() as int) =~= vs@);
    }
    out
}

/// The splicing rewrite applied to each pair of a binding list.
fn replace_bindings(vs: &Vec<(String, ExpressionRef)>, expression: &Expression) -> (r: Vec<
    (String, ExpressionRef),
>)
    ensures
        binding_models(r@) == splice_bindings(binding_models(vs@), expression@),
    decreases vs@,
{
    let mut out: Vec<(String, ExpressionRef)> = Vec::new();
    let mut i: usize = 0;
    while i < vs.len()
        invariant
            i <= vs.len(),
            binding_models(out@) == splice_bindings(
                binding_models(vs@.subrange(0, i as int)),
                expression@,
            ),
        decreases vs.len() - i,
    {
        proof {
            assert(decreases_to!(vs@ => vs@[i as int]));
            assert(decreases_to!(vs@[i as int] => *vs@[i as int].1));
        }
        let name = vs[i].0.clone();
        let rewritten = Box::new(vs[i].1.replace_with(expression.duplicate()));
        let ghost prev = out@;
        let ghost pr = (name, rewritten);
        out.push((name, rewritten));
        proof {
            lemma_binding_models_push(prev, pr);
            lemma_splice_bindings_push(
                binding_models(vs@.subrange(0, i as int)),
                (vs@[i as int].0@, expr_model(*vs@[i as int].1)),
                expression@,
            );
            assert(vs@.subrange(0, i as int).push(vs@[i as int]) =~= vs@.subrange(
                0,
                i as int + 1,
            ));
            lemma_binding_models_push(vs@.subrange(0, i as int), vs@[i as int]);
            assert((pr.0@, expr_model(*pr.1)) == (
                vs@[i as int].0@,
                splice(expr_model(*vs@[i as int].1), expression@),
            ));
            assert(binding_models(vs@.subrange(0, i as int)) + seq![
                (vs@[i as int].0@, expr_model(*vs@[i as int].1)),
            ] =~= binding_models(vs@.subrange(0, i as int)).push(
                (vs@[i as int].0@, expr_model(*vs@[i as int].1)),
            ));
            assert(binding_models(out@) == splice_bindings(
                binding_models(vs@.subrange(0, i as int + 1)),
                expression@,
            ));
        }
        i = i + 1;
    }
    proof {
        assert(vs@.subrange(0, vs@.len() as int) =~= vs@);
    }
    out
}

/// The model of a binding list, pointwise.
pub proof fn lemma_binding_models(vs: Seq<(String, ExpressionRef)>)
    ensures
        binding_models(vs).len() == vs.len(),
        forall|i: int|
            0 <= i < vs.len() ==> #[trigger] binding_models(vs)[i] == (
                vs[i].0@,
                expr_model(*vs[i].1),
            ),
    decreases vs.len(),
{
    if vs.len() > 0 {
        lemma_binding_models(vs.drop_first());
        assert forall|i: int|
            0 <= i < vs.len() implies binding_models(vs)[i] == (
            vs[i].0@,
            expr_model(*vs[i].1),
        ) by {
            if i > 0 {
                assert(vs.drop_first()[i - 1] == vs[i]);
                assert(binding_models(vs)[i] == binding_models(vs.drop_first())[i - 1]);
            }
        }
    }
}

/// Appending one pair to a binding list appends its model.
proof fn lemma_binding_models_push(s: Seq<(String, ExpressionRef)>, p: (String, ExpressionRef))
    ensures
        binding_models(s.push(p)) == binding_models(s) + seq![(p.0@, expr_model(*p.1))],
    decreases s.len(),
{
    reveal_with_fuel(binding_models, 3);
    if s.len() == 0 {
        assert(s.push(p).drop_first() =~= Seq::<(String, ExpressionRef)>::empty());
        assert(binding_models(s.push(p)) =~= binding_models(s) + seq![(p.0@, expr_model(*p.1))]);
    } else {
        lemma_binding_models_push(s.drop_first(), p);
        assert(s.push(p).drop_first() =~= s.drop_first().push(p));
        assert(binding_models(s.push(p)) =~= binding_models(s) + seq![(p.0@, expr_model(*p.1))]);
    }
}

/// Appending one pair to a binding-model list splices pointwise.
proof fn lemma_splice_bindings_push(
    s: Seq<(Seq<char>, ExprModel)>,
    p: (Seq<char>, ExprModel),
    repl: ExprModel,
)
    ensures
        splice_bindings(s.push(p), repl) == splice_bindings(s, repl) + seq![
            (p.0, splice(p.1, repl)),
        ],
    decreases s.len(),
{
    reveal_with_fuel(splice_bindings, 3);
    if s.len() == 0 {
        assert(s.push(p).drop_first() =~= Seq::<(Seq<char>, ExprModel)>::empty());
        assert(splice_bindings(s.push(p), repl) =~= splice_bindings(s, repl) + seq![
            (p.0, splice(p.1, repl)),
        ]);
    } else {
        lemma_splice_bindings_push(s.drop_first(), p, repl);
        assert(s.push(p).drop_first() =~= s.drop_first().push(p));
        assert(splice_bindings(s.push(p), repl) =~= splice_bindings(s, repl) + seq![
            (p.0, splice(p.1, repl)),
        ]);
    }
}

/// The splicing rewrite applied to each expression of a binding list.
pub open spec fn splice_bindings(
    vs: Seq<(Seq<char>, ExprModel)>,
    repl: ExprModel,
) -> Seq<(Seq<char>, ExprModel)>
    decreases vs,
{
    if vs.len() == 0 {
        Seq::empty()
    } else {
        seq![(vs[0].0, splice(vs[0].1, repl))] + splice_bindings(vs.drop_first(), repl)
    }
}

} // verus!

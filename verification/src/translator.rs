//! The translator: consumes an ordered token sequence left to right and
//! builds the expression tree rooted at its first token, defined first as a
//! mathematical function on token models and then implemented by
//! executable code proved equal to it.
//!
//! Constructs that name their remainder translate an explicitly delimited
//! slice of tokens into the matching field. Everything else is composed by
//! continuation splicing: the head tree carries a `Placeholder` leaf for
//! "whatever comes after", the remaining tokens are translated on their
//! own, and the placeholder is replaced by that continuation.

use vstd::prelude::*;

use crate::expression::{
    expr_model, splice, ExprModel, Expression, ExpressionRef, Operand, Primitive, PrimitiveModel,
};
use crate::numbers::{parse_i32_text, parse_int_model};
use crate::token::{token_models, Token, TokenModel, TokenType};

verus! {

/// A parse failure: the line it was noticed on and what was expected
/// there. The translator never builds partial trees for malformed input.
#[derive(Debug, PartialEq)]
pub struct ParseError {
    pub line: usize,
    pub expected: String,
}

/// The mathematical image of a `ParseError`.
pub struct ParseErrorModel {
    pub line: nat,
    pub expected: Seq<char>,
}

impl View for ParseError {
    type V = ParseErrorModel;

    open spec fn view(&self) -> ParseErrorModel {
        ParseErrorModel { line: self.line as nat, expected: self.expected@ }
    }
}

/// What translating a token sequence comes to: a tree, or a failure.
pub enum ParseOutcome {
    Parsed(ExprModel),
    Refused(ParseErrorModel),
}

/// A parse failure, in one expression.
pub open spec fn refused(line: nat, expected: Seq<char>) -> ParseOutcome {
    ParseOutcome::Refused(ParseErrorModel { line, expected })
}

/// The first position at or after `i` whose token has kind `kind`, or the
/// length when there is none.
pub open spec fn find_kind(toks: Seq<TokenModel>, i: int, kind: TokenType) -> int
    decreases toks.len() - i,
{
    if i < 0 || i >= toks.len() {
        toks.len() as int
    } else if toks[i].kind == kind {
        i
    } else {
        find_kind(toks, i + 1, kind)
    }
}

/// The first position at or after `i` whose token has kind `k1` or `k2`,
/// or the length when there is none.
pub open spec fn find_either_kind(
    toks: Seq<TokenModel>,
    i: int,
    k1: TokenType,
    k2: TokenType,
) -> int
    decreases toks.len() - i,
{
    if i < 0 || i >= toks.len() {
        toks.len() as int
    } else if toks[i].kind == k1 || toks[i].kind == k2 {
        i
    } else {
        find_either_kind(toks, i + 1, k1, k2)
    }
}

/// The smaller of two positions.
pub open spec fn pos_min(a: int, b: int) -> int {
    if a < b {
        a
    } else {
        b
    }
}

/// The meaning of translating a token sequence into the tree rooted at its
/// first token. An exhausted sequence stands for the continuation and
/// translates to a `Placeholder`.
pub open spec fn translate_tokens(toks: Seq<TokenModel>) -> ParseOutcome
    decreases toks.len(), 2int,
        via translate_tokens_decreases
{
    if toks.len() == 0 {
        ParseOutcome::Parsed(ExprModel::Primitive(PrimitiveModel::Placeholder))
    } else {
        let t = toks[0];
        let n = toks.len() as int;
        match t.kind {
            TokenType::Plus => translate_reversed_pair(toks, BinaryShape::Sum),
            TokenType::Star => translate_reversed_pair(toks, BinaryShape::Product),
            TokenType::Minus => translate_reversed_pair(toks, BinaryShape::Subtract),
            TokenType::Slash => translate_ordered_pair(toks, BinaryShape::Divide),
            TokenType::Greater => translate_ordered_pair(toks, BinaryShape::Greater),
            TokenType::Less => translate_ordered_pair(toks, BinaryShape::Less),
            TokenType::Print => {
                let j = find_kind(toks, 1, TokenType::EOL);
                let inner = translate_tokens(toks.subrange(1, j));
                match inner {
                    ParseOutcome::Parsed(e) => translate_then_splice(
                        ExprModel::Print { expression: Box::new(e) },
                        toks.subrange(pos_min(j + 1, n), n),
                    ),
                    f => f,
                }
            },
            TokenType::String => translate_then_splice(
                ExprModel::Primitive(PrimitiveModel::Str(t.lexeme)),
                toks.subrange(1, n),
            ),
            TokenType::Number => match parse_int_model(t.lexeme) {
                Option::Some(v) => translate_then_splice(
                    ExprModel::Primitive(PrimitiveModel::Integer(v)),
                    toks.subrange(1, n),
                ),
                Option::None => refused(t.line, "a 32-bit integer"@),
            },
            TokenType::True => translate_then_splice(
                ExprModel::Primitive(PrimitiveModel::Boolean(true)),
                toks.subrange(1, n),
            ),
            TokenType::False => translate_then_splice(
                ExprModel::Primitive(PrimitiveModel::Boolean(false)),
                toks.subrange(1, n),
            ),
            TokenType::LeftParen => {
                let j = find_kind(toks, 1, TokenType::RightParen);
                translate_tokens(toks.subrange(1, pos_min(j + 1, n)))
            },
            TokenType::LeftBrace => {
                let j = find_kind(toks, 1, TokenType::RightBrace);
                translate_tokens(toks.subrange(1, pos_min(j + 1, n)))
            },
            TokenType::Bang => {
                if n < 2 {
                    refused(t.line, "an operand"@)
                } else {
                    let inner = translate_tokens(seq![toks[1]]);
                    match inner {
                        ParseOutcome::Parsed(e) => translate_then_splice(
                            ExprModel::Unary { operand: Operand::Not, right: Box::new(e) },
                            toks.subrange(2, n),
                        ),
                        f => f,
                    }
                }
            },
            TokenType::If => {
                let j1 = find_kind(toks, 1, TokenType::RightParen);
                let i2 = pos_min(j1 + 1, n);
                let j2 = find_kind(toks, i2, TokenType::Else);
                let i3 = pos_min(j2 + 1, n);
                let j3 = find_kind(toks, i3, TokenType::RightBrace);
                let cond = translate_tokens(toks.subrange(1, i2));
                match cond {
                    ParseOutcome::Parsed(c) => {
                        let then_r = translate_tokens(toks.subrange(i2, j2));
                        match then_r {
                            ParseOutcome::Parsed(th) => {
                                let else_r = translate_tokens(
                                    toks.subrange(i3, pos_min(j3 + 1, n)),
                                );
                                match else_r {
                                    ParseOutcome::Parsed(el) => translate_then_splice(
                                        ExprModel::If {
                                            condition: Box::new(c),
                                            then_branch: Box::new(th),
                                            else_branch: Box::new(el),
                                        },
                                        toks.subrange(pos_min(j3 + 1, n), n),
                                    ),
                                    f => f,
                                }
                            },
                            f => f,
                        }
                    },
                    f => f,
                }
            },
            TokenType::For => {
                if n < 4 {
                    refused(t.line, "a loop header"@)
                } else {
                    let j4 = find_either_kind(toks, 4, TokenType::DotDot, TokenType::DotDotEqual);
                    let exclusive = j4 < n && toks[j4].kind == TokenType::DotDot;
                    let i5 = pos_min(j4 + 1, n);
                    let j5 = find_kind(toks, i5, TokenType::RightBracket);
                    let i6 = pos_min(j5 + 1, n);
                    let j6 = find_kind(toks, i6, TokenType::RightBrace);
                    let from_r = translate_tokens(toks.subrange(4, j4));
                    match from_r {
                        ParseOutcome::Parsed(fr) => {
                            let to_r = translate_tokens(toks.subrange(i5, j5));
                            match to_r {
                                ParseOutcome::Parsed(to) => {
                                    let body_r = translate_tokens(
                                        toks.subrange(i6, pos_min(j6 + 1, n)),
                                    );
                                    match body_r {
                                        ParseOutcome::Parsed(body) => {
                                            let to_final = if exclusive {
                                                ExprModel::Subtract {
                                                    left: Box::new(to),
                                                    right: Box::new(
                                                        ExprModel::Primitive(
                                                            PrimitiveModel::Integer(1),
                                                        ),
                                                    ),
                                                }
                                            } else {
                                                to
                                            };
                                            translate_then_splice(
                                                ExprModel::For {
                                                    variable: toks[1].lexeme,
                                                    from: Box::new(fr),
                                                    to: Box::new(to_final),
                                                    body: Box::new(body),
                                                },
                                                toks.subrange(pos_min(j6 + 1, n), n),
                                            )
                                        },
                                        f => f,
                                    }
                                },
                                f => f,
                            }
                        },
                        f => f,
                    }
                }
            },
            TokenType::Let => {
                if n < 2 {
                    refused(t.line, "a variable name"@)
                } else {
                    let j = find_kind(toks, 3, TokenType::EOL);
                    let value_r = translate_tokens(toks.subrange(pos_min(3, n), pos_min(j + 1, n)));
                    match value_r {
                        ParseOutcome::Parsed(value) => {
                            let scope_r = translate_tokens(toks.subrange(pos_min(j + 1, n), n));
                            match scope_r {
                                ParseOutcome::Parsed(scope) => ParseOutcome::Parsed(
                                    ExprModel::Let {
                                        variables: seq![(toks[1].lexeme, value)],
                                        scope: Box::new(scope),
                                    },
                                ),
                                f => f,
                            }
                        },
                        f => f,
                    }
                }
            },
            TokenType::Identifier => translate_then_splice(
                ExprModel::Use { variable: t.lexeme },
                toks.subrange(1, n),
            ),
            TokenType::EOL => {
                let rest = translate_tokens(toks.subrange(1, n));
                match rest {
                    ParseOutcome::Parsed(e) => ParseOutcome::Parsed(
                        ExprModel::Chain {
                            left: Box::new(e),
                            right: Box::new(ExprModel::Empty),
                        },
                    ),
                    f => f,
                }
            },
            TokenType::Else => {
                let rest = translate_tokens(toks.subrange(1, n));
                match rest {
                    ParseOutcome::Parsed(e) => ParseOutcome::Parsed(ExprModel::Group(Box::new(e))),
                    f => f,
                }
            },
            _ => translate_then_splice(ExprModel::Empty, toks.subrange(1, n)),
        }
    }
}

/// The two-operand shapes the translator can build.
#[derive(Clone, Copy)]
pub enum BinaryShape {
    Sum,
    Product,
    Subtract,
    Divide,
    Greater,
    Less,
}

/// The tree of a two-operand shape over two given sub-trees.
pub open spec fn binary_shape_expr(shape: BinaryShape, l: ExprModel, r: ExprModel) -> ExprModel {
    match shape {
        BinaryShape::Sum => ExprModel::Sum { left: Box::new(l), right: Box::new(r) },
        BinaryShape::Product => ExprModel::Product { left: Box::new(l), right: Box::new(r) },
        BinaryShape::Subtract => ExprModel::Subtract { left: Box::new(l), right: Box::new(r) },
        BinaryShape::Divide => ExprModel::Divide { left: Box::new(l), right: Box::new(r) },
        BinaryShape::Greater => ExprModel::Compare {
            left: Box::new(l),
            operand: Operand::GreaterThan,
            right: Box::new(r),
        },
        BinaryShape::Less => ExprModel::Compare {
            left: Box::new(l),
            operand: Operand::LessThan,
            right: Box::new(r),
        },
    }
}

/// The meaning of a reversed-order operator: the token right after the
/// operator supplies the `right` field and the one after that supplies
/// `left` — encounter order is reversed for these shapes.
pub open spec fn translate_reversed_pair(toks: Seq<TokenModel>, shape: BinaryShape) -> ParseOutcome
    decreases toks.len(), 1int,
{
    if toks.len() < 3 {
        refused(toks[0].line, "an operand"@)
    } else {
        let right_r = translate_tokens(seq![toks[1]]);
        match right_r {
            ParseOutcome::Parsed(r) => {
                let left_r = translate_tokens(seq![toks[2]]);
                match left_r {
                    ParseOutcome::Parsed(l) => translate_then_splice(
                        binary_shape_expr(shape, l, r),
                        toks.subrange(3, toks.len() as int),
                    ),
                    f => f,
                }
            },
            f => f,
        }
    }
}

/// The meaning of an encounter-order operator: the two tokens after the
/// operator supply `left` and `right` in order.
pub open spec fn translate_ordered_pair(toks: Seq<TokenModel>, shape: BinaryShape) -> ParseOutcome
    decreases toks.len(), 1int,
{
    if toks.len() < 3 {
        refused(toks[0].line, "an operand"@)
    } else {
        let left_r = translate_tokens(seq![toks[1]]);
        match left_r {
            ParseOutcome::Parsed(l) => {
                let right_r = translate_tokens(seq![toks[2]]);
                match right_r {
                    ParseOutcome::Parsed(r) => translate_then_splice(
                        binary_shape_expr(shape, l, r),
                        toks.subrange(3, toks.len() as int),
                    ),
                    f => f,
                }
            },
            f => f,
        }
    }
}

/// The meaning of the splicing step: the remaining tokens are translated
/// into the continuation, and every placeholder of the head tree is
/// replaced by it.
pub open spec fn translate_then_splice(e: ExprModel, rest: Seq<TokenModel>) -> ParseOutcome
    decreases rest.len(), 3int,
{
    match translate_tokens(rest) {
        ParseOutcome::Parsed(c) => ParseOutcome::Parsed(splice(e, c)),
        f => f,
    }
}

/// The first position found never lies before the start nor past the end.
pub proof fn lemma_find_kind_bounds(toks: Seq<TokenModel>, i: int, kind: TokenType)
    requires
        0 <= i,
    ensures
        pos_min(i, toks.len() as int) <= find_kind(toks, i, kind) <= toks.len(),
    decreases toks.len() - i,
{
    if i < toks.len() && toks[i].kind != kind {
        lemma_find_kind_bounds(toks, i + 1, kind);
    }
}

/// The first position found never lies before the start nor past the end.
pub proof fn lemma_find_either_kind_bounds(
    toks: Seq<TokenModel>,
    i: int,
    k1: TokenType,
    k2: TokenType,
)
    requires
        0 <= i,
    ensures
        pos_min(i, toks.len() as int) <= find_either_kind(toks, i, k1, k2) <= toks.len(),
    decreases toks.len() - i,
{
    if i < toks.len() && toks[i].kind != k1 && toks[i].kind != k2 {
        lemma_find_either_kind_bounds(toks, i + 1, k1, k2);
    }
}

/// Establishes the bounds that the recursion of `translate_tokens` rests
/// on.
#[via_fn]
proof fn translate_tokens_decreases(toks: Seq<TokenModel>) {
    let n = toks.len() as int;
    lemma_find_kind_bounds(toks, 1, TokenType::EOL);
    lemma_find_kind_bounds(toks, 1, TokenType::RightParen);
    lemma_find_kind_bounds(toks, 1, TokenType::RightBrace);
    let j1 = find_kind(toks, 1, TokenType::RightParen);
    let i2 = pos_min(j1 + 1, n);
    lemma_find_kind_bounds(toks, i2, TokenType::Else);
    let j2 = find_kind(toks, i2, TokenType::Else);
    let i3 = pos_min(j2 + 1, n);
    lemma_find_kind_bounds(toks, i3, TokenType::RightBrace);
    lemma_find_either_kind_bounds(toks, 4, TokenType::DotDot, TokenType::DotDotEqual);
    let j4 = find_either_kind(toks, 4, TokenType::DotDot, TokenType::DotDotEqual);
    let i5 = pos_min(j4 + 1, n);
    lemma_find_kind_bounds(toks, i5, TokenType::RightBracket);
    let j5 = find_kind(toks, i5, TokenType::RightBracket);
    let i6 = pos_min(j5 + 1, n);
    lemma_find_kind_bounds(toks, i6, TokenType::RightBrace);
    lemma_find_kind_bounds(toks, 3, TokenType::EOL);
}

/// The meaning of translating a whole program: the tree of the token
/// sequence, with any placeholder left for an exhausted continuation
/// resolved to `Empty`.
pub open spec fn translate_program(toks: Seq<TokenModel>) -> ParseOutcome {
    match translate_tokens(toks) {
        ParseOutcome::Parsed(e) => ParseOutcome::Parsed(splice(e, ExprModel::Empty)),
        f => f,
    }
}

/// Appending one token appends its model.
pub proof fn lemma_token_models_push(s: Seq<Token>, t: Token)
    ensures
        token_models(s.push(t)) =~= token_models(s).push(t@),
{
}

/// Whether an executable translation result mirrors an outcome model.
pub open spec fn outcome_matches(o: ParseOutcome, r: Result<Expression, ParseError>) -> bool {
    match r {
        Result::Ok(e) => o == ParseOutcome::Parsed(e@),
        Result::Err(pe) => o == ParseOutcome::Refused(pe@),
    }
}

/// A first position is pinned down by a matchless stretch before it.
pub proof fn lemma_find_kind_at(toks: Seq<TokenModel>, start: int, kind: TokenType, j: int)
    requires
        0 <= start <= j <= toks.len(),
        forall|x: int| start <= x < j ==> (#[trigger] toks[x]).kind != kind,
        j < toks.len() ==> toks[j].kind == kind,
    ensures
        find_kind(toks, start, kind) == j,
    decreases j - start,
{
    if start < j {
        lemma_find_kind_at(toks, start + 1, kind, j);
    }
}

/// A first position is pinned down by a matchless stretch before it.
pub proof fn lemma_find_either_kind_at(
    toks: Seq<TokenModel>,
    start: int,
    k1: TokenType,
    k2: TokenType,
    j: int,
)
    requires
        0 <= start <= j <= toks.len(),
        forall|x: int|
            start <= x < j ==> (#[trigger] toks[x]).kind != k1 && toks[x].kind != k2,
        j < toks.len() ==> (toks[j].kind == k1 || toks[j].kind == k2),
    ensures
        find_either_kind(toks, start, k1, k2) == j,
    decreases j - start,
{
    if start < j {
        lemma_find_either_kind_at(toks, start + 1, k1, k2, j);
    }
}

/// Copies the tokens from `start` up to the first one of kind `kind`,
/// exclusive or inclusive of it, and also returns the position right after
/// that token.
fn collect_until(tokens: &Vec<Token>, start: usize, kind: TokenType, inclusive: bool) -> (r: (
    Vec<Token>,
    usize,
))
    requires
        start <= tokens@.len(),
    ensures
        ({
            let tm = token_models(tokens@);
            let n = tm.len() as int;
            let j = find_kind(tm, start as int, kind);
            &&& token_models(r.0@) == tm.subrange(
                start as int,
                if inclusive {
                    pos_min(j + 1, n)
                } else {
                    j
                },
            )
            &&& r.1 == pos_min(j + 1, n)
            &&& start <= r.1 <= tm.len()
        }),
{
    let ghost tm = token_models(tokens@);
    let mut sub: Vec<Token> = Vec::new();
    let mut i: usize = start;
    proof {
        assert(token_models(sub@) =~= tm.subrange(start as int, start as int));
    }
    while i < tokens.len() && !(tokens[i].token_type == kind)
        invariant
            start <= i <= tokens@.len(),
            tm == token_models(tokens@),
            tm.len() == tokens@.len(),
            forall|x: int| start <= x < i ==> (#[trigger] tm[x]).kind != kind,
            token_models(sub@) == tm.subrange(start as int, i as int),
        decreases tokens@.len() - i,
    {
        let d = tokens[i].duplicate();
        let ghost prev = sub@;
        sub.push(d);
        proof {
            lemma_token_models_push(prev, d);
            assert(tm[i as int] == tokens@[i as int]@);
            assert(token_models(sub@) =~= tm.subrange(start as int, i as int + 1));
        }
        i = i + 1;
    }
    proof {
        lemma_find_kind_at(tm, start as int, kind, i as int);
    }
    if i < tokens.len() {
        if inclusive {
            let d = tokens[i].duplicate();
            let ghost prev = sub@;
            sub.push(d);
            proof {
                lemma_token_models_push(prev, d);
                assert(tm[i as int] == tokens@[i as int]@);
                assert(token_models(sub@) =~= tm.subrange(start as int, i as int + 1));
            }
        }
        (sub, i + 1)
    } else {
        (sub, i)
    }
}

/// Copies the tokens from `start` up to the first range delimiter,
/// exclusive; returns the position right after it and whether the range
/// was the exclusive one.
fn collect_range_bound(tokens: &Vec<Token>, start: usize) -> (r: (Vec<Token>, usize, bool))
    requires
        start <= tokens@.len(),
    ensures
        ({
            let tm = token_models(tokens@);
            let n = tm.len() as int;
            let j = find_either_kind(tm, start as int, TokenType::DotDot, TokenType::DotDotEqual);
            &&& token_models(r.0@) == tm.subrange(start as int, j)
            &&& r.1 == pos_min(j + 1, n)
            &&& start <= r.1 <= tm.len()
            &&& r.2 == (j < n && tm[j].kind == TokenType::DotDot)
        }),
{
    let ghost tm = token_models(tokens@);
    let mut sub: Vec<Token> = Vec::new();
    let mut i: usize = start;
    proof {
        assert(token_models(sub@) =~= tm.subrange(start as int, start as int));
    }
    while i < tokens.len() && !(tokens[i].token_type == TokenType::DotDot) && !(
    tokens[i].token_type == TokenType::DotDotEqual)
        invariant
            start <= i <= tokens@.len(),
            tm == token_models(tokens@),
            tm.len() == tokens@.len(),
            forall|x: int|
                start <= x < i ==> (#[trigger] tm[x]).kind != TokenType::DotDot && tm[x].kind
                    != TokenType::DotDotEqual,
            token_models(sub@) == tm.subrange(start as int, i as int),
        decreases tokens@.len() - i,
    {
        let d = tokens[i].duplicate();
        let ghost prev = sub@;
        sub.push(d);
        proof {
            lemma_token_models_push(prev, d);
            assert(tm[i as int] == tokens@[i as int]@);
            assert(token_models(sub@) =~= tm.subrange(start as int, i as int + 1));
        }
        i = i + 1;
    }
    proof {
        lemma_find_either_kind_at(tm, start as int, TokenType::DotDot, TokenType::DotDotEqual, i as int);
    }
    if i < tokens.len() {
        let exclusive = tokens[i].token_type == TokenType::DotDot;
        proof {
            assert(tm[i as int] == tokens@[i as int]@);
        }
        (sub, i + 1, exclusive)
    } else {
        (sub, i, false)
    }
}

/// Copies the tokens from `start` to the end.
fn suffix_tokens(tokens: &Vec<Token>, start: usize) -> (r: Vec<Token>)
    requires
        start <= tokens@.len(),
    ensures
        token_models(r@) == token_models(tokens@).subrange(
            start as int,
            tokens@.len() as int,
        ),
{
    let ghost tm = token_models(tokens@);
    let mut sub: Vec<Token> = Vec::new();
    let mut i: usize = start;
    proof {
        assert(token_models(sub@) =~= tm.subrange(start as int, start as int));
    }
    while i < tokens.len()
        invariant
            start <= i <= tokens@.len(),
            tm == token_models(tokens@),
            tm.len() == tokens@.len(),
            token_models(sub@) == tm.subrange(start as int, i as int),
        decreases tokens@.len() - i,
    {
        let d = tokens[i].duplicate();
        let ghost prev = sub@;
        sub.push(d);
        proof {
            lemma_token_models_push(prev, d);
            assert(tm[i as int] == tokens@[i as int]@);
            assert(token_models(sub@) =~= tm.subrange(start as int, i as int + 1));
        }
        i = i + 1;
    }
    proof {
        assert(tm.subrange(start as int, i as int) =~= tm.subrange(
            start as int,
            tokens@.len() as int,
        ));
    }
    sub
}

/// A list holding a copy of the one token at `i`.
fn single_token(tokens: &Vec<Token>, i: usize) -> (r: Vec<Token>)
    requires
        i < tokens@.len(),
    ensures
        token_models(r@) == seq![token_models(tokens@)[i as int]],
{
    let ghost tm = token_models(tokens@);
    let mut sub: Vec<Token> = Vec::new();
    let d = tokens[i].duplicate();
    let ghost prev = sub@;
    sub.push(d);
    proof {
        lemma_token_models_push(prev, d);
        assert(tm[i as int] == tokens@[i as int]@);
        assert(token_models(sub@) =~= seq![tm[i as int]]);
    }
    sub
}

/// Builds the tree of a two-operand shape over two given sub-trees.
fn build_shape(shape: BinaryShape, l: Expression, r: Expression) -> (e: Expression)
    ensures
        e@ == binary_shape_expr(shape, l@, r@),
{
    match shape {
        BinaryShape::Sum => Expression::Sum { left: Box::new(l), right: Box::new(r) },
        BinaryShape::Product => Expression::Product { left: Box::new(l), right: Box::new(r) },
        BinaryShape::Subtract => Expression::Subtract { left: Box::new(l), right: Box::new(r) },
        BinaryShape::Divide => Expression::Divide { left: Box::new(l), right: Box::new(r) },
        BinaryShape::Greater => Expression::Compare {
            left: Box::new(l),
            operand: Operand::GreaterThan,
            right: Box::new(r),
        },
        BinaryShape::Less => Expression::Compare {
            left: Box::new(l),
            operand: Operand::LessThan,
            right: Box::new(r),
        },
    }
}

/// Translates the remaining tokens from `start` on into the continuation
/// and splices it into every placeholder of `expr`, as
/// `translate_then_splice` says.
fn tree_splice(expr: Expression, tokens: &Vec<Token>, start: usize) -> (r: Result<
    Expression,
    ParseError,
>)
    requires
        1 <= start <= tokens@.len(),
    ensures
        ({
            let o = translate_then_splice(
                expr@,
                token_models(tokens@).subrange(start as int, tokens@.len() as int),
            );
            match r {
                Result::Ok(e) => o == ParseOutcome::Parsed(e@),
                Result::Err(pe) => o == ParseOutcome::Refused(pe@),
            }
        }),
    decreases tokens@.len() - start, 3int,
{
    let rest = suffix_tokens(tokens, start);
    proof {
        assert(token_models(rest@).len() == rest@.len());
        assert(rest@.len() == tokens@.len() - start);
    }
    let cont = match Translator::tree(rest) {
        Result::Ok(c) => c,
        Result::Err(pe) => {
            return Result::Err(pe);
        },
    };
    Result::Ok(expr.replace_with(cont))
}

/// Translates a reversed-order operator, as `translate_reversed_pair`
/// says.
fn tree_reversed(tokens: &Vec<Token>, shape: BinaryShape) -> (r: Result<Expression, ParseError>)
    requires
        tokens@.len() >= 1,
    ensures
        ({
            let o = translate_reversed_pair(token_models(tokens@), shape);
            match r {
                Result::Ok(e) => o == ParseOutcome::Parsed(e@),
                Result::Err(pe) => o == ParseOutcome::Refused(pe@),
            }
        }),
    decreases tokens@.len(), 1int,
{
    if tokens.len() < 3 {
        return Result::Err(
            ParseError { line: tokens[0].line, expected: String::from_str("an operand") },
        );
    }
    let one_r = single_token(tokens, 1);
    proof {
        assert(token_models(one_r@).len() == one_r@.len());
        assert(one_r@.len() == 1);
    }
    let right_e = match Translator::tree(one_r) {
        Result::Ok(e) => e,
        Result::Err(pe) => {
            return Result::Err(pe);
        },
    };
    let one_l = single_token(tokens, 2);
    proof {
        assert(token_models(one_l@).len() == one_l@.len());
        assert(one_l@.len() == 1);
    }
    let left_e = match Translator::tree(one_l) {
        Result::Ok(e) => e,
        Result::Err(pe) => {
            return Result::Err(pe);
        },
    };
    tree_splice(build_shape(shape, left_e, right_e), tokens, 3)
}

/// Translates an encounter-order operator, as `translate_ordered_pair`
/// says.
fn tree_ordered(tokens: &Vec<Token>, shape: BinaryShape) -> (r: Result<Expression, ParseError>)
    requires
        tokens@.len() >= 1,
    ensures
        ({
            let o = translate_ordered_pair(token_models(tokens@), shape);
            match r {
                Result::Ok(e) => o == ParseOutcome::Parsed(e@),
                Result::Err(pe) => o == ParseOutcome::Refused(pe@),
            }
        }),
    decreases tokens@.len(), 1int,
{
    if tokens.len() < 3 {
        return Result::Err(
            ParseError { line: tokens[0].line, expected: String::from_str("an operand") },
        );
    }
    let one_l = single_token(tokens, 1);
    proof {
        assert(token_models(one_l@).len() == one_l@.len());
        assert(one_l@.len() == 1);
    }
    let left_e = match Translator::tree(one_l) {
        Result::Ok(e) => e,
        Result::Err(pe) => {
            return Result::Err(pe);
        },
    };
    let one_r = single_token(tokens, 2);
    proof {
        assert(token_models(one_r@).len() == one_r@.len());
        assert(one_r@.len() == 1);
    }
    let right_e = match Translator::tree(one_r) {
        Result::Ok(e) => e,
        Result::Err(pe) => {
            return Result::Err(pe);
        },
    };
    tree_splice(build_shape(shape, left_e, right_e), tokens, 3)
}

/// The translator. It consumes an ordered token sequence through a single
/// left-to-right pass and never backtracks.
pub struct Translator {}

impl Translator {
    /// Translates a whole program: the tree of the token sequence, with
    /// any placeholder left for an exhausted continuation resolved to
    /// `Empty`.
    pub fn from(tokens: Vec<Token>) -> (r: Result<ExpressionRef, ParseError>)
        ensures
            ({
                let o = translate_program(token_models(tokens@));
                match r {
                    Result::Ok(b) => o == ParseOutcome::Parsed(b@),
                    Result::Err(pe) => o == ParseOutcome::Refused(pe@),
                }
            }),
    {
        match Translator::tree(tokens) {
            Result::Ok(e) => Result::Ok(Box::new(e.replace_with(Expression::Empty))),
            Result::Err(pe) => Result::Err(pe),
        }
    }

    /// Translates a token sequence into the tree rooted at its first
    /// token, as `translate_tokens` says.
    #[verifier::rlimit(100)]
    pub fn tree(tokens: Vec<Token>) -> (r: Result<Expression, ParseError>)
        ensures
            ({
                let o = translate_tokens(token_models(tokens@));
                match r {
                    Result::Ok(e) => o == ParseOutcome::Parsed(e@),
                    Result::Err(pe) => o == ParseOutcome::Refused(pe@),
                }
            }),
        decreases tokens@.len(), 2int,
    {
        let ghost tm = token_models(tokens@);
        if tokens.len() == 0 {
            return Result::Ok(Expression::Primitive(Primitive::Placeholder));
        }
        let n = tokens.len();
        proof {
            assert(tm[0] == tokens@[0]@);
        }
        match tokens[0].token_type {
            TokenType::Plus => {
                let rr = tree_reversed(&tokens, BinaryShape::Sum);
                proof {
                    assert(translate_tokens(tm) == translate_reversed_pair(
                        tm,
                        BinaryShape::Sum,
                    ));
                }
                rr
            },
            TokenType::Star => { let rr = tree_reversed(&tokens, BinaryShape::Product); proof { assert(translate_tokens(tm) == translate_reversed_pair(tm, BinaryShape::Product)); } rr },
            TokenType::Minus => { let rr = tree_reversed(&tokens, BinaryShape::Subtract); proof { assert(translate_tokens(tm) == translate_reversed_pair(tm, BinaryShape::Subtract)); } rr },
            TokenType::Slash => { let rr = tree_ordered(&tokens, BinaryShape::Divide); proof { assert(translate_tokens(tm) == translate_ordered_pair(tm, BinaryShape::Divide)); } rr },
            TokenType::Greater => { let rr = tree_ordered(&tokens, BinaryShape::Greater); proof { assert(translate_tokens(tm) == translate_ordered_pair(tm, BinaryShape::Greater)); } rr },
            TokenType::Less => { let rr = tree_ordered(&tokens, BinaryShape::Less); proof { assert(translate_tokens(tm) == translate_ordered_pair(tm, BinaryShape::Less)); } rr },
            TokenType::Print => {
                proof {
                    lemma_find_kind_bounds(tm, 1, TokenType::EOL);
                }
                let (col, next) = collect_until(&tokens, 1, TokenType::EOL, false);
                proof {
                    assert(token_models(col@).len() == col@.len());
                    assert(col@.len() < tokens@.len());
                }
                let inner = match Translator::tree(col) {
                    Result::Ok(e) => e,
                    Result::Err(pe) => {
                        return Result::Err(pe);
                    },
                };
                let rr = tree_splice(
                    Expression::Print { expression: Box::new(inner) },
                    &tokens,
                    next,
                );
                proof {
                    assert(outcome_matches(translate_tokens(tm), rr));
                }
                rr
            },
            TokenType::String => {
                let rr = tree_splice(
                    Expression::Primitive(Primitive::String(tokens[0].lexeme.clone())),
                    &tokens,
                    1,
                );
                proof {
                    assert(outcome_matches(translate_tokens(tm), rr));
                }
                rr
            },
            TokenType::Number => {
                let rr = match parse_i32_text(tokens[0].lexeme.as_str()) {
                    Option::Some(v) => tree_splice(
                        Expression::Primitive(Primitive::Integer(v)),
                        &tokens,
                        1,
                    ),
                    Option::None => Result::Err(
                        ParseError {
                            line: tokens[0].line,
                            expected: String::from_str("a 32-bit integer"),
                        },
                    ),
                };
                proof {
                    assert(outcome_matches(translate_tokens(tm), rr));
                }
                rr
            },
            TokenType::True => {
                let rr = tree_splice(Expression::Primitive(Primitive::Boolean(true)), &tokens, 1);
                proof {
                    assert(outcome_matches(translate_tokens(tm), rr));
                }
                rr
            },
            TokenType::False => {
                let rr = tree_splice(Expression::Primitive(Primitive::Boolean(false)), &tokens, 1);
                proof {
                    assert(outcome_matches(translate_tokens(tm), rr));
                }
                rr
            },
            TokenType::LeftParen => {
                proof {
                    lemma_find_kind_bounds(tm, 1, TokenType::RightParen);
                }
                let (col, _next) = collect_until(&tokens, 1, TokenType::RightParen, true);
                proof {
                    assert(token_models(col@).len() == col@.len());
                    assert(col@.len() < tokens@.len());
                }
                let rr = Translator::tree(col);
                proof {
                    assert(outcome_matches(translate_tokens(tm), rr));
                }
                rr
            },
            TokenType::LeftBrace => {
                proof {
                    lemma_find_kind_bounds(tm, 1, TokenType::RightBrace);
                }
                let (col, _next) = collect_until(&tokens, 1, TokenType::RightBrace, true);
                proof {
                    assert(token_models(col@).len() == col@.len());
                    assert(col@.len() < tokens@.len());
                }
                let rr = Translator::tree(col);
                proof {
                    assert(outcome_matches(translate_tokens(tm), rr));
                }
                rr
            },
            TokenType::Bang => {
                if n < 2 {
                    return Result::Err(
                        ParseError {
                            line: tokens[0].line,
                            expected: String::from_str("an operand"),
                        },
                    );
                }
                let one = single_token(&tokens, 1);
                proof {
                    assert(token_models(one@).len() == one@.len());
                    assert(one@.len() < tokens@.len());
                }
                let inner = match Translator::tree(one) {
                    Result::Ok(e) => e,
                    Result::Err(pe) => {
                        return Result::Err(pe);
                    },
                };
                let rr = tree_splice(
                    Expression::Unary { operand: Operand::Not, right: Box::new(inner) },
                    &tokens,
                    2,
                );
                proof {
                    assert(outcome_matches(translate_tokens(tm), rr));
                }
                rr
            },
            TokenType::If => {
                proof {
                    lemma_find_kind_bounds(tm, 1, TokenType::RightParen);
                }
                let (cond_toks, i2) = collect_until(&tokens, 1, TokenType::RightParen, true);
                proof {
                    lemma_find_kind_bounds(tm, i2 as int, TokenType::Else);
                }
                let (then_toks, i3) = collect_until(&tokens, i2, TokenType::Else, false);
                proof {
                    lemma_find_kind_bounds(tm, i3 as int, TokenType::RightBrace);
                }
                let (else_toks, next) = collect_until(&tokens, i3, TokenType::RightBrace, true);
                proof {
                    assert(token_models(cond_toks@).len() == cond_toks@.len());
                    assert(cond_toks@.len() < tokens@.len());
                    assert(token_models(then_toks@).len() == then_toks@.len());
                    assert(then_toks@.len() < tokens@.len());
                    assert(token_models(else_toks@).len() == else_toks@.len());
                    assert(else_toks@.len() < tokens@.len());
                }
                let c = match Translator::tree(cond_toks) {
                    Result::Ok(e) => e,
                    Result::Err(pe) => {
                        return Result::Err(pe);
                    },
                };
                let th = match Translator::tree(then_toks) {
                    Result::Ok(e) => e,
                    Result::Err(pe) => {
                        return Result::Err(pe);
                    },
                };
                let el = match Translator::tree(else_toks) {
                    Result::Ok(e) => e,
                    Result::Err(pe) => {
                        return Result::Err(pe);
                    },
                };
                let rr = tree_splice(
                    Expression::If {
                        condition: Box::new(c),
                        then_branch: Box::new(th),
                        else_branch: Box::new(el),
                    },
                    &tokens,
                    next,
                );
                proof {
                    assert(outcome_matches(translate_tokens(tm), rr));
                }
                rr
            },
            TokenType::For => {
                if n < 4 {
                    return Result::Err(
                        ParseError {
                            line: tokens[0].line,
                            expected: String::from_str("a loop header"),
                        },
                    );
                }
                proof {
                    lemma_find_either_kind_bounds(
                        tm,
                        4,
                        TokenType::DotDot,
                        TokenType::DotDotEqual,
                    );
                }
                let (from_toks, i5, exclusive) = collect_range_bound(&tokens, 4);
                proof {
                    lemma_find_kind_bounds(tm, i5 as int, TokenType::RightBracket);
                }
                let (to_toks, i6) = collect_until(&tokens, i5, TokenType::RightBracket, false);
                proof {
                    lemma_find_kind_bounds(tm, i6 as int, TokenType::RightBrace);
                }
                let (body_toks, next) = collect_until(&tokens, i6, TokenType::RightBrace, true);
                proof {
                    assert(token_models(from_toks@).len() == from_toks@.len());
                    assert(from_toks@.len() < tokens@.len());
                    assert(token_models(to_toks@).len() == to_toks@.len());
                    assert(to_toks@.len() < tokens@.len());
                    assert(token_models(body_toks@).len() == body_toks@.len());
                    assert(body_toks@.len() < tokens@.len());
                }
                let fr = match Translator::tree(from_toks) {
                    Result::Ok(e) => e,
                    Result::Err(pe) => {
                        return Result::Err(pe);
                    },
                };
                let to = match Translator::tree(to_toks) {
                    Result::Ok(e) => e,
                    Result::Err(pe) => {
                        return Result::Err(pe);
                    },
                };
                let body = match Translator::tree(body_toks) {
                    Result::Ok(e) => e,
                    Result::Err(pe) => {
                        return Result::Err(pe);
                    },
                };
                let ghost tom = to@;
                let to_final = if exclusive {
                    Expression::Subtract {
                        left: Box::new(to),
                        right: Box::new(Expression::Primitive(Primitive::Integer(1))),
                    }
                } else {
                    to
                };
                proof {
                    reveal_with_fuel(expr_model, 4);
                    if exclusive {
                        assert(to_final@ == ExprModel::Subtract {
                            left: Box::new(tom),
                            right: Box::new(ExprModel::Primitive(PrimitiveModel::Integer(1))),
                        });
                    } else {
                        assert(to_final@ == tom);
                    }
                }
                let rr = tree_splice(
                    Expression::For {
                        variable: tokens[1].lexeme.clone(),
                        from: Box::new(fr),
                        to: Box::new(to_final),
                        body: Box::new(body),
                    },
                    &tokens,
                    next,
                );
                proof {
                    assert(tm[1] == tokens@[1]@);
                    let j4 = find_either_kind(tm, 4, TokenType::DotDot, TokenType::DotDotEqual);
                    let i5s = pos_min(j4 + 1, tm.len() as int);
                    let j5 = find_kind(tm, i5s, TokenType::RightBracket);
                    let i6s = pos_min(j5 + 1, tm.len() as int);
                    let j6 = find_kind(tm, i6s, TokenType::RightBrace);
                    assert(token_models(from_toks@) == tm.subrange(4, j4));
                    assert(i5 as int == i5s);
                    assert(token_models(to_toks@) == tm.subrange(i5s, j5));
                    assert(i6 as int == i6s);
                    assert(token_models(body_toks@) == tm.subrange(
                        i6s,
                        pos_min(j6 + 1, tm.len() as int),
                    ));
                    assert(next as int == pos_min(j6 + 1, tm.len() as int));
                    assert(exclusive == (j4 < tm.len() && tm[j4].kind == TokenType::DotDot));
                    assert(translate_tokens(tm.subrange(4, j4)) == ParseOutcome::Parsed(fr@));
                    assert(outcome_matches(translate_tokens(tm), rr));
                }
                rr
            },
            TokenType::Let => {
                if n < 2 {
                    return Result::Err(
                        ParseError {
                            line: tokens[0].line,
                            expected: String::from_str("a variable name"),
                        },
                    );
                }
                let vstart: usize = if n < 3 {
                    n
                } else {
                    3
                };
                proof {
                    lemma_find_kind_bounds(tm, vstart as int, TokenType::EOL);
                    lemma_find_kind_bounds(tm, 3, TokenType::EOL);
                    if vstart != 3 {
                        assert(find_kind(tm, vstart as int, TokenType::EOL) == tm.len());
                        assert(find_kind(tm, 3, TokenType::EOL) == tm.len());
                    }
                }
                let (value_toks, next) = collect_until(&tokens, vstart, TokenType::EOL, true);
                proof {
                    assert(token_models(value_toks@).len() == value_toks@.len());
                    assert(value_toks@.len() < tokens@.len());
                }
                let value = match Translator::tree(value_toks) {
                    Result::Ok(e) => e,
                    Result::Err(pe) => {
                        return Result::Err(pe);
                    },
                };
                let scope_toks = suffix_tokens(&tokens, next);
                proof {
                    assert(token_models(scope_toks@).len() == scope_toks@.len());
                    assert(scope_toks@.len() < tokens@.len());
                }
                let scope = match Translator::tree(scope_toks) {
                    Result::Ok(e) => e,
                    Result::Err(pe) => {
                        return Result::Err(pe);
                    },
                };
                let mut variables: Vec<(String, ExpressionRef)> = Vec::new();
                let ghost vm = value@;
                variables.push((tokens[1].lexeme.clone(), Box::new(value)));
                proof {
                    crate::expression::lemma_binding_models(variables@);
                    assert(crate::expression::binding_models(variables@) =~= seq![
                        (tm[1].lexeme, vm),
                    ]);
                    assert(tm[1] == tokens@[1]@);
                }
                let rr = Result::<Expression, ParseError>::Ok(
                    Expression::Let { variables, scope: Box::new(scope) },
                );
                proof {
                    assert(outcome_matches(translate_tokens(tm), rr));
                }
                rr
            },
            TokenType::Identifier => {
                let rr = tree_splice(
                    Expression::Use { variable: tokens[0].lexeme.clone() },
                    &tokens,
                    1,
                );
                proof {
                    assert(outcome_matches(translate_tokens(tm), rr));
                }
                rr
            },
            TokenType::EOL => {
                let rest = suffix_tokens(&tokens, 1);
                proof {
                    assert(token_models(rest@).len() == rest@.len());
                    assert(rest@.len() < tokens@.len());
                }
                let rr = match Translator::tree(rest) {
                    Result::Ok(e) => Result::<Expression, ParseError>::Ok(
                        Expression::Chain {
                            left: Box::new(e),
                            right: Box::new(Expression::Empty),
                        },
                    ),
                    Result::Err(pe) => Result::Err(pe),
                };
                proof {
                    reveal_with_fuel(expr_model, 3);
                    assert(outcome_matches(translate_tokens(tm), rr));
                }
                rr
            },
            TokenType::Else => {
                let rest = suffix_tokens(&tokens, 1);
                proof {
                    assert(token_models(rest@).len() == rest@.len());
                    assert(rest@.len() < tokens@.len());
                }
                let rr = match Translator::tree(rest) {
                    Result::Ok(e) => Result::<Expression, ParseError>::Ok(
                        Expression::Group(Box::new(e)),
                    ),
                    Result::Err(pe) => Result::Err(pe),
                };
                proof {
                    assert(outcome_matches(translate_tokens(tm), rr));
                }
                rr
            },
            _ => {
                let rr = tree_splice(Expression::Empty, &tokens, 1);
                proof {
                    assert(outcome_matches(translate_tokens(tm), rr));
                }
                rr
            },
        }
    }
}

} // verus!

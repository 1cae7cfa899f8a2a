//! A small prefix-notation scripting language: a scanner turns source text
//! into tokens, a translator turns tokens into an expression tree, and an
//! evaluator runs the tree against a persistent variable environment.

pub mod environment;
pub mod evaluation;
pub mod expression;
pub mod interpretation;
pub mod laws;
pub mod numbers;
pub mod scanner;
pub mod token;
pub mod translator;
pub mod values;

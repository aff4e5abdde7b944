//! A front end for a small expression language: a lexer, a precedence-climbing
//! parser, a syntax tree with a visitor interface, a symbol checker, an
//! evaluator and a diagnostics printer, each with a machine-checked contract.

pub mod ast;
pub mod diagnostics;
pub mod pipeline;
pub mod prelude;
pub mod text;

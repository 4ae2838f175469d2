//! The front end of a small expression-and-statement language: a lexer, a
//! precedence-climbing parser that recovers from malformed input, a
//! diagnostics bag with a source-context printer, symbol resolution and a
//! tree-walking evaluator. Each stage is stated over a mathematical model of
//! its input and output and proved to meet it.
use vstd::prelude::*;

pub mod ast;
pub mod compilation_unit;
pub mod diagnostics;
pub mod evaluator;
pub mod laws;
pub mod lexer;
pub mod parser;
pub mod printer;
pub mod resolver;
pub mod text;

verus! {

} // verus!

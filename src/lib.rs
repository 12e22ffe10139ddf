//! A tree-walking interpreter for a small gradually typed scripting language:
//! a lexer, a precedence-climbing parser whose results are stated by the
//! grammar in `grammar`, and an evaluator over a stack of scoped bindings and
//! a heap of anonymous slots.
pub mod ast;
pub mod environment;
pub mod error;
pub mod evaluator;
pub mod grammar;
pub mod laws;
pub mod lexer;
pub mod object;
pub mod operators;
pub mod parser;
pub mod token;

//! A tree-walking interpreter for a small C-like teaching language: a lexer,
//! a recursive-descent parser and an evaluator, each proved against a
//! mathematical model of what it computes.

pub mod ast;
pub mod budget;
pub mod error;
pub mod grammar;
pub mod interpreter;
pub mod laws;
pub mod lexer;
pub mod parser;
pub mod progress;
pub mod scanning;
pub mod scoping;
pub mod semantics;
pub mod text;
pub mod vm;

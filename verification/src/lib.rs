//! A small expression-language front end: a tokenizer, a precedence-climbing
//! recursive-descent parser, and a tree-walking evaluator with a mutable
//! variable environment.

pub mod chars;
pub mod command;
pub mod errors;
pub mod evaluator;
pub mod lexer;
pub mod parser;

//! The error taxonomy: one independent error type per pipeline stage.

use vstd::prelude::*;

verus! {

/// Errors produced by the tokenizer.
#[derive(Debug, PartialEq)]
pub enum LexerError {
    InvalidToken(String),
    InvalidIdentifier(String),
}

/// Errors produced by the parser.
#[derive(Debug, PartialEq)]
pub enum ParseError {
    UnexpectedEndOfInput,
    MissingClosingParenthesis,
    UnexpectedToken(String),
    UnexpectedTokensAtEnd,
}

/// Errors produced when reading a command line.
#[derive(Debug, PartialEq)]
pub enum InputError {
    ReadError,
    EmptyInput,
}

/// Errors produced by the evaluator.
#[derive(Debug, PartialEq)]
pub enum EvaluationError {
    DivisionByZero,
    InvalidOperation,
    NotAFunction,
    Undefined,
    UndefinedVariable(String),
    CannotAssignAConstant(String),
}

} // verus!

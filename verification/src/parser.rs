//! The parser: builds an abstract syntax tree from the token sequence by
//! precedence-climbing recursive descent.

use vstd::prelude::*;
use crate::errors::ParseError;
use crate::lexer::{Token, TokenType, TokenV, toks_view, spec_is_float_literal, is_float_literal};

verus! {

/// An abstract syntax tree node. Every non-leaf node exclusively owns its
/// children; the tree is finite and well-formed by construction. A number
/// leaf carries the literal exactly as it was written; its numeric value is
/// produced during evaluation.
#[derive(Debug, PartialEq)]
pub enum AstNode {
    Number(String),
    UnaryOp { operator: TokenType, operand: Box<AstNode> },
    BinaryOp { operator: TokenType, operand_1: Box<AstNode>, operand_2: Box<AstNode> },
    Function { function: TokenType, args: Box<AstNode> },
    Assignment { name: String, value: Box<AstNode> },
    Variable(String),
}

/// The mathematical image of a syntax tree.
pub enum AstV {
    Number(Seq<char>),
    UnaryOp { operator: TokenType, operand: Box<AstV> },
    BinaryOp { operator: TokenType, operand_1: Box<AstV>, operand_2: Box<AstV> },
    Function { function: TokenType, args: Box<AstV> },
    Assignment { name: Seq<char>, value: Box<AstV> },
    Variable(Seq<char>),
}

/// The image of a syntax tree.
pub open spec fn ast_view(n: AstNode) -> AstV
    decreases n,
{
    match n {
        AstNode::Number(s) => AstV::Number(s@),
        AstNode::UnaryOp { operator, operand } => AstV::UnaryOp {
            operator,
            operand: Box::new(ast_view(*operand)),
        },
        AstNode::BinaryOp { operator, operand_1, operand_2 } => AstV::BinaryOp {
            operator,
            operand_1: Box::new(ast_view(*operand_1)),
            operand_2: Box::new(ast_view(*operand_2)),
        },
        AstNode::Function { function, args } => AstV::Function {
            function,
            args: Box::new(ast_view(*args)),
        },
        AstNode::Assignment { name, value } => AstV::Assignment {
            name: name@,
            value: Box::new(ast_view(*value)),
        },
        AstNode::Variable(s) => AstV::Variable(s@),
    }
}

impl View for AstNode {
    type V = AstV;

    open spec fn view(&self) -> AstV {
        ast_view(*self)
    }
}

/// The image of a parse error.
pub enum ParseErrV {
    UnexpectedEndOfInput,
    MissingClosingParenthesis,
    UnexpectedToken(Seq<char>),
    UnexpectedTokensAtEnd,
}

impl View for ParseError {
    type V = ParseErrV;

    open spec fn view(&self) -> ParseErrV {
        match self {
            ParseError::UnexpectedEndOfInput => ParseErrV::UnexpectedEndOfInput,
            ParseError::MissingClosingParenthesis => ParseErrV::MissingClosingParenthesis,
            ParseError::UnexpectedToken(s) => ParseErrV::UnexpectedToken(s@),
            ParseError::UnexpectedTokensAtEnd => ParseErrV::UnexpectedTokensAtEnd,
        }
    }
}

// ------------------------------------------------------------------
// Operator metadata.
// ------------------------------------------------------------------

/// Binding precedence: negation and function application bind tightest, then
/// exponentiation, then multiplication and division, then addition and
/// subtraction; everything else is the stop sentinel 0.
pub open spec fn spec_precedence(tt: TokenType) -> int {
    match tt {
        TokenType::Negation => 4,
        TokenType::Keyword(_) => 4,
        TokenType::Exponentiation => 3,
        TokenType::Multiplication => 2,
        TokenType::Division => 2,
        TokenType::Addition => 1,
        TokenType::Subtraction => 1,
        _ => 0,
    }
}

/// Exponentiation is the one right-associative operator.
pub open spec fn spec_right_assoc(tt: TokenType) -> bool {
    tt == TokenType::Exponentiation
}

impl TokenType {
    pub fn get_precedence(&self) -> (p: u8)
        ensures
            p as int == spec_precedence(*self),
    {
        match self {
            TokenType::Negation => 4,
            TokenType::Keyword(_) => 4,
            TokenType::Exponentiation => 3,
            TokenType::Multiplication => 2,
            TokenType::Division => 2,
            TokenType::Addition => 1,
            TokenType::Subtraction => 1,
            _ => 0,
        }
    }

    pub fn is_right_associative(&self) -> (b: bool)
        ensures
            b == spec_right_assoc(*self),
    {
        matches!(self, TokenType::Exponentiation)
    }
}

// ------------------------------------------------------------------
// The grammar, as three mutually recursive functions.
// ------------------------------------------------------------------

/// One primary expression starting at `pos`: a number, a parenthesized
/// expression, a negation or function keyword applied to a primary, an
/// assignment, or a bare variable.
pub open spec fn spec_parse_primary(ts: Seq<TokenV>, pos: int) -> Result<(AstV, int), ParseErrV>
    decreases ts.len() - pos, 0int when 0 <= pos
{
    if pos >= ts.len() {
        Err(ParseErrV::UnexpectedEndOfInput)
    } else {
        let t = ts[pos];
        match t.token_type {
            TokenType::Number => if spec_is_float_literal(t.lexeme) {
                Ok((AstV::Number(t.lexeme), pos + 1))
            } else {
                Err(ParseErrV::UnexpectedToken(t.lexeme))
            },
            TokenType::LeftParenthesis => match spec_parse_expression(ts, pos + 1, 0) {
                Err(e) => Err(e),
                Ok((inner, p2)) => if p2 < ts.len() && ts[p2].token_type
                    == TokenType::RightParenthesis {
                    Ok((inner, p2 + 1))
                } else {
                    Err(ParseErrV::MissingClosingParenthesis)
                },
            },
            TokenType::Negation => match spec_parse_primary(ts, pos + 1) {
                Err(e) => Err(e),
                Ok((operand, p2)) => Ok(
                    (
                        AstV::UnaryOp {
                            operator: TokenType::Negation,
                            operand: Box::new(operand),
                        },
                        p2,
                    ),
                ),
            },
            TokenType::Keyword(f) => match spec_parse_primary(ts, pos + 1) {
                Err(e) => Err(e),
                Ok((value, p2)) => Ok(
                    (
                        AstV::Function {
                            function: TokenType::Keyword(f),
                            args: Box::new(value),
                        },
                        p2,
                    ),
                ),
            },
            TokenType::Identifier => if pos + 1 < ts.len() && ts[pos + 1].token_type
                == TokenType::Equals {
                match spec_parse_expression(ts, pos + 2, 0) {
                    Err(e) => Err(e),
                    Ok((value, p2)) => Ok(
                        (AstV::Assignment { name: t.lexeme, value: Box::new(value) }, p2),
                    ),
                }
            } else {
                Ok((AstV::Variable(t.lexeme), pos + 1))
            },
            _ => Err(ParseErrV::UnexpectedToken(t.lexeme)),
        }
    }
}

/// The precedence-climbing loop: while the next token is an operator binding
/// at least as tightly as `min_prec`, parse its right operand and fold it
/// into `left`. Left-associative operators raise the minimum for the right
/// operand by one; the right-associative one keeps it.
pub open spec fn spec_parse_expr_loop(
    ts: Seq<TokenV>,
    left: AstV,
    pos: int,
    min_prec: int,
) -> Result<(AstV, int), ParseErrV>
    decreases ts.len() - pos, 1int when 0 <= pos
{
    if pos < ts.len() && spec_precedence(ts[pos].token_type) >= min_prec && spec_precedence(
        ts[pos].token_type,
    ) > 0 {
        let op = ts[pos].token_type;
        let next_min = if spec_right_assoc(op) {
            spec_precedence(op)
        } else {
            spec_precedence(op) + 1
        };
        match spec_parse_expression(ts, pos + 1, next_min) {
            Err(e) => Err(e),
            Ok((right, p2)) => {
                let p3 = if p2 > pos + 1 && p2 <= ts.len() {
                    p2
                } else {
                    pos + 1
                };
                spec_parse_expr_loop(
                    ts,
                    AstV::BinaryOp {
                        operator: op,
                        operand_1: Box::new(left),
                        operand_2: Box::new(right),
                    },
                    p3,
                    min_prec,
                )
            },
        }
    } else {
        Ok((left, pos))
    }
}

/// A full expression starting at `pos` with minimum binding `min_prec`.
pub open spec fn spec_parse_expression(
    ts: Seq<TokenV>,
    pos: int,
    min_prec: int,
) -> Result<(AstV, int), ParseErrV>
    decreases ts.len() - pos, 2int when 0 <= pos
{
    match spec_parse_primary(ts, pos) {
        Err(e) => Err(e),
        Ok((left, p2)) => {
            let p3 = if p2 > pos && p2 <= ts.len() {
                p2
            } else if pos < ts.len() {
                pos + 1
            } else {
                pos
            };
            spec_parse_expr_loop(ts, left, p3, min_prec)
        },
    }
}

/// The whole token sequence as one expression; trailing tokens are an error.
pub open spec fn spec_construct_ast(ts: Seq<TokenV>) -> Result<AstV, ParseErrV> {
    match spec_parse_expression(ts, 0, 0) {
        Err(e) => Err(e),
        Ok((ast, p)) => if p < ts.len() {
            Err(ParseErrV::UnexpectedTokensAtEnd)
        } else {
            Ok(ast)
        },
    }
}

// ------------------------------------------------------------------
// The executable parser.
// ------------------------------------------------------------------

/// Parses one primary expression at `pos`.
pub fn parse_primary(tokens: &Vec<Token>, pos: usize) -> (r: Result<(AstNode, usize), ParseError>)
    ensures
        match spec_parse_primary(toks_view(tokens@), pos as int) {
            Ok((ast, p)) => {
                &&& r matches Ok((a, q)) && a@ == ast && q as int == p
                &&& pos < p <= tokens@.len()
            },
            Err(e) => r matches Err(x) && x@ == e,
        },
    decreases tokens@.len() - pos, 0int,
{
    if pos >= tokens.len() {
        return Err(ParseError::UnexpectedEndOfInput);
    }
    match &tokens[pos].token_type {
        TokenType::Number => {
            if is_float_literal(tokens[pos].lexeme.as_str()) {
                Ok((AstNode::Number(tokens[pos].lexeme.clone()), pos + 1))
            } else {
                Err(ParseError::UnexpectedToken(tokens[pos].lexeme.clone()))
            }
        },
        TokenType::LeftParenthesis => {
            let (inner, p2) = match parse_expression(tokens, pos + 1, 0) {
                Ok(x) => x,
                Err(e) => {
                    return Err(e);
                },
            };
            if p2 < tokens.len() && tokens[p2].token_type == TokenType::RightParenthesis {
                Ok((inner, p2 + 1))
            } else {
                Err(ParseError::MissingClosingParenthesis)
            }
        },
        TokenType::Negation => {
            let (operand, p2) = match parse_primary(tokens, pos + 1) {
                Ok(x) => x,
                Err(e) => {
                    return Err(e);
                },
            };
            Ok((AstNode::UnaryOp { operator: TokenType::Negation, operand: Box::new(operand) }, p2))
        },
        TokenType::Keyword(f) => {
            let function = TokenType::Keyword(*f);
            let (value, p2) = match parse_primary(tokens, pos + 1) {
                Ok(x) => x,
                Err(e) => {
                    return Err(e);
                },
            };
            Ok((AstNode::Function { function, args: Box::new(value) }, p2))
        },
        TokenType::Identifier => {
            let name = tokens[pos].lexeme.clone();
            if pos + 1 < tokens.len() && tokens[pos + 1].token_type == TokenType::Equals {
                let (value, p2) = match parse_expression(tokens, pos + 2, 0) {
                    Ok(x) => x,
                    Err(e) => {
                        return Err(e);
                    },
                };
                Ok((AstNode::Assignment { name, value: Box::new(value) }, p2))
            } else {
                Ok((AstNode::Variable(name), pos + 1))
            }
        },
        _ => Err(ParseError::UnexpectedToken(tokens[pos].lexeme.clone())),
    }
}

/// Parses a full expression at `pos` with minimum binding `min_precedence`.
pub fn parse_expression(tokens: &Vec<Token>, pos: usize, min_precedence: u8) -> (r: Result<
    (AstNode, usize),
    ParseError,
>)
    ensures
        match spec_parse_expression(toks_view(tokens@), pos as int, min_precedence as int) {
            Ok((ast, p)) => {
                &&& r matches Ok((a, q)) && a@ == ast && q as int == p
                &&& pos < p <= tokens@.len()
            },
            Err(e) => r matches Err(x) && x@ == e,
        },
    decreases tokens@.len() - pos, 2int,
{
    let ghost tv = toks_view(tokens@);
    let (mut left, mut p) = match parse_primary(tokens, pos) {
        Ok(x) => x,
        Err(e) => {
            return Err(e);
        },
    };
    while p < tokens.len()
        invariant
            pos < p <= tokens@.len(),
            spec_parse_expr_loop(toks_view(tokens@), left@, p as int, min_precedence as int)
                == spec_parse_expression(toks_view(tokens@), pos as int, min_precedence as int),
        ensures
            pos < p <= tokens@.len(),
            spec_parse_expr_loop(toks_view(tokens@), left@, p as int, min_precedence as int)
                == spec_parse_expression(toks_view(tokens@), pos as int, min_precedence as int),
            p == tokens@.len() || !(spec_precedence(toks_view(tokens@)[p as int].token_type)
                >= min_precedence && spec_precedence(toks_view(tokens@)[p as int].token_type) > 0),
        decreases tokens@.len() - p,
    {
        let prec = tokens[p].token_type.get_precedence();
        if prec < min_precedence || prec == 0 {
            break;
        }
        let next_min = if tokens[p].token_type.is_right_associative() {
            prec
        } else {
            prec + 1
        };
        let operator = tokens[p].token_type;
        let (right, p2) = match parse_expression(tokens, p + 1, next_min) {
            Ok(x) => x,
            Err(e) => {
                return Err(e);
            },
        };
        left = AstNode::BinaryOp {
            operator,
            operand_1: Box::new(left),
            operand_2: Box::new(right),
        };
        p = p2;
    }
    Ok((left, p))
}

/// Parses the whole token sequence into one syntax tree; any unconsumed
/// trailing token is an error.
pub fn construct_ast(tokens: &Vec<Token>) -> (r: Result<AstNode, ParseError>)
    ensures
        match spec_construct_ast(toks_view(tokens@)) {
            Ok(ast) => r matches Ok(a) && a@ == ast,
            Err(e) => r matches Err(x) && x@ == e,
        },
{
    let (ast, pos) = match parse_expression(tokens, 0, 0) {
        Ok(x) => x,
        Err(e) => {
            return Err(e);
        },
    };
    if pos < tokens.len() {
        return Err(ParseError::UnexpectedTokensAtEnd);
    }
    Ok(ast)
}

} // verus!

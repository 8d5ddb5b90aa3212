//! The evaluator: a tree walk over the syntax tree against a mutable
//! variable environment.
//!
//! Numbers are IEEE-754 double-precision values carried as their 64 bit
//! patterns, so every decision the evaluator makes (division by zero, the
//! tangent pole test, negation, error propagation, the environment) is
//! verified here. The primitive numeric operations themselves (parsing a
//! literal, adding, multiplying, the trigonometric functions) are
//! floating-point work that the verifier does not model; the evaluator asks
//! its caller for them, one `OpRequest` at a time, and reads the answers
//! back from an `oracle` of bit patterns, consumed left to right. A driver
//! loop re-runs the evaluation with one more answer each time until it
//! reports `Done`. The contracts state the outcome exactly, for every tree,
//! environment and oracle.

use vstd::prelude::*;
use crate::chars::str_eq;
use crate::errors::EvaluationError;
use crate::lexer::TokenType;
use crate::parser::{AstNode, AstV};

verus! {

/// The named functions the language knows.
#[derive(Clone, Copy, PartialEq, Eq, Structural, Debug)]
pub enum Function {
    Sin,
    Cos,
    Tan,
}

/// Whether `name` is one of the six reserved constant names.
pub open spec fn is_const_name(name: Seq<char>) -> bool {
    ||| name == "pi"@
    ||| name == "e"@
    ||| name == "phi"@
    ||| name == "tau"@
    ||| name == "sqrt2"@
    ||| name == "sqrt3"@
}

/// Whether `name` is one of the six reserved constant names.
pub fn is_const_str(name: &str) -> (b: bool)
    ensures
        b == is_const_name(name@),
{
    str_eq(name, "pi") || str_eq(name, "e") || str_eq(name, "phi") || str_eq(name, "tau")
        || str_eq(name, "sqrt2") || str_eq(name, "sqrt3")
}

// ------------------------------------------------------------------
// Bit patterns of the double-precision values the evaluator names.
// ------------------------------------------------------------------

/// Bits of the circle constant.
pub const PI_BITS: u64 = 0x400921FB54442D18;

/// Bits of Euler's number.
pub const E_BITS: u64 = 0x4005BF0A8B145769;

/// Bits of the golden ratio.
pub const PHI_BITS: u64 = 0x3FF9E3779B97F4A8;

/// Bits of the full turn, twice the circle constant.
pub const TAU_BITS: u64 = 0x401921FB54442D18;

/// Bits of the square root of two.
pub const SQRT2_BITS: u64 = 0x3FF6A09E667F3BCD;

/// Bits of the square root of three.
pub const SQRT3_BITS: u64 = 0x3FFBB67AE8584CAA;

/// Bits of two divided by the circle constant.
pub const TWO_OVER_PI_BITS: u64 = 0x3FE45F306DC9C883;

/// Bits of half the circle constant.
pub const FRAC_PI_2_BITS: u64 = 0x3FF921FB54442D18;

/// Bits of the fixed absolute tolerance of the tangent pole test.
pub const TAN_TOLERANCE_BITS: u64 = 0x3DDB7CDFD9D7BDBB;

/// The sign bit of a double-precision value.
pub const SIGN_MASK: u64 = 0x8000_0000_0000_0000;

/// Everything but the sign bit; a value is zero exactly when these bits are.
pub const MAGNITUDE_MASK: u64 = 0x7FFF_FFFF_FFFF_FFFF;

// ------------------------------------------------------------------
// The environment.
// ------------------------------------------------------------------

/// The variable environment: a mapping from names to double-precision bit
/// patterns. The six reserved constants are ordinary entries, pre-populated
/// at creation; what protects them is that `set_variable` refuses their
/// names.
pub struct Environment {
    variables: Vec<(String, u64)>,
}

/// The mapping an entry list stands for; a later entry for a name wins.
pub open spec fn assoc_map(s: Seq<(String, u64)>) -> Map<Seq<char>, u64>
    decreases s.len(),
{
    if s.len() == 0 {
        Map::empty()
    } else {
        assoc_map(s.drop_last()).insert(s.last().0@, s.last().1)
    }
}

impl View for Environment {
    type V = Map<Seq<char>, u64>;

    closed spec fn view(&self) -> Map<Seq<char>, u64> {
        assoc_map(self.variables@)
    }
}

proof fn lemma_assoc_push(s: Seq<(String, u64)>, e: (String, u64))
    ensures
        assoc_map(s.push(e)) == assoc_map(s).insert(e.0@, e.1),
{
    assert(s.push(e).drop_last() =~= s);
}

proof fn lemma_assoc_found(s: Seq<(String, u64)>, i: int, k: Seq<char>)
    requires
        0 <= i < s.len(),
        s[i].0@ == k,
        forall|j: int| i < j < s.len() ==> s[j].0@ != k,
    ensures
        assoc_map(s).contains_key(k),
        assoc_map(s)[k] == s[i].1,
    decreases s.len(),
{
    if i == s.len() - 1 {
    } else {
        assert(s.drop_last()[i] == s[i]);
        lemma_assoc_found(s.drop_last(), i, k);
    }
}

proof fn lemma_assoc_absent(s: Seq<(String, u64)>, k: Seq<char>)
    requires
        forall|j: int| 0 <= j < s.len() ==> s[j].0@ != k,
    ensures
        !assoc_map(s).contains_key(k),
    decreases s.len(),
{
    if s.len() > 0 {
        lemma_assoc_absent(s.drop_last(), k);
    }
}

/// The six named constants at their standard double-precision values, and
/// nothing else.
pub open spec fn consts_map() -> Map<Seq<char>, u64> {
    Map::<Seq<char>, u64>::empty().insert("pi"@, PI_BITS).insert("e"@, E_BITS).insert(
        "phi"@,
        PHI_BITS,
    ).insert("tau"@, TAU_BITS).insert("sqrt2"@, SQRT2_BITS).insert("sqrt3"@, SQRT3_BITS)
}

impl Environment {
    /// A fresh environment: the six named constants are already bound, and
    /// there are no user variables.
    pub fn new() -> (e: Environment)
        ensures
            e@ == consts_map(),
    {
        let mut e = Environment { variables: Vec::new() };
        proof {
            assert(e@ =~= Map::<Seq<char>, u64>::empty());
        }
        e.init_consts();
        e
    }

    /// Binds `name`, unless it names a reserved constant: that attempt is
    /// rejected and the environment is left exactly as it was.
    pub fn set_variable(&mut self, name: String, value: u64) -> (r: Option<EvaluationError>)
        ensures
            match r {
                Some(e) => {
                    &&& is_const_name(name@)
                    &&& e matches EvaluationError::CannotAssignAConstant(n) && n@ == name@
                    &&& final(self)@ == old(self)@
                },
                None => {
                    &&& !is_const_name(name@)
                    &&& final(self)@ == old(self)@.insert(name@, value)
                },
            },
    {
        if is_const_str(name.as_str()) {
            return Some(EvaluationError::CannotAssignAConstant(name));
        }
        proof {
            lemma_assoc_push(self.variables@, (name, value));
        }
        self.variables.push((name, value));
        None
    }

    /// Looks a name up; constants sit alongside user variables.
    pub fn get_variable(&self, name: &str) -> (r: Option<u64>)
        ensures
            match r {
                Some(v) => self@.contains_key(name@) && self@[name@] == v,
                None => !self@.contains_key(name@),
            },
    {
        let mut i = self.variables.len();
        while i > 0
            invariant
                i <= self.variables.len(),
                forall|j: int| i <= j < self.variables@.len() ==> self.variables@[j].0@ != name@,
            decreases i,
        {
            i = i - 1;
            if str_eq(self.variables[i].0.as_str(), name) {
                proof {
                    lemma_assoc_found(self.variables@, i as int, name@);
                }
                return Some(self.variables[i].1);
            }
        }
        proof {
            lemma_assoc_absent(self.variables@, name@);
        }
        None
    }

    /// Puts in the six named constants at their double-precision values;
    /// `new` establishes them this way, and running it again rebinds them to
    /// the same values.
    pub fn init_consts(&mut self)
        ensures
            final(self)@ == old(self)@.insert("pi"@, PI_BITS).insert("e"@, E_BITS).insert(
                "phi"@,
                PHI_BITS,
            ).insert("tau"@, TAU_BITS).insert("sqrt2"@, SQRT2_BITS).insert("sqrt3"@, SQRT3_BITS),
    {
        self.push_const("pi", PI_BITS);
        self.push_const("e", E_BITS);
        self.push_const("phi", PHI_BITS);
        self.push_const("tau", TAU_BITS);
        self.push_const("sqrt2", SQRT2_BITS);
        self.push_const("sqrt3", SQRT3_BITS);
    }

    fn push_const(&mut self, name: &str, bits: u64)
        ensures
            final(self)@ == old(self)@.insert(name@, bits),
    {
        let owned = name.to_owned();
        proof {
            lemma_assoc_push(self.variables@, (owned, bits));
        }
        self.variables.push((owned, bits));
    }
}

// ------------------------------------------------------------------
// Results, requests, and their images.
// ------------------------------------------------------------------

/// What one evaluation produces: a plain value, or a completed binding
/// echoed so the caller can report it.
#[derive(Debug, PartialEq)]
pub enum EvalResult {
    Value(u64),
    Assignment(String, u64),
}

/// The image of an evaluation result.
pub enum EvalResultV {
    Value(u64),
    Assignment(Seq<char>, u64),
}

impl View for EvalResult {
    type V = EvalResultV;

    open spec fn view(&self) -> EvalResultV {
        match self {
            EvalResult::Value(v) => EvalResultV::Value(*v),
            EvalResult::Assignment(n, v) => EvalResultV::Assignment(n@, *v),
        }
    }
}

/// The image of an evaluation error.
pub enum EvalErrV {
    DivisionByZero,
    InvalidOperation,
    NotAFunction,
    Undefined,
    UndefinedVariable(Seq<char>),
    CannotAssignAConstant(Seq<char>),
}

impl View for EvaluationError {
    type V = EvalErrV;

    open spec fn view(&self) -> EvalErrV {
        match self {
            EvaluationError::DivisionByZero => EvalErrV::DivisionByZero,
            EvaluationError::InvalidOperation => EvalErrV::InvalidOperation,
            EvaluationError::NotAFunction => EvalErrV::NotAFunction,
            EvaluationError::Undefined => EvalErrV::Undefined,
            EvaluationError::UndefinedVariable(n) => EvalErrV::UndefinedVariable(n@),
            EvaluationError::CannotAssignAConstant(n) => EvalErrV::CannotAssignAConstant(n@),
        }
    }
}

/// The image of a finished evaluation.
pub open spec fn out_view(r: Result<EvalResult, EvaluationError>) -> Result<
    EvalResultV,
    EvalErrV,
> {
    match r {
        Ok(v) => Ok(v@),
        Err(e) => Err(e@),
    }
}

/// One primitive numeric operation the evaluator asks its caller for, on
/// double-precision bit patterns: parse a literal, an arithmetic operation,
/// a trigonometric function, or truncation to a 64-bit integer (whose two's
/// complement is handed back).
#[derive(Debug, PartialEq)]
pub enum OpRequest {
    Parse(String),
    Add(u64, u64),
    Sub(u64, u64),
    Mul(u64, u64),
    Div(u64, u64),
    Pow(u64, u64),
    Sin(u64),
    Cos(u64),
    Tan(u64),
    Trunc(u64),
}

/// The image of a request.
pub enum OpRequestV {
    Parse(Seq<char>),
    Add(u64, u64),
    Sub(u64, u64),
    Mul(u64, u64),
    Div(u64, u64),
    Pow(u64, u64),
    Sin(u64),
    Cos(u64),
    Tan(u64),
    Trunc(u64),
}

impl View for OpRequest {
    type V = OpRequestV;

    open spec fn view(&self) -> OpRequestV {
        match self {
            OpRequest::Parse(s) => OpRequestV::Parse(s@),
            OpRequest::Add(a, b) => OpRequestV::Add(*a, *b),
            OpRequest::Sub(a, b) => OpRequestV::Sub(*a, *b),
            OpRequest::Mul(a, b) => OpRequestV::Mul(*a, *b),
            OpRequest::Div(a, b) => OpRequestV::Div(*a, *b),
            OpRequest::Pow(a, b) => OpRequestV::Pow(*a, *b),
            OpRequest::Sin(a) => OpRequestV::Sin(*a),
            OpRequest::Cos(a) => OpRequestV::Cos(*a),
            OpRequest::Tan(a) => OpRequestV::Tan(*a),
            OpRequest::Trunc(a) => OpRequestV::Trunc(*a),
        }
    }
}

/// One step of the driver loop: the evaluation either finished, or needs the
/// answer to one more primitive operation appended to the oracle.
#[derive(Debug, PartialEq)]
pub enum EvalStep {
    Done(Result<EvalResult, EvaluationError>),
    Need(OpRequest),
}

impl TokenType {
    /// The numeric semantics of a unary operator on the bit pattern
    /// `operand`: negation of an IEEE-754 double is exactly the sign-bit
    /// flip (also of a not-a-number); any other category is an invalid
    /// operation.
    pub fn apply_unary(&self, operand: u64) -> (r: Result<u64, EvaluationError>)
        ensures
            *self == TokenType::Negation ==> r == Ok::<u64, EvaluationError>(
                operand ^ SIGN_MASK,
            ),
            *self != TokenType::Negation ==> (r matches Err(e) && e@
                == EvalErrV::InvalidOperation),
    {
        match self {
            TokenType::Negation => Ok(operand ^ SIGN_MASK),
            _ => Err(EvaluationError::InvalidOperation),
        }
    }

    /// Which primitive operation this category, as a binary operator, asks
    /// its caller for on the operand bit patterns, or why none applies:
    /// division by a zero-valued divisor is `DivisionByZero` before any
    /// division is requested, and a category that is not a binary operator
    /// is `InvalidOperation`.
    pub fn apply_binary(&self, operand_1: u64, operand_2: u64) -> (r: Result<
        OpRequest,
        EvaluationError,
    >)
        ensures
            match spec_binary_request(*self, operand_1, operand_2) {
                Ok(q) => r matches Ok(req) && req@ == q,
                Err(e) => r matches Err(x) && x@ == e,
            },
    {
        match self {
            TokenType::Exponentiation => Ok(OpRequest::Pow(operand_1, operand_2)),
            TokenType::Multiplication => Ok(OpRequest::Mul(operand_1, operand_2)),
            TokenType::Division => {
                if operand_2 & MAGNITUDE_MASK == 0 {
                    Err(EvaluationError::DivisionByZero)
                } else {
                    Ok(OpRequest::Div(operand_1, operand_2))
                }
            },
            TokenType::Addition => Ok(OpRequest::Add(operand_1, operand_2)),
            TokenType::Subtraction => Ok(OpRequest::Sub(operand_1, operand_2)),
            _ => Err(EvaluationError::InvalidOperation),
        }
    }

    /// Applies this category as a function keyword to the bit pattern
    /// `value`, reading the answers to its primitive operations from the
    /// oracle at `at`: the value or error it comes to with the position
    /// after it, or `Err(request)` asking the caller for one more answer.
    pub fn apply_function(&self, value: u64, oracle: &Vec<u64>, at: usize) -> (r: Result<
        (Result<u64, EvaluationError>, usize),
        OpRequest,
    >)
        ensures
            match spec_function_outcome(*self, value, oracle@, at as int) {
                Ok((out, a2)) => r matches Ok((o, q)) && num_out_view(o) == out && q as int == a2,
                Err(q) => r matches Err(req) && req@ == q,
            },
    {
        match self {
            TokenType::Keyword(Function::Sin) => {
                if at < oracle.len() {
                    Ok((Ok(oracle[at]), at + 1))
                } else {
                    Err(OpRequest::Sin(value))
                }
            },
            TokenType::Keyword(Function::Cos) => {
                if at < oracle.len() {
                    Ok((Ok(oracle[at]), at + 1))
                } else {
                    Err(OpRequest::Cos(value))
                }
            },
            TokenType::Keyword(Function::Tan) => {
                let (k, b1) = if at < oracle.len() {
                    (oracle[at], at + 1)
                } else {
                    return Err(OpRequest::Mul(value, TWO_OVER_PI_BITS));
                };
                let (m, b2) = if b1 < oracle.len() {
                    (oracle[b1], b1 + 1)
                } else {
                    return Err(OpRequest::Mul(k, FRAC_PI_2_BITS));
                };
                let (d, b3) = if b2 < oracle.len() {
                    (oracle[b2], b2 + 1)
                } else {
                    return Err(OpRequest::Sub(value, m));
                };
                if (d & MAGNITUDE_MASK) < TAN_TOLERANCE_BITS {
                    let (t, b4) = if b3 < oracle.len() {
                        (oracle[b3], b3 + 1)
                    } else {
                        return Err(OpRequest::Trunc(k));
                    };
                    if t & 1 == 1 {
                        Ok((Err(EvaluationError::Undefined), b4))
                    } else if b4 < oracle.len() {
                        Ok((Ok(oracle[b4]), b4 + 1))
                    } else {
                        Err(OpRequest::Tan(value))
                    }
                } else if b3 < oracle.len() {
                    Ok((Ok(oracle[b3]), b3 + 1))
                } else {
                    Err(OpRequest::Tan(value))
                }
            },
            _ => Ok((Err(EvaluationError::NotAFunction), at)),
        }
    }
}

// ------------------------------------------------------------------
// The evaluation relation.
// ------------------------------------------------------------------

/// What one sub-evaluation comes to: a request for the caller, a value with
/// the oracle position after it, or a halt of the whole evaluation (an error,
/// or a completed assignment) with the environment it leaves behind.
pub enum SpecStep {
    Req(OpRequestV),
    Val { v: u64, at: int },
    Halt { out: Result<EvalResultV, EvalErrV>, env: Map<Seq<char>, u64>, at: int },
}

/// Reads the next oracle answer, or asks for `q`.
pub open spec fn spec_take(oracle: Seq<u64>, at: int, q: OpRequestV) -> SpecStep {
    if 0 <= at < oracle.len() {
        SpecStep::Val { v: oracle[at], at: at + 1 }
    } else {
        SpecStep::Req(q)
    }
}

/// The image of a numeric sub-result: a value's bit pattern, or the error
/// that halts the evaluation.
pub open spec fn num_out_view(o: Result<u64, EvaluationError>) -> Result<u64, EvalErrV> {
    match o {
        Ok(v) => Ok(v),
        Err(e) => Err(e@),
    }
}

/// Which primitive operation a binary operator asks for on bit patterns `a`
/// and `b`, or why none applies: division by a zero-valued divisor is
/// `DivisionByZero` before any division is requested (both signed zeros have
/// zero magnitude bits), and a category that is not a binary operator is
/// `InvalidOperation`.
pub open spec fn spec_binary_request(op: TokenType, a: u64, b: u64) -> Result<
    OpRequestV,
    EvalErrV,
> {
    match op {
        TokenType::Exponentiation => Ok(OpRequestV::Pow(a, b)),
        TokenType::Multiplication => Ok(OpRequestV::Mul(a, b)),
        TokenType::Division => if b & MAGNITUDE_MASK == 0 {
            Err(EvalErrV::DivisionByZero)
        } else {
            Ok(OpRequestV::Div(a, b))
        },
        TokenType::Addition => Ok(OpRequestV::Add(a, b)),
        TokenType::Subtraction => Ok(OpRequestV::Sub(a, b)),
        _ => Err(EvalErrV::InvalidOperation),
    }
}

/// The numeric semantics of a binary operator: the error `spec_binary_request`
/// gives, or its request answered from the oracle.
pub open spec fn spec_apply_binary(
    op: TokenType,
    a: u64,
    b: u64,
    env: Map<Seq<char>, u64>,
    oracle: Seq<u64>,
    at: int,
) -> SpecStep {
    match spec_binary_request(op, a, b) {
        Err(e) => SpecStep::Halt { out: Err(e), env, at },
        Ok(q) => spec_take(oracle, at, q),
    }
}

/// The tangent of `a`, with the pole test: with k = a·(2/π), the value is
/// undefined when |a − k·(π/2)| stays under the fixed tolerance and k,
/// truncated to an integer, is odd; otherwise the tangent is requested. The
/// products, the difference and the truncation are answered by the oracle;
/// the magnitude comparison and the parity test are decided here on the bits
/// (the bit patterns of nonnegative doubles order as integers, and the two's
/// complement of an integer is odd exactly when its lowest bit is set).
///
/// Known precision limitation, kept deliberately: the tolerance is a fixed
/// absolute one and k is not rounded to the nearest integer, so k·(π/2) is
/// within rounding error of `a` itself and the test comes down to the parity
/// of the truncation of k. It therefore also fires at arguments that are not
/// poles (at 2, for instance, where trunc(k) is already 1), and for very
/// large arguments floating-point cancellation makes it under- or
/// over-detect. Results stay compatible with this rule as stated; a
/// mathematically tighter pole test would change them.
pub open spec fn spec_tan_outcome(a: u64, oracle: Seq<u64>, at: int) -> Result<
    (Result<u64, EvalErrV>, int),
    OpRequestV,
> {
    match spec_take(oracle, at, OpRequestV::Mul(a, TWO_OVER_PI_BITS)) {
        SpecStep::Val { v: k, at: a1 } => match spec_take(
            oracle,
            a1,
            OpRequestV::Mul(k, FRAC_PI_2_BITS),
        ) {
            SpecStep::Val { v: m, at: a2 } => match spec_take(oracle, a2, OpRequestV::Sub(a, m)) {
                SpecStep::Val { v: d, at: a3 } => if (d & MAGNITUDE_MASK) < TAN_TOLERANCE_BITS {
                    match spec_take(oracle, a3, OpRequestV::Trunc(k)) {
                        SpecStep::Val { v: t, at: a4 } => if t & 1 == 1 {
                            Ok((Err(EvalErrV::Undefined), a4))
                        } else {
                            match spec_take(oracle, a4, OpRequestV::Tan(a)) {
                                SpecStep::Val { v, at: a5 } => Ok((Ok(v), a5)),
                                _ => Err(OpRequestV::Tan(a)),
                            }
                        },
                        _ => Err(OpRequestV::Trunc(k)),
                    }
                } else {
                    match spec_take(oracle, a3, OpRequestV::Tan(a)) {
                        SpecStep::Val { v, at: a5 } => Ok((Ok(v), a5)),
                        _ => Err(OpRequestV::Tan(a)),
                    }
                },
                _ => Err(OpRequestV::Sub(a, m)),
            },
            _ => Err(OpRequestV::Mul(k, FRAC_PI_2_BITS)),
        },
        _ => Err(OpRequestV::Mul(a, TWO_OVER_PI_BITS)),
    }
}

/// What applying a function keyword to the bit pattern `a` comes to: a value
/// or an error with the oracle position after it, or a request for one more
/// answer. Sine and cosine are requested directly; the tangent runs the pole
/// test; any other category is `NotAFunction`.
pub open spec fn spec_function_outcome(f: TokenType, a: u64, oracle: Seq<u64>, at: int) -> Result<
    (Result<u64, EvalErrV>, int),
    OpRequestV,
> {
    match f {
        TokenType::Keyword(Function::Sin) => match spec_take(oracle, at, OpRequestV::Sin(a)) {
            SpecStep::Val { v, at: a2 } => Ok((Ok(v), a2)),
            _ => Err(OpRequestV::Sin(a)),
        },
        TokenType::Keyword(Function::Cos) => match spec_take(oracle, at, OpRequestV::Cos(a)) {
            SpecStep::Val { v, at: a2 } => Ok((Ok(v), a2)),
            _ => Err(OpRequestV::Cos(a)),
        },
        TokenType::Keyword(Function::Tan) => spec_tan_outcome(a, oracle, at),
        _ => Ok((Err(EvalErrV::NotAFunction), at)),
    }
}

/// The semantics of applying a function keyword, folded into one step.
pub open spec fn spec_apply_function(
    f: TokenType,
    a: u64,
    env: Map<Seq<char>, u64>,
    oracle: Seq<u64>,
    at: int,
) -> SpecStep {
    match spec_function_outcome(f, a, oracle, at) {
        Err(q) => SpecStep::Req(q),
        Ok((Ok(v), a2)) => SpecStep::Val { v, at: a2 },
        Ok((Err(e), a2)) => SpecStep::Halt { out: Err(e), env, at: a2 },
    }
}

/// The evaluation of `n` against `env`, reading primitive-operation answers
/// from `oracle` starting at `at`. A sub-evaluation that comes to an
/// assignment or an error halts the whole evaluation at once, bypassing
/// every enclosing operator; negation is the sign-bit flip, decided here.
pub open spec fn spec_eval(
    n: AstV,
    env: Map<Seq<char>, u64>,
    oracle: Seq<u64>,
    at: int,
) -> SpecStep
    decreases n,
{
    match n {
        AstV::Number(lx) => spec_take(oracle, at, OpRequestV::Parse(lx)),
        AstV::UnaryOp { operator, operand } => match spec_eval(*operand, env, oracle, at) {
            SpecStep::Val { v, at: a2 } => if operator == TokenType::Negation {
                SpecStep::Val { v: v ^ SIGN_MASK, at: a2 }
            } else {
                SpecStep::Halt { out: Err(EvalErrV::InvalidOperation), env, at: a2 }
            },
            step => step,
        },
        AstV::BinaryOp { operator, operand_1, operand_2 } => match spec_eval(
            *operand_1,
            env,
            oracle,
            at,
        ) {
            SpecStep::Val { v: a, at: a2 } => match spec_eval(*operand_2, env, oracle, a2) {
                SpecStep::Val { v: b, at: a3 } => spec_apply_binary(operator, a, b, env, oracle, a3),
                step => step,
            },
            step => step,
        },
        AstV::Function { function, args } => match spec_eval(*args, env, oracle, at) {
            SpecStep::Val { v: a, at: a2 } => spec_apply_function(function, a, env, oracle, a2),
            step => step,
        },
        AstV::Assignment { name, value } => match spec_eval(*value, env, oracle, at) {
            SpecStep::Val { v, at: a2 } => if is_const_name(name) {
                SpecStep::Halt { out: Err(EvalErrV::CannotAssignAConstant(name)), env, at: a2 }
            } else {
                SpecStep::Halt {
                    out: Ok(EvalResultV::Assignment(name, v)),
                    env: env.insert(name, v),
                    at: a2,
                }
            },
            step => step,
        },
        AstV::Variable(name) => if env.contains_key(name) {
            SpecStep::Val { v: env[name], at }
        } else {
            SpecStep::Halt { out: Err(EvalErrV::UndefinedVariable(name)), env, at }
        },
    }
}

} // verus!

// ------------------------------------------------------------------
// The executable evaluator.
// ------------------------------------------------------------------

verus! {

/// What one sub-evaluation produced: a value to keep computing with, or the
/// outcome that halts the whole evaluation (an error or a completed
/// assignment).
enum Partial {
    Val(u64),
    Halt(Result<EvalResult, EvaluationError>),
}

fn eval_rec(node: &AstNode, env: &mut Environment, oracle: &Vec<u64>, at: usize) -> (r: Result<
    (Partial, usize),
    OpRequest,
>)
    ensures
        match spec_eval(node@, old(env)@, oracle@, at as int) {
            SpecStep::Req(q) => {
                &&& r matches Err(req) && req@ == q
                &&& final(env)@ == old(env)@
            },
            SpecStep::Val { v, at: a2 } => {
                &&& r matches Ok((Partial::Val(v2), q)) && v2 == v && q as int == a2
                &&& final(env)@ == old(env)@
            },
            SpecStep::Halt { out, env: e2, at: a2 } => {
                &&& r matches Ok((Partial::Halt(o), q)) && out_view(o) == out && q as int == a2
                &&& final(env)@ == e2
            },
        },
    decreases node,
{
    match node {
        AstNode::Number(lx) => {
            if at < oracle.len() {
                Ok((Partial::Val(oracle[at]), at + 1))
            } else {
                Err(OpRequest::Parse(lx.clone()))
            }
        },
        AstNode::UnaryOp { operator, operand } => {
            match eval_rec(&**operand, env, oracle, at) {
                Err(q) => Err(q),
                Ok((Partial::Halt(o), a2)) => Ok((Partial::Halt(o), a2)),
                Ok((Partial::Val(a), a2)) => match operator.apply_unary(a) {
                    Ok(v) => Ok((Partial::Val(v), a2)),
                    Err(e) => Ok((Partial::Halt(Err(e)), a2)),
                },
            }
        },
        AstNode::BinaryOp { operator, operand_1, operand_2 } => {
            let (a, a2) = match eval_rec(&**operand_1, env, oracle, at) {
                Err(q) => {
                    return Err(q);
                },
                Ok((Partial::Halt(o), p)) => {
                    return Ok((Partial::Halt(o), p));
                },
                Ok((Partial::Val(v), p)) => (v, p),
            };
            let (b, a3) = match eval_rec(&**operand_2, env, oracle, a2) {
                Err(q) => {
                    return Err(q);
                },
                Ok((Partial::Halt(o), p)) => {
                    return Ok((Partial::Halt(o), p));
                },
                Ok((Partial::Val(v), p)) => (v, p),
            };
            match operator.apply_binary(a, b) {
                Err(e) => Ok((Partial::Halt(Err(e)), a3)),
                Ok(q) => {
                    if a3 < oracle.len() {
                        Ok((Partial::Val(oracle[a3]), a3 + 1))
                    } else {
                        Err(q)
                    }
                },
            }
        },
        AstNode::Function { function, args } => {
            let (a, a2) = match eval_rec(&**args, env, oracle, at) {
                Err(q) => {
                    return Err(q);
                },
                Ok((Partial::Halt(o), p)) => {
                    return Ok((Partial::Halt(o), p));
                },
                Ok((Partial::Val(v), p)) => (v, p),
            };
            match function.apply_function(a, oracle, a2) {
                Err(q) => Err(q),
                Ok((Ok(v), p)) => Ok((Partial::Val(v), p)),
                Ok((Err(e), p)) => Ok((Partial::Halt(Err(e)), p)),
            }
        },
        AstNode::Assignment { name, value } => {
            let (v, a2) = match eval_rec(&**value, env, oracle, at) {
                Err(q) => {
                    return Err(q);
                },
                Ok((Partial::Halt(o), p)) => {
                    return Ok((Partial::Halt(o), p));
                },
                Ok((Partial::Val(x), p)) => (x, p),
            };
            match env.set_variable(name.clone(), v) {
                Some(e) => Ok((Partial::Halt(Err(e)), a2)),
                None => Ok((Partial::Halt(Ok(EvalResult::Assignment(name.clone(), v))), a2)),
            }
        },
        AstNode::Variable(name) => {
            match env.get_variable(name.as_str()) {
                Some(v) => Ok((Partial::Val(v), at)),
                None => Ok(
                    (Partial::Halt(Err(EvaluationError::UndefinedVariable(name.clone()))), at),
                ),
            }
        },
    }
}

impl AstNode {
    /// Evaluates the tree against the environment, reading the answers to
    /// primitive numeric operations from `oracle`. When the oracle runs out,
    /// the evaluation stops with `Need(request)`; the caller computes that
    /// one operation, appends the answer, and calls again. An assignment or
    /// an error anywhere halts the whole evaluation at once, and the
    /// environment changes only when a completed assignment is reported.
    pub fn evaluate(&self, environment: &mut Environment, oracle: &Vec<u64>) -> (r: EvalStep)
        ensures
            match spec_eval(self@, old(environment)@, oracle@, 0) {
                SpecStep::Req(q) => {
                    &&& r matches EvalStep::Need(req) && req@ == q
                    &&& final(environment)@ == old(environment)@
                },
                SpecStep::Val { v, at: a2 } => {
                    &&& r matches EvalStep::Done(Ok(EvalResult::Value(v2))) && v2 == v
                    &&& final(environment)@ == old(environment)@
                },
                SpecStep::Halt { out, env: e2, at: a2 } => {
                    &&& r matches EvalStep::Done(o) && out_view(o) == out
                    &&& final(environment)@ == e2
                },
            },
    {
        match eval_rec(self, environment, oracle, 0) {
            Err(q) => EvalStep::Need(q),
            Ok((Partial::Val(v), _)) => EvalStep::Done(Ok(EvalResult::Value(v))),
            Ok((Partial::Halt(o), _)) => EvalStep::Done(o),
        }
    }
}

// ------------------------------------------------------------------
// Laws.
// ------------------------------------------------------------------

/// Law: dividing by a zero-valued divisor always halts the evaluation with
/// `DivisionByZero`; no division is requested for it and the environment is
/// untouched. Both signed zeros have zero magnitude bits.
pub proof fn lemma_division_by_zero(
    op1: AstV,
    op2: AstV,
    env: Map<Seq<char>, u64>,
    oracle: Seq<u64>,
    at: int,
    a: u64,
    b: u64,
    a2: int,
    a3: int,
)
    requires
        spec_eval(op1, env, oracle, at) == (SpecStep::Val { v: a, at: a2 }),
        spec_eval(op2, env, oracle, a2) == (SpecStep::Val { v: b, at: a3 }),
        b & MAGNITUDE_MASK == 0,
    ensures
        spec_eval(
            AstV::BinaryOp {
                operator: TokenType::Division,
                operand_1: Box::new(op1),
                operand_2: Box::new(op2),
            },
            env,
            oracle,
            at,
        ) == (SpecStep::Halt { out: Err(EvalErrV::DivisionByZero), env, at: a3 }),
{
}

/// Law: assigning to a reserved constant name always halts the evaluation
/// with `CannotAssignAConstant` and leaves the environment exactly as it
/// was.
pub proof fn lemma_constants_protected(
    name: Seq<char>,
    value: AstV,
    env: Map<Seq<char>, u64>,
    oracle: Seq<u64>,
    at: int,
    v: u64,
    a2: int,
)
    requires
        is_const_name(name),
        spec_eval(value, env, oracle, at) == (SpecStep::Val { v, at: a2 }),
    ensures
        spec_eval(AstV::Assignment { name, value: Box::new(value) }, env, oracle, at)
            == (SpecStep::Halt { out: Err(EvalErrV::CannotAssignAConstant(name)), env, at: a2 }),
{
}

/// Law: the tangent pole test. With k = a·(2/π) and the difference
/// d = a − k·(π/2) answered by the oracle, a magnitude of d under the fixed
/// tolerance together with an odd truncation of k is reported as
/// `Undefined`: no tangent is requested and no library value leaks out.
pub proof fn lemma_tangent_pole(a: u64, oracle: Seq<u64>, at: int, t: u64)
    requires
        0 <= at,
        at + 4 <= oracle.len(),
        (oracle[at + 2] & MAGNITUDE_MASK) < TAN_TOLERANCE_BITS,
        oracle[at + 3] == t,
        t & 1 == 1,
    ensures
        spec_tan_outcome(a, oracle, at) == Ok::<(Result<u64, EvalErrV>, int), OpRequestV>(
            (Err(EvalErrV::Undefined), at + 4),
        ),
{
}

} // verus!

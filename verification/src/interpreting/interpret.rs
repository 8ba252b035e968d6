//! The tree-walking interpreter: a pure recursive function from expression
//! trees to runtime values, with strict type checking per operator.
//!
//! Evaluation is fail-fast: the first type violation is returned and nothing
//! further is evaluated; for a binary node the left operand's error takes
//! precedence over the right's. Equality is structural over the whole value
//! union and never fails. Where the host arithmetic would fault — overflow
//! of the 64-bit integers, or division by zero — evaluation returns a typed
//! error instead of panicking; division truncates toward zero.

use crate::error::LoxError;
use crate::parsing::expr::{BinaryOp, Expr, PositionedExpr, UnaryOp};
use crate::parsing::parser::shape_eq;
use vstd::prelude::*;
use vstd::string::StringExecFns;

verus! {

/// A runtime value. Values are dynamically typed; no implicit coercion
/// exists between the kinds.
#[derive(Debug, PartialEq, Eq)]
pub enum LoxValue {
    Int(i64),
    Bool(bool),
    Strng(String),
    Nil,
}

/// The mathematical image of a runtime value, with text as a character
/// sequence.
pub ghost enum SpecValue {
    Int(i64),
    Bool(bool),
    Strng(Seq<char>),
    Nil,
}

impl View for LoxValue {
    type V = SpecValue;

    open spec fn view(&self) -> SpecValue {
        match self {
            LoxValue::Int(x) => SpecValue::Int(*x),
            LoxValue::Bool(b) => SpecValue::Bool(*b),
            LoxValue::Strng(s) => SpecValue::Strng(s@),
            LoxValue::Nil => SpecValue::Nil,
        }
    }
}

/// The ways evaluation can fail, one per violated rule.
pub ghost enum EvalErr {
    NegateBool,
    NegateString,
    NegateNil,
    NotInt,
    NotString,
    NotNil,
    CmpNonNum,
    AddMismatch,
    SubNonNum,
    MulNonNum,
    DivNonNum,
    DivByZero,
    ArithOverflow,
}

/// The message that reports each evaluation error.
pub open spec fn eval_err_msg(e: EvalErr) -> Seq<char> {
    match e {
        EvalErr::NegateBool => "opposite of bool is undefined"@,
        EvalErr::NegateString => "opposite of string is undefined"@,
        EvalErr::NegateNil => "opposite of nil is undefined"@,
        EvalErr::NotInt => "negation of int is undefined"@,
        EvalErr::NotString => "negation of string is undefined"@,
        EvalErr::NotNil => "negation of nil is undefined"@,
        EvalErr::CmpNonNum => "Comparison should be between numbers only"@,
        EvalErr::AddMismatch => "Addition should be between numbers or strings only"@,
        EvalErr::SubNonNum => "Subtraction should be between numbers only"@,
        EvalErr::MulNonNum => "Multiplication should be between numbers only"@,
        EvalErr::DivNonNum => "Division should be between numbers only"@,
        EvalErr::DivByZero => "division by zero is undefined"@,
        EvalErr::ArithOverflow => "integer overflow"@,
    }
}

/// What a unary operator yields on an already-evaluated operand. `UnaMinus`
/// is defined on integers alone, `Not` on booleans alone.
pub open spec fn spec_eval_unary(op: UnaryOp, v: Result<SpecValue, EvalErr>) -> Result<
    SpecValue,
    EvalErr,
> {
    match v {
        Err(e) => Err(e),
        Ok(v) => match (op, v) {
            (UnaryOp::UnaMinus, SpecValue::Int(x)) => {
                if x == i64::MIN {
                    Err(EvalErr::ArithOverflow)
                } else {
                    Ok(SpecValue::Int((0 - x) as i64))
                }
            },
            (UnaryOp::UnaMinus, SpecValue::Bool(_)) => Err(EvalErr::NegateBool),
            (UnaryOp::UnaMinus, SpecValue::Strng(_)) => Err(EvalErr::NegateString),
            (UnaryOp::UnaMinus, SpecValue::Nil) => Err(EvalErr::NegateNil),
            (UnaryOp::Not, SpecValue::Int(_)) => Err(EvalErr::NotInt),
            (UnaryOp::Not, SpecValue::Bool(b)) => Ok(SpecValue::Bool(!b)),
            (UnaryOp::Not, SpecValue::Strng(_)) => Err(EvalErr::NotString),
            (UnaryOp::Not, SpecValue::Nil) => Err(EvalErr::NotNil),
        },
    }
}

/// What a binary operator yields on already-evaluated operands, the left
/// error taking precedence. Equality is structural across the whole value
/// union and never fails; the orderings and the arithmetic operators other
/// than `Plus` are defined on integer pairs alone; `Plus` also concatenates
/// two texts.
pub open spec fn spec_eval_binary(
    l: Result<SpecValue, EvalErr>,
    op: BinaryOp,
    r: Result<SpecValue, EvalErr>,
) -> Result<SpecValue, EvalErr> {
    match l {
        Err(e) => Err(e),
        Ok(a) => match r {
            Err(e) => Err(e),
            Ok(b) => match op {
                BinaryOp::Equalequal => Ok(SpecValue::Bool(a == b)),
                BinaryOp::NotEqual => Ok(SpecValue::Bool(a != b)),
                BinaryOp::Le => match (a, b) {
                    (SpecValue::Int(x), SpecValue::Int(y)) => Ok(SpecValue::Bool(x < y)),
                    _ => Err(EvalErr::CmpNonNum),
                },
                BinaryOp::Leq => match (a, b) {
                    (SpecValue::Int(x), SpecValue::Int(y)) => Ok(SpecValue::Bool(x <= y)),
                    _ => Err(EvalErr::CmpNonNum),
                },
                BinaryOp::Ge => match (a, b) {
                    (SpecValue::Int(x), SpecValue::Int(y)) => Ok(SpecValue::Bool(x > y)),
                    _ => Err(EvalErr::CmpNonNum),
                },
                BinaryOp::Geq => match (a, b) {
                    (SpecValue::Int(x), SpecValue::Int(y)) => Ok(SpecValue::Bool(x >= y)),
                    _ => Err(EvalErr::CmpNonNum),
                },
                BinaryOp::Plus => match (a, b) {
                    (SpecValue::Int(x), SpecValue::Int(y)) => match x.checked_add(y) {
                        Some(s) => Ok(SpecValue::Int(s)),
                        None => Err(EvalErr::ArithOverflow),
                    },
                    (SpecValue::Strng(s1), SpecValue::Strng(s2)) => Ok(SpecValue::Strng(s1 + s2)),
                    _ => Err(EvalErr::AddMismatch),
                },
                BinaryOp::BinMinus => match (a, b) {
                    (SpecValue::Int(x), SpecValue::Int(y)) => match x.checked_sub(y) {
                        Some(s) => Ok(SpecValue::Int(s)),
                        None => Err(EvalErr::ArithOverflow),
                    },
                    _ => Err(EvalErr::SubNonNum),
                },
                BinaryOp::Times => match (a, b) {
                    (SpecValue::Int(x), SpecValue::Int(y)) => match x.checked_mul(y) {
                        Some(s) => Ok(SpecValue::Int(s)),
                        None => Err(EvalErr::ArithOverflow),
                    },
                    _ => Err(EvalErr::MulNonNum),
                },
                BinaryOp::Div => match (a, b) {
                    (SpecValue::Int(x), SpecValue::Int(y)) => {
                        if y == 0 {
                            Err(EvalErr::DivByZero)
                        } else {
                            match x.checked_div(y) {
                                Some(q) => Ok(SpecValue::Int(q)),
                                None => Err(EvalErr::ArithOverflow),
                            }
                        }
                    },
                    _ => Err(EvalErr::DivNonNum),
                },
            },
        },
    }
}

/// The value (or error) of an expression: literals evaluate to themselves,
/// operators to [`spec_eval_unary`] and [`spec_eval_binary`] over their
/// recursively evaluated operands.
pub open spec fn spec_eval(e: Expr) -> Result<SpecValue, EvalErr>
    decreases e,
{
    match e {
        Expr::Nil => Ok(SpecValue::Nil),
        Expr::Num(x) => Ok(SpecValue::Int(x)),
        Expr::Str(s) => Ok(SpecValue::Strng(s@)),
        Expr::T => Ok(SpecValue::Bool(true)),
        Expr::F => Ok(SpecValue::Bool(false)),
        Expr::Unary { op, e1 } => spec_eval_unary(op, spec_eval(e1.expr)),
        Expr::Binary { e1, op, e2 } => spec_eval_binary(
            spec_eval(e1.expr),
            op,
            spec_eval(e2.expr),
        ),
    }
}

/// Structural equality across the whole value union; values of different
/// kinds are unequal, never an error.
fn lox_values_equal(a: &LoxValue, b: &LoxValue) -> (r: bool)
    ensures
        r == (a@ == b@),
{
    match (a, b) {
        (LoxValue::Int(x), LoxValue::Int(y)) => *x == *y,
        (LoxValue::Bool(x), LoxValue::Bool(y)) => *x == *y,
        (LoxValue::Strng(s1), LoxValue::Strng(s2)) => s1.eq(s2),
        (LoxValue::Nil, LoxValue::Nil) => true,
        _ => false,
    }
}

/// An error carrying exactly the message for `k`.
fn eval_error(m: &str, Ghost(k): Ghost<EvalErr>) -> (e: LoxError)
    requires
        m@ == eval_err_msg(k),
    ensures
        e.msg@ == eval_err_msg(k),
{
    LoxError { msg: String::from_str(m) }
}

/// Evaluates an expression tree to a runtime value, or to the first typed
/// evaluation error encountered; the result is exactly [`spec_eval`] of the
/// tree, with the error rendered through [`eval_err_msg`].
#[verifier::rlimit(100)]
pub fn interpret(pexpr: &PositionedExpr) -> (r: Result<LoxValue, LoxError>)
    ensures
        match (r, spec_eval(pexpr.expr)) {
            (Ok(v), Ok(sv)) => v@ == sv,
            (Err(e), Err(k)) => e.msg@ == eval_err_msg(k),
            _ => false,
        },
    decreases *pexpr,
{
    match &pexpr.expr {
        Expr::Nil => Ok(LoxValue::Nil),
        Expr::Num(x) => Ok(LoxValue::Int(*x)),
        Expr::Str(s) => Ok(LoxValue::Strng(s.clone())),
        Expr::T => Ok(LoxValue::Bool(true)),
        Expr::F => Ok(LoxValue::Bool(false)),
        Expr::Unary { op, e1 } => match (op, interpret(e1)) {
            (_, Err(err)) => Err(err),
            (UnaryOp::UnaMinus, Ok(LoxValue::Int(x))) => {
                if x == i64::MIN {
                    Err(eval_error("integer overflow", Ghost(EvalErr::ArithOverflow)))
                } else {
                    Ok(LoxValue::Int(-x))
                }
            },
            (UnaryOp::UnaMinus, Ok(LoxValue::Bool(_))) => {
                Err(eval_error("opposite of bool is undefined", Ghost(EvalErr::NegateBool)))
            },
            (UnaryOp::UnaMinus, Ok(LoxValue::Strng(_))) => {
                Err(eval_error("opposite of string is undefined", Ghost(EvalErr::NegateString)))
            },
            (UnaryOp::UnaMinus, Ok(LoxValue::Nil)) => {
                Err(eval_error("opposite of nil is undefined", Ghost(EvalErr::NegateNil)))
            },
            (UnaryOp::Not, Ok(LoxValue::Int(_))) => {
                Err(eval_error("negation of int is undefined", Ghost(EvalErr::NotInt)))
            },
            (UnaryOp::Not, Ok(LoxValue::Bool(b))) => Ok(LoxValue::Bool(!b)),
            (UnaryOp::Not, Ok(LoxValue::Strng(_))) => {
                Err(eval_error("negation of string is undefined", Ghost(EvalErr::NotString)))
            },
            (UnaryOp::Not, Ok(LoxValue::Nil)) => {
                Err(eval_error("negation of nil is undefined", Ghost(EvalErr::NotNil)))
            },
        },
        Expr::Binary { e1, op, e2 } => match (interpret(e1), op, interpret(e2)) {
            (Err(err), _, _) => Err(err),
            (_, _, Err(err)) => Err(err),
            (Ok(i1), BinaryOp::Equalequal, Ok(i2)) => {
                Ok(LoxValue::Bool(lox_values_equal(&i1, &i2)))
            },
            (Ok(i1), BinaryOp::NotEqual, Ok(i2)) => {
                Ok(LoxValue::Bool(!lox_values_equal(&i1, &i2)))
            },
            (Ok(i1), BinaryOp::Le, Ok(i2)) => {
                if let (LoxValue::Int(x), LoxValue::Int(y)) = (i1, i2) {
                    Ok(LoxValue::Bool(x < y))
                } else {
                    Err(
                        eval_error(
                            "Comparison should be between numbers only",
                            Ghost(EvalErr::CmpNonNum),
                        ),
                    )
                }
            },
            (Ok(i1), BinaryOp::Leq, Ok(i2)) => {
                if let (LoxValue::Int(x), LoxValue::Int(y)) = (i1, i2) {
                    Ok(LoxValue::Bool(x <= y))
                } else {
                    Err(
                        eval_error(
                            "Comparison should be between numbers only",
                            Ghost(EvalErr::CmpNonNum),
                        ),
                    )
                }
            },
            (Ok(i1), BinaryOp::Ge, Ok(i2)) => {
                if let (LoxValue::Int(x), LoxValue::Int(y)) = (i1, i2) {
                    Ok(LoxValue::Bool(x > y))
                } else {
                    Err(
                        eval_error(
                            "Comparison should be between numbers only",
                            Ghost(EvalErr::CmpNonNum),
                        ),
                    )
                }
            },
            (Ok(i1), BinaryOp::Geq, Ok(i2)) => {
                if let (LoxValue::Int(x), LoxValue::Int(y)) = (i1, i2) {
                    Ok(LoxValue::Bool(x >= y))
                } else {
                    Err(
                        eval_error(
                            "Comparison should be between numbers only",
                            Ghost(EvalErr::CmpNonNum),
                        ),
                    )
                }
            },
            (Ok(i1), BinaryOp::Plus, Ok(i2)) => match (i1, i2) {
                (LoxValue::Int(x), LoxValue::Int(y)) => match x.checked_add(y) {
                    Some(s) => Ok(LoxValue::Int(s)),
                    None => Err(eval_error("integer overflow", Ghost(EvalErr::ArithOverflow))),
                },
                (LoxValue::Strng(s1), LoxValue::Strng(s2)) => {
                    Ok(LoxValue::Strng(s1.concat(s2.as_str())))
                },
                _ => Err(
                    eval_error(
                        "Addition should be between numbers or strings only",
                        Ghost(EvalErr::AddMismatch),
                    ),
                ),
            },
            (Ok(i1), BinaryOp::BinMinus, Ok(i2)) => {
                if let (LoxValue::Int(x), LoxValue::Int(y)) = (i1, i2) {
                    match x.checked_sub(y) {
                        Some(s) => Ok(LoxValue::Int(s)),
                        None => Err(eval_error("integer overflow", Ghost(EvalErr::ArithOverflow))),
                    }
                } else {
                    Err(
                        eval_error(
                            "Subtraction should be between numbers only",
                            Ghost(EvalErr::SubNonNum),
                        ),
                    )
                }
            },
            (Ok(i1), BinaryOp::Times, Ok(i2)) => {
                if let (LoxValue::Int(x), LoxValue::Int(y)) = (i1, i2) {
                    match x.checked_mul(y) {
                        Some(s) => Ok(LoxValue::Int(s)),
                        None => Err(eval_error("integer overflow", Ghost(EvalErr::ArithOverflow))),
                    }
                } else {
                    Err(
                        eval_error(
                            "Multiplication should be between numbers only",
                            Ghost(EvalErr::MulNonNum),
                        ),
                    )
                }
            },
            (Ok(i1), BinaryOp::Div, Ok(i2)) => {
                if let (LoxValue::Int(x), LoxValue::Int(y)) = (i1, i2) {
                    if y == 0 {
                        Err(
                            eval_error(
                                "division by zero is undefined",
                                Ghost(EvalErr::DivByZero),
                            ),
                        )
                    } else {
                        match x.checked_div(y) {
                            Some(q) => Ok(LoxValue::Int(q)),
                            None => Err(
                                eval_error("integer overflow", Ghost(EvalErr::ArithOverflow)),
                            ),
                        }
                    }
                } else {
                    Err(
                        eval_error(
                            "Division should be between numbers only",
                            Ghost(EvalErr::DivNonNum),
                        ),
                    )
                }
            },
        },
    }
}

/// Equality never type-errors: whenever both operands of `==` or `!=`
/// evaluate to values, the whole comparison evaluates to a boolean — even
/// when the operand kinds differ.
pub proof fn lemma_equality_never_type_errors(e1: PositionedExpr, op: BinaryOp, e2: PositionedExpr)
    requires
        op == BinaryOp::Equalequal || op == BinaryOp::NotEqual,
        spec_eval(e1.expr) is Ok,
        spec_eval(e2.expr) is Ok,
    ensures
        spec_eval(Expr::Binary { e1: Box::new(e1), op, e2: Box::new(e2) }) matches Ok(v) && v is Bool,
{
}

/// Evaluation never reads spans: trees of the same shape — as parses of two
/// sources differing only in the whitespace and comments between their
/// tokens are — evaluate to the same value or the same error.
pub proof fn lemma_eval_ignores_spans(a: PositionedExpr, b: PositionedExpr)
    requires
        shape_eq(a, b),
    ensures
        spec_eval(a.expr) == spec_eval(b.expr),
    decreases a,
{
    match (a.expr, b.expr) {
        (Expr::Unary { op: o1, e1: a1 }, Expr::Unary { op: o2, e1: b1 }) => {
            lemma_eval_ignores_spans(*a1, *b1);
        },
        (
            Expr::Binary { e1: a1, op: o1, e2: a2 },
            Expr::Binary { e1: b1, op: o2, e2: b2 },
        ) => {
            lemma_eval_ignores_spans(*a1, *b1);
            lemma_eval_ignores_spans(*a2, *b2);
        },
        _ => {},
    }
}

} // verus!

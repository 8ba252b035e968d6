//! The expression tree: a strict, exclusively-owned tree of positioned
//! nodes, immutable once built.

use crate::position::Position;
use vstd::prelude::*;

verus! {

/// The unary operators.
#[derive(Clone, Copy, Debug, PartialEq, Eq, Structural)]
pub enum UnaryOp {
    UnaMinus,
    Not,
}

/// The binary operators. `Le` and `Ge` are the strict comparisons, `Leq` and
/// `Geq` the non-strict ones.
#[derive(Clone, Copy, Debug, PartialEq, Eq, Structural)]
pub enum BinaryOp {
    Equalequal,
    NotEqual,
    Le,
    Leq,
    Ge,
    Geq,
    Plus,
    BinMinus,
    Times,
    Div,
}

/// An expression: a literal leaf, or an operator applied to positioned
/// operand subtrees that it exclusively owns.
#[derive(Debug, PartialEq)]
pub enum Expr {
    Num(i64),
    Str(String),
    T,
    F,
    Nil,
    Unary { op: UnaryOp, e1: Box<PositionedExpr> },
    Binary { e1: Box<PositionedExpr>, op: BinaryOp, e2: Box<PositionedExpr> },
}

/// An expression together with the span of source text it covers, from the
/// start of its leftmost token to the end of its rightmost one. The span is
/// used only for diagnostics, never for evaluation.
#[derive(Debug, PartialEq)]
pub struct PositionedExpr {
    pub expr: Expr,
    pub start: Position,
    pub end: Position,
}

} // verus!

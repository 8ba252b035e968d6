//! Syntax analysis: the expression tree and the recursive-descent parser.

pub mod expr;
pub mod parser;

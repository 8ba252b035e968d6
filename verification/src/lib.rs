//! A front end for a small expression language: a lexer that turns source
//! text into positioned tokens, a recursive-descent parser that builds a
//! precedence-correct syntax tree while accumulating positioned syntax
//! errors, and a tree-walking interpreter that evaluates the tree to a
//! runtime value under strict per-operator type checking.

pub mod error;
pub mod interpreting;
pub mod lexing;
pub mod parsing;
pub mod position;

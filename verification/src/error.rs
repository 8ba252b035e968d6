//! Error and diagnostic types for the three stages. Lexing never fails hard
//! (it degrades to a diagnostic and a skip), parsing accumulates a list of
//! positioned errors, and evaluation stops at the first typed error.

use crate::position::Position;
use vstd::prelude::*;

verus! {

/// A note recorded by the lexer when it skips input it cannot tokenize. The
/// lexer itself is total: its token stream carries no error variant, and
/// malformed input only produces one of these diagnostics.
#[derive(Clone, Copy, Debug, PartialEq, Eq, Structural)]
pub enum LexingDiagnostic {
    /// An unknown character was skipped; `at` is the position just past it.
    UnknownChar { at: Position },
    /// A string literal starting at `from` was never closed; scanning stopped.
    UnterminatedString { from: Position },
}

/// A positioned syntax error. Parsing returns a non-empty ordered list of
/// these rather than stopping at the first.
#[derive(Debug)]
pub enum ParsingError {
    /// Input ended while an expression was still expected; `pos` is the
    /// position of the last consumed token.
    EarlyEof { pos: Position },
    /// A parenthesis opened at `open_paren_start` was never closed.
    UnclosedParenthesis { open_paren_start: Position },
    /// A token that cannot occur here; `expected` describes what would have
    /// been legal.
    IllegalToken { start: Position, end: Position, expected: String },
}

/// The mathematical image of a [`ParsingError`], with the description as a
/// character sequence.
pub ghost enum SpecParsingError {
    EarlyEof { pos: Position },
    UnclosedParenthesis { open_paren_start: Position },
    IllegalToken { start: Position, end: Position, expected: Seq<char> },
}

impl View for ParsingError {
    type V = SpecParsingError;

    open spec fn view(&self) -> SpecParsingError {
        match self {
            ParsingError::EarlyEof { pos } => SpecParsingError::EarlyEof { pos: *pos },
            ParsingError::UnclosedParenthesis { open_paren_start } => {
                SpecParsingError::UnclosedParenthesis { open_paren_start: *open_paren_start }
            },
            ParsingError::IllegalToken { start, end, expected } => {
                SpecParsingError::IllegalToken { start: *start, end: *end, expected: expected@ }
            },
        }
    }
}

/// A typed evaluation error; `msg` names the violated type rule.
#[derive(Debug, PartialEq, Eq)]
pub struct LoxError {
    pub msg: String,
}

} // verus!

//! Lexical analysis: the token model and the character-level scanner.

pub mod lexer;
pub mod token;

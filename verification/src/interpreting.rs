//! Evaluation: the runtime value model and the tree-walking interpreter.

pub mod interpret;

//! Statement parsing: the typed syntax tree, the grammar and the tree builders.

pub mod ast;
pub mod errors;
pub mod evaluator;
pub mod expression_parser;
pub mod grammar;
pub mod text;

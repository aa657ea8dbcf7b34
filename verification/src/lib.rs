//! Expression and statement sub-language of a circuit-description DSL,
//! together with the symbolic interpreter that runs a template's
//! instruction stream against a tree of per-component heaps.

pub mod circuit;
pub mod collections;
pub mod execution_variable;
pub mod expansion;
pub mod heap;
pub mod home_made_parser;
pub mod interpreter;
pub mod laws;
pub mod multiplier;
pub mod parser;
pub mod reach;
pub mod run;
pub mod template_reader;
pub mod visual;

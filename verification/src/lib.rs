//! A small imperative scripting language: a recursive-descent parser
//! that turns source text into an abstract syntax tree, and a
//! tree-walking interpreter that evaluates that tree against mutable
//! variable and function environments.
//!
//! The language's meaning is written down twice. The `grammar` and
//! `semantics` modules define it mathematically: what each production
//! matches and what each expression evaluates to. The `parser` and
//! `interpreter` modules execute it, and every executable function is
//! verified to return exactly what the definitions say. The `laws`
//! module proves general properties of evaluation once and for all.

pub mod ast;
mod environment;
pub mod grammar;
pub mod interpreter;
pub mod laws;
pub mod locality;
pub mod parser;
pub mod semantics;

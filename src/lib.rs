//! A small dynamically typed expression language: its syntax tree, a
//! frame-indexed environment, native primitives and a tree-walking evaluator.
pub mod ast;
pub mod domain;
pub mod env;
pub mod error;
pub mod eval;
pub mod functions;
pub mod laws;
pub mod lexer;
pub mod parser;
pub mod repr;
pub mod table;
pub mod text;

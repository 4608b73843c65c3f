//! An interpreter for a small line-oriented pseudocode language: a lexer, a
//! parser and a tree-walking evaluator over one syntax tree.

pub mod appendix;
pub mod ast;
pub mod evaluate;
pub mod host;
pub mod laws;
pub mod lexer;
pub mod message;
pub mod parser;
pub mod replay;
pub mod run;
pub mod text;

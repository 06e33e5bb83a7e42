//! Front end for a small imperative language: a lexer that turns source
//! text into a stream of classified tokens, and a statement parser that
//! builds an abstract syntax tree while accumulating diagnostics.

pub mod ast;
pub mod lexer;
pub mod parser;
pub mod token;

//! A small filter language over JSON documents: a lexer, a parser that
//! builds an expression tree, and an evaluator that applies it.

pub mod lexer;
pub mod parser;
pub mod runner;

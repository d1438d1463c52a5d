//! A small interactive command interpreter: a lexer for quoted and unquoted
//! words, a parser building a minimal command tree, an evaluator that resolves
//! argument fragments, and a dispatcher that decides between built-in
//! operations and external process invocation.

pub mod lexer;
pub mod parser;
pub mod eval;
pub mod numparse;
pub mod dispatch;

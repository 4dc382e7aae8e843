//! The front end of a small C-like language: a position-tracking tokenizer,
//! the expression and statement tree with its canonical rendering, and a
//! tree-walking evaluator over a flat variable store.

pub mod attr;
pub mod basic_block;
pub mod cursor;
pub mod decimal;
pub mod env;
pub mod expr;
pub mod interpreter;
pub mod parser;
pub mod pos;
pub mod range;
pub mod stmt;
pub mod tac;
mod text;
pub mod token;
pub mod token_stream;
pub mod tokenizer;
pub mod type_checker;
pub mod types;
pub mod value;
pub mod x64;

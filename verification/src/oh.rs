//! A tokenizer for a second, expression-based notation, and the parser
//! that will stand on it.

pub mod lexer;
pub mod parser;

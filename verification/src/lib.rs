//! A small stack machine: an assembler for a line-oriented instruction
//! language and an engine that executes the assembled program.

pub mod command;
pub mod eval;
pub mod laws;
pub mod machine;
pub mod oh;
pub mod parser;
pub mod text;

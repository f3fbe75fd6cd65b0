//! The parser of the expression-based notation. It reads the tokens of
//! its input; no instruction is generated from them yet.

use crate::command::EngineError;
use crate::oh::lexer::{token_views, tokens_from, Lexer, Token};
use crate::parser::{Program, ProgramView};
use vstd::prelude::*;
use vstd::string::StringSliceAdditionalSpecFns;

verus! {

/// The parser.
#[derive(Debug, Default)]
pub struct Parser {}

impl Parser {
    pub fn new() -> Self {
        Self {  }
    }

    /// The tokens of `input`, up to its end or to the first byte that
    /// starts no token.
    pub fn tokens<'a>(&self, input: &'a str) -> (tokens: Vec<Token<'a>>)
        ensures
            token_views(tokens@) == tokens_from(input.spec_bytes(), 0),
    {
        let mut lexer = Lexer::new(input);
        lexer.remaining()
    }

    /// Reads `input` to its last token. The program that comes of it is
    /// empty, whatever the input holds.
    pub fn parse(&mut self, input: &str) -> (r: Result<Program, EngineError>)
        ensures
            r matches Ok(program) && program@ == ProgramView::empty(),
    {
        let _ = self.tokens(input);
        Ok(Program::default())
    }
}

} // verus!

//! The driver: the parse of a whole program.

use crate::compiler::ast::{AstProgram, ParseResult};
use crate::compiler::error::ParseError;
use crate::compiler::parser::{Lookahead, Parser};
use crate::compiler::token::Token;
use vstd::prelude::*;

verus! {

impl Parser {
    /// Parses the program: statement after statement is appended until the
    /// tokens are used up or the end marker is met. The first failure ends
    /// the parse; the program handed back then holds the statements that
    /// were parsed before, and `diagnostic` tells the reason.
    pub fn parse(&mut self) -> (program: AstProgram)
        requires
            old(self)@.fits(),
        ensures
            final(self)@ == old(self)@.parse(),
            program@ == final(self)@.program,
    {
        let ghost start = self@;
        loop
            invariant
                start == old(self)@,
                self@.fits(),
                self@.parse() == start.parse(),
            decreases self@.tokens.len(),
        {
            if self.diagnostic().is_some() {
                return self.program();
            }
            match self.lookahead() {
                Lookahead::Nothing => {
                    return self.program();
                },
                Lookahead::EndMarker => {
                    self.pop();
                    return self.program();
                },
                Lookahead::Name => {
                    let found = match self.pop() {
                        Some(Token::Identifier(name)) => self.lookup(name),
                        _ => None,
                    };
                    match found {
                        Some(bound) => {
                            self.push_expression_statement(bound);
                        },
                        None => {
                            self.give_up(ParseError::NotDefined);
                            return self.program();
                        },
                    }
                },
                _ => {
                    let next = self.parse_declaration();
                    match next {
                        ParseResult::Success(e) => {
                            self.push_expression_statement(e);
                        },
                        ParseResult::Failed(err) => {
                            self.give_up(err);
                            return self.program();
                        },
                    }
                },
            }
        }
    }
}

} // verus!

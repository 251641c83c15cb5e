//! The rules for expressions, from primaries up to assignments.

use crate::compiler::ast::{Expression, ExpressionType, ParseResult, ReturnType};
use crate::compiler::error::ParseError;
use crate::compiler::grammar::Level;
use crate::compiler::parser::{is_literal_token, Lookahead, Parser};
use crate::compiler::token::Token;
use crate::compiler::grammar::ParserView;
use vstd::prelude::*;

verus! {

impl Parser {
    /// primary: a literal token as a leaf, or `{` expression `}`.
    pub fn parse_primary(&mut self) -> (r: ParseResult)
        requires
            old(self)@.fits(),
        ensures
            old(self)@.primary().is_run(old(self)@, r@, final(self)@),
        decreases old(self)@.tokens.len(), 0nat,
    {
        match self.pop() {
            None => ParseResult::Failed(ParseError::OutOfTokens),
            Some(tok) => {
                if is_literal_token(&tok) {
                    let rt = ReturnType::of(&tok);
                    ParseResult::Success(self.node(ExpressionType::Literal(tok), rt))
                } else if matches!(tok, Token::LeftBrace) {
                    let inner = self.parse_expression();
                    match inner {
                        ParseResult::Failed(_) => inner,
                        ParseResult::Success(e) => match self.pop() {
                            None => ParseResult::Failed(ParseError::OutOfTokens),
                            Some(Token::RightBrace) => ParseResult::Success(e),
                            Some(_) => ParseResult::Failed(ParseError::ExpectedClosingBrace),
                        },
                    }
                } else {
                    ParseResult::Failed(ParseError::ExpectedPrimary)
                }
            },
        }
    }

    /// unary: `!` or `-` before a unary, or else a primary.
    pub fn parse_unary(&mut self) -> (r: ParseResult)
        requires
            old(self)@.fits(),
        ensures
            old(self)@.unary().is_run(old(self)@, r@, final(self)@),
        decreases old(self)@.tokens.len(), 1nat,
    {
        if self.lookahead() == Lookahead::Negation {
            let tok = self.pop().unwrap();
            let rt = ReturnType::of(&tok);
            let operand = self.parse_unary();
            match operand {
                ParseResult::Failed(_) => operand,
                ParseResult::Success(e) => ParseResult::Success(
                    self.node(ExpressionType::UnaryExpression(tok, Box::new(e)), rt),
                ),
            }
        } else {
            self.parse_primary()
        }
    }

    /// An operand of `level`.
    fn parse_operand(&mut self, level: Level) -> (r: ParseResult)
        requires
            old(self)@.fits(),
        ensures
            old(self)@.operand(level).is_run(old(self)@, r@, final(self)@),
        decreases old(self)@.tokens.len(), 3 * (3 - level.strength()) + 2,
    {
        match level {
            Level::Equality => self.parse_comparison(),
            Level::Comparison => self.parse_addition(),
            Level::Additive => self.parse_multiplication(),
            Level::Multiplicative => self.parse_unary(),
        }
    }

    /// A chain of operands of `level`, joined from the left by operators of
    /// that level. The operands of each operator must have the same type.
    pub fn parse_binary(&mut self, level: Level) -> (r: ParseResult)
        requires
            old(self)@.fits(),
        ensures
            old(self)@.binary(level).is_run(old(self)@, r@, final(self)@),
        decreases old(self)@.tokens.len(), 3 * (3 - level.strength()) + 3,
    {
        let ghost start = self@;
        let first = self.parse_operand(level);
        let mut lhs = match first {
            ParseResult::Failed(_) => {
                return first;
            },
            ParseResult::Success(e) => e,
        };
        loop
            invariant
                start == old(self)@,
                start.fits(),
                self@.follows(start),
                self@.fold(level, lhs@) == start.binary(level),
            decreases self@.tokens.len(),
        {
            let more = match self.peek() {
                Some(tok) => level.is_operator(tok),
                None => false,
            };
            if !more {
                return ParseResult::Success(lhs);
            }
            let op = self.pop().unwrap();
            let next = self.parse_operand(level);
            match next {
                ParseResult::Failed(_) => {
                    return next;
                },
                ParseResult::Success(rhs) => {
                    if lhs.return_type != rhs.return_type {
                        return ParseResult::Failed(ParseError::TypeMismatch);
                    }
                    let rt = lhs.return_type;
                    lhs = self.node(
                        ExpressionType::BinaryExpression(op, Box::new(lhs), Box::new(rhs)),
                        rt,
                    );
                },
            }
        }
    }

    /// multiplication: unaries joined by `*` and `/`.
    pub fn parse_multiplication(&mut self) -> (r: ParseResult)
        requires
            old(self)@.fits(),
        ensures
            old(self)@.binary(Level::Multiplicative).is_run(old(self)@, r@, final(self)@),
        decreases old(self)@.tokens.len(), 4nat,
    {
        self.parse_binary(Level::Multiplicative)
    }

    /// addition: multiplications joined by `+` and `-`.
    pub fn parse_addition(&mut self) -> (r: ParseResult)
        requires
            old(self)@.fits(),
        ensures
            old(self)@.binary(Level::Additive).is_run(old(self)@, r@, final(self)@),
        decreases old(self)@.tokens.len(), 7nat,
    {
        self.parse_binary(Level::Additive)
    }

    /// comparison: additions joined by `<`, `>`, `<=` and `>=`.
    pub fn parse_comparison(&mut self) -> (r: ParseResult)
        requires
            old(self)@.fits(),
        ensures
            old(self)@.binary(Level::Comparison).is_run(old(self)@, r@, final(self)@),
        decreases old(self)@.tokens.len(), 10nat,
    {
        self.parse_binary(Level::Comparison)
    }

    /// equality: comparisons joined by `==` and `!=`.
    pub fn parse_equality(&mut self) -> (r: ParseResult)
        requires
            old(self)@.fits(),
        ensures
            old(self)@.binary(Level::Equality).is_run(old(self)@, r@, final(self)@),
        decreases old(self)@.tokens.len(), 13nat,
    {
        self.parse_binary(Level::Equality)
    }

    /// The end of an assignment whose two sides are `lhs` and `rhs`.
    fn assign(&mut self, lhs: Expression, rhs: Expression) -> (r: ParseResult)
        requires
            old(self)@.node_count < u32::MAX,
            old(self)@.program.env.node_count < u32::MAX,
        ensures
            old(self)@.assign(lhs@, rhs@).result == r@,
            old(self)@.assign(lhs@, rhs@).state == final(self)@,
            final(self)@.tokens == old(self)@.tokens,
            final(self)@.keeps(old(self)@),
            old(self)@.node_count <= final(self)@.node_count <= old(self)@.node_count + 1,
            final(self)@.program.env.node_count <= old(self)@.program.env.node_count + 1,
    {
        proof {
            reveal(ParserView::assign);
        }
        if rhs.return_type != lhs.return_type {
            return ParseResult::Failed(ParseError::TypeMismatch);
        }
        let rt = lhs.return_type;
        match lhs.expression_type {
            ExpressionType::LiteralExpression(name, _) => {
                let value = self.node(
                    ExpressionType::AssignmentExpression(name.clone(), Box::new(rhs)),
                    rt,
                );
                self.define(name, value)
            },
            _ => ParseResult::Failed(ParseError::InvalidAssignmentTarget),
        }
    }

    /// assignment: an equality, or an equality, `=` and an assignment.
    pub fn parse_assignment(&mut self) -> (r: ParseResult)
        requires
            old(self)@.fits(),
        ensures
            old(self)@.assignment().is_run(old(self)@, r@, final(self)@),
        decreases old(self)@.tokens.len(), 14nat,
    {
        let left = self.parse_equality();
        match left {
            ParseResult::Failed(_) => left,
            ParseResult::Success(lhs) => match self.lookahead() {
                Lookahead::Nothing => ParseResult::Failed(ParseError::OutOfTokens),
                Lookahead::Assign => {
                    self.pop();
                    let right = self.parse_assignment();
                    match right {
                        ParseResult::Failed(_) => right,
                        ParseResult::Success(rhs) => self.assign(lhs, rhs),
                    }
                },
                _ => ParseResult::Success(lhs),
            },
        }
    }

    /// expression: an assignment; the end of the input is refused at once.
    pub fn parse_expression(&mut self) -> (r: ParseResult)
        requires
            old(self)@.fits(),
        ensures
            old(self)@.expression().is_run(old(self)@, r@, final(self)@),
        decreases old(self)@.tokens.len(), 15nat,
    {
        match self.lookahead() {
            Lookahead::Nothing | Lookahead::EndMarker => ParseResult::Failed(
                ParseError::UnexpectedEof,
            ),
            _ => self.parse_assignment(),
        }
    }
}

} // verus!

//! The rules for statements, blocks and declarations.

use crate::compiler::ast::{expression_views, Expression, ExpressionType, ParseResult, ReturnType};
use crate::compiler::error::ParseError;
use crate::compiler::parser::{Lookahead, Parser};
use crate::compiler::token::Token;
use crate::compiler::grammar::ParserView;
use vstd::prelude::*;

verus! {

impl Parser {
    /// statement: expression `;`.
    pub fn parse_statement(&mut self) -> (r: ParseResult)
        requires
            old(self)@.fits(),
        ensures
            old(self)@.statement().is_step(old(self)@, r@, final(self)@),
        decreases old(self)@.tokens.len(), 16nat,
    {
        proof {
            reveal(ParserView::terminator);
        }
        let inner = self.parse_expression();
        match inner {
            ParseResult::Failed(_) => inner,
            ParseResult::Success(e) => match self.pop() {
                None => ParseResult::Failed(ParseError::OutOfTokens),
                Some(Token::Semicolon) => ParseResult::Success(e),
                Some(_) => ParseResult::Failed(ParseError::ExpectedSemicolon),
            },
        }
    }

    /// What follows `print`: exactly one string literal.
    pub fn parse_print_expression(&mut self) -> (r: ParseResult)
        requires
            old(self)@.fits(),
        ensures
            old(self)@.print().is_step(old(self)@, r@, final(self)@),
    {
        proof {
            reveal(ParserView::print);
        }
        match self.pop() {
            None => ParseResult::Failed(ParseError::OutOfTokens),
            Some(Token::StringLiteral(text)) => ParseResult::Success(
                self.node(ExpressionType::PrintExpression(text), ReturnType::ReturnString),
            ),
            Some(_) => ParseResult::Failed(ParseError::ExpectedString),
        }
    }

    /// A statement that is no declaration: `print` and a string, with the
    /// `;` after it if there is one; a block; or an expression and `;`.
    pub fn parse_expression_statement(&mut self) -> (r: ParseResult)
        requires
            old(self)@.fits(),
        ensures
            old(self)@.expression_statement().is_step(old(self)@, r@, final(self)@),
        decreases old(self)@.tokens.len(), 17nat,
    {
        match self.lookahead() {
            Lookahead::Print => {
                self.pop();
                let printed = self.parse_print_expression();
                if let ParseResult::Success(_) = &printed {
                    if self.lookahead() == Lookahead::Semicolon {
                        self.pop();
                    }
                }
                printed
            },
            Lookahead::LeftBrace => {
                self.pop();
                self.parse_block()
            },
            _ => self.parse_statement(),
        }
    }

    /// What follows the `{` of a block: statements up to the closing `}`,
    /// parsed in a scope of their own.
    pub fn parse_block(&mut self) -> (r: ParseResult)
        requires
            old(self)@.fits(),
        ensures
            old(self)@.block().is_step(old(self)@, r@, final(self)@),
        decreases old(self)@.tokens.len(), 20nat,
    {
        let outer = self.enter_scope();
        let r = self.parse_block_items();
        self.leave_scope(outer);
        r
    }

    /// The statements of a block and its closing `}`.
    fn parse_block_items(&mut self) -> (r: ParseResult)
        requires
            old(self)@.fits(),
        ensures
            old(self)@.block_items(Seq::empty()).is_step(old(self)@, r@, final(self)@),
        decreases old(self)@.tokens.len(), 19nat,
    {
        let ghost start = self@;
        let mut items: Vec<Expression> = Vec::new();
        assert(expression_views(items@) =~= Seq::empty());
        loop
            invariant
                start == old(self)@,
                start.fits(),
                self@.follows(start),
                self@.block_items(expression_views(items@)) == start.block_items(Seq::empty()),
            decreases self@.tokens.len(),
        {
            match self.lookahead() {
                Lookahead::Nothing => {
                    return ParseResult::Failed(ParseError::OutOfTokens);
                },
                Lookahead::RightBrace => {
                    self.pop();
                    let block = self.node(
                        ExpressionType::BlockExpression(items),
                        ReturnType::ReturnBlock,
                    );
                    proof {
                        block.lemma_block_view();
                    }
                    return ParseResult::Success(block);
                },
                Lookahead::EndMarker => {
                    return ParseResult::Failed(ParseError::UnexpectedEof);
                },
                _ => {
                    let item = self.parse_declaration();
                    match item {
                        ParseResult::Failed(_) => {
                            return item;
                        },
                        ParseResult::Success(e) => {
                            self.skip_id();
                            proof {
                                assert(expression_views(items@.push(e)) =~= expression_views(
                                    items@,
                                ).push(e@));
                            }
                            items.push(e);
                        },
                    }
                },
            }
        }
    }

    /// declaration: `var` and a variable statement, `fn` and a function
    /// header, or a statement that is no declaration.
    pub fn parse_declaration(&mut self) -> (r: ParseResult)
        requires
            old(self)@.fits(),
        ensures
            old(self)@.declaration().is_step(old(self)@, r@, final(self)@),
        decreases old(self)@.tokens.len(), 18nat,
    {
        match self.lookahead() {
            Lookahead::Var => {
                self.pop();
                self.parse_var_decl_statement()
            },
            Lookahead::Function => {
                self.pop();
                self.parse_function_header_statement()
            },
            _ => self.parse_expression_statement(),
        }
    }

    /// What follows `var`: a name that the scope chain binds already, `=`,
    /// an expression of the type of that binding, and `;`.
    pub fn parse_var_decl_statement(&mut self) -> (r: ParseResult)
        requires
            old(self)@.fits(),
        ensures
            old(self)@.var_declaration().is_step(old(self)@, r@, final(self)@),
        decreases old(self)@.tokens.len(), 16nat,
    {
        proof {
            reveal(ParserView::var_end);
        }
        let name = match self.pop() {
            None => {
                return ParseResult::Failed(ParseError::OutOfTokens);
            },
            Some(Token::Identifier(name)) => name,
            Some(_) => {
                return ParseResult::Failed(ParseError::ExpectedIdentifier);
            },
        };
        let declared = match self.lookup(name) {
            None => {
                return ParseResult::Failed(ParseError::NotDefined);
            },
            Some(bound) => bound.return_type,
        };
        match self.pop() {
            None => {
                return ParseResult::Failed(ParseError::OutOfTokens);
            },
            Some(Token::Assign) => {},
            Some(_) => {
                return ParseResult::Failed(ParseError::ExpectedAssign);
            },
        }
        let value = self.parse_expression();
        match value {
            ParseResult::Failed(_) => value,
            ParseResult::Success(e) => {
                if e.return_type != declared {
                    return ParseResult::Failed(ParseError::TypeMismatch);
                }
                match self.pop() {
                    None => ParseResult::Failed(ParseError::OutOfTokens),
                    Some(Token::Semicolon) => ParseResult::Success(
                        self.node(ExpressionType::VarExpression(Box::new(e)), declared),
                    ),
                    Some(_) => ParseResult::Failed(ParseError::ExpectedSemicolon),
                }
            },
        }
    }
}

} // verus!

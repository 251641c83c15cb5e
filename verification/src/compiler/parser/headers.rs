//! The rule for function headers.

use crate::compiler::ast::{
    argument_views, Argument, Expression, ExpressionType, FunctionHeader, ParseResult, ReturnType,
};
use crate::compiler::error::ParseError;
use crate::compiler::parser::Parser;
use crate::compiler::token::Token;
use crate::compiler::grammar::ParserView;
use vstd::prelude::*;

verus! {

impl Parser {
    /// What follows `fn`: a name, `:`, a token that denotes a type, `(`, and
    /// the argument list up to its `)`.
    pub fn parse_function_header_statement(&mut self) -> (r: ParseResult)
        requires
            old(self)@.fits(),
        ensures
            old(self)@.function_header().is_step(old(self)@, r@, final(self)@),
    {
        proof {
            reveal(ParserView::function_header);
            reveal(ParserView::arguments);
        }
        let ghost start = self@;
        let name = match self.pop() {
            None => {
                return ParseResult::Failed(ParseError::OutOfTokens);
            },
            Some(Token::Identifier(name)) => name,
            Some(_) => {
                return ParseResult::Failed(ParseError::ExpectedFunctionIdentifier);
            },
        };
        match self.pop() {
            None => {
                return ParseResult::Failed(ParseError::OutOfTokens);
            },
            Some(Token::Colon) => {},
            Some(_) => {
                return ParseResult::Failed(ParseError::ExpectedColon);
            },
        }
        let ret_type = match self.pop() {
            None => {
                return ParseResult::Failed(ParseError::OutOfTokens);
            },
            Some(tok) => ReturnType::from(tok),
        };
        if ret_type == ReturnType::ReturnInvalid {
            return ParseResult::Failed(ParseError::ExpectedReturnType);
        }
        match self.pop() {
            None => {
                return ParseResult::Failed(ParseError::OutOfTokens);
            },
            Some(Token::LeftParenthesis) => {},
            Some(_) => {
                return ParseResult::Failed(ParseError::ExpectedLeftParenthesis);
            },
        }
        let mut args: Vec<Argument> = Vec::new();
        assert(argument_views(args@) =~= Seq::empty());
        loop
            invariant
                start == old(self)@,
                start.fits(),
                self@.follows(start),
                self@.tokens.len() + 4 <= start.tokens.len(),
                self@.arguments(name@, ret_type, argument_views(args@)) == start.function_header(),
            decreases self@.tokens.len(),
        {
            proof {
                reveal(ParserView::function_header);
                reveal(ParserView::arguments);
            }
            let rt = match self.pop() {
                None => {
                    return ParseResult::Failed(ParseError::OutOfTokens);
                },
                Some(tok) => ReturnType::from(tok),
            };
            match rt {
                ReturnType::ReturnVoid => {
                    if args.len() > 0 {
                        return ParseResult::Failed(ParseError::UnexpectedVoid);
                    }
                    return match self.pop() {
                        None => ParseResult::Failed(ParseError::OutOfTokens),
                        Some(Token::RightParenthesis) => ParseResult::Success(
                            self.header_node(name, ret_type, args),
                        ),
                        Some(_) => ParseResult::Failed(ParseError::ExpectedRightParenthesis),
                    };
                },
                ReturnType::ReturnInteger
                | ReturnType::ReturnString
                | ReturnType::ReturnBool
                | ReturnType::ReturnFloat
                | ReturnType::ReturnStruct
                | ReturnType::ReturnCollection => {
                    match self.pop() {
                        None => {
                            return ParseResult::Failed(ParseError::OutOfTokens);
                        },
                        Some(Token::Colon) => {},
                        Some(_) => {
                            return ParseResult::Failed(ParseError::ExpectedArgumentColon);
                        },
                    }
                    match self.pop() {
                        None => {
                            return ParseResult::Failed(ParseError::OutOfTokens);
                        },
                        Some(Token::Identifier(ident)) => {
                            let arg = Argument::new(rt, ident);
                            proof {
                                assert(argument_views(args@.push(arg)) =~= argument_views(
                                    args@,
                                ).push(arg@));
                            }
                            args.push(arg);
                        },
                        Some(_) => {
                            return ParseResult::Failed(ParseError::ExpectedArgumentName);
                        },
                    }
                },
                ReturnType::ReturnContinue => {},
                ReturnType::ReturnEOF => {
                    return ParseResult::Failed(ParseError::UnexpectedEof);
                },
                ReturnType::ReturnArguments => {
                    if args.len() > 0 {
                        return ParseResult::Success(self.header_node(name, ret_type, args));
                    }
                    return ParseResult::Failed(ParseError::ExpectedArgumentList);
                },
                _ => {
                    return ParseResult::Failed(ParseError::UnexpectedArgument);
                },
            }
        }
    }

    /// The node of a function header.
    fn header_node(&mut self, name: String, return_type: ReturnType, args: Vec<Argument>) -> (e:
        Expression)
        requires
            old(self)@.node_count < u32::MAX,
        ensures
            old(self)@.header_node(name@, return_type, argument_views(args@)) == final(self)@.ok(e@),
    {
        self.node(
            ExpressionType::FunctionHeaderExpression(FunctionHeader::new(name, return_type, args)),
            ReturnType::ReturnFunctionHeader,
        )
    }
}

} // verus!

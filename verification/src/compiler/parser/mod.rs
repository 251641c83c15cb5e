//! The parser: one pass over the tokens that builds the syntax tree, checks
//! the types of operands and binds names, all at once. The first failure
//! ends the parse.

use crate::compiler::environment::EnvironmentView;
use crate::compiler::grammar::{is_literal, Level, ParserView};
use crate::compiler::token::{token_views, Token, TokenView};
use vstd::prelude::*;

pub use crate::compiler::ast::{
    Argument, AstProgram, Expression, ExpressionType, Function, FunctionHeader, ParseResult,
    ReturnType, Statement,
};
pub use crate::compiler::environment::{Environment, Variable};
pub use crate::compiler::error::{ErrorKind, ParseError};

use crate::compiler::ast::statement_views;

pub mod driver;
pub mod expressions;
pub mod headers;
pub mod statements;

verus! {

/// Whether `tok` can stand for itself as a leaf of an expression.
pub fn is_literal_token(tok: &Token) -> (r: bool)
    ensures
        r == is_literal(tok@),
{
    match tok {
        Token::StringLiteral(_)
        | Token::IntegerLiteral(_)
        | Token::FloatLiteral(_)
        | Token::BooleanLiteral(_)
        | Token::CollectionLiteral
        | Token::RangeLiteral
        | Token::Identifier(_)
        | Token::Null => true,
        _ => false,
    }
}

impl Level {
    /// Whether `tok` is an operator of this level.
    pub fn is_operator(self, tok: &Token) -> (r: bool)
        ensures
            r == self.has(tok@),
    {
        match self {
            Level::Equality => matches!(tok, Token::Equality | Token::NotEquality),
            Level::Comparison => matches!(
                tok,
                Token::GreaterThan | Token::LessThan | Token::LessThanEqual | Token::GreaterThanEqual
            ),
            Level::Additive => matches!(tok, Token::Add | Token::Subtract),
            Level::Multiplicative => matches!(tok, Token::Multiply | Token::Divide),
        }
    }
}

/// What the next token is, as far as the rules that look ahead ask.
#[derive(Clone, Copy, PartialEq, Eq, Structural)]
enum Lookahead {
    Nothing,
    EndMarker,
    Name,
    Assign,
    Semicolon,
    Print,
    LeftBrace,
    RightBrace,
    Var,
    Function,
    Negation,
    Other,
}

/// A parser over a sequence of tokens.
pub struct Parser {
    program: AstProgram,
    /// The tokens not yet consumed, in reverse: the last one is the next.
    tokens: Vec<Token>,
    node_count: u32,
    diagnostic: Option<ParseError>,
}

impl View for Parser {
    type V = ParserView;

    closed spec fn view(&self) -> ParserView {
        ParserView {
            tokens: token_views(self.tokens@),
            node_count: self.node_count as nat,
            program: self.program@,
            diagnostic: self.diagnostic,
        }
    }
}

impl Parser {
    /// A parser over `toks`, which hold the input in reverse: the last
    /// token is the first of the input, and the end marker comes first.
    pub fn new(toks: Vec<Token>) -> (parser: Parser)
        requires
            2 * toks@.len() <= u32::MAX,
        ensures
            parser@ == ParserView::start(token_views(toks@)),
            parser@.fits(),
    {
        Parser { program: AstProgram::new(), tokens: toks, node_count: 0, diagnostic: None }
    }

    /// A parser over `toks`, in reverse as for `new`, that goes on with
    /// `program`: it appends to its statements and begins in its scope.
    pub fn with_program(toks: Vec<Token>, program: AstProgram) -> (parser: Parser)
        requires
            2 * toks@.len() <= u32::MAX,
            program.env.node_count + toks@.len() <= u32::MAX,
        ensures
            parser@ == (ParserView { program: program@, ..ParserView::start(token_views(toks@)) }),
            parser@.fits(),
    {
        Parser { program, tokens: toks, node_count: 0, diagnostic: None }
    }

    /// Why the parse of the program was given up, if it was.
    pub fn diagnostic(&self) -> (d: Option<ParseError>)
        ensures
            d == self@.diagnostic,
    {
        self.diagnostic
    }

    /// How many tokens are left.
    pub fn remaining(&self) -> (n: usize)
        ensures
            n == self@.tokens.len(),
    {
        self.tokens.len()
    }

    fn peek(&self) -> (r: Option<&Token>)
        ensures
            match r {
                Some(tok) => self@.peek() == Some(tok@),
                None => self@.peek() is None,
            },
    {
        self.tokens.last()
    }

    fn lookahead(&self) -> (r: Lookahead)
        ensures
            match self@.peek() {
                None => r == Lookahead::Nothing,
                Some(TokenView::EOF) => r == Lookahead::EndMarker,
                Some(TokenView::Identifier(_)) => r == Lookahead::Name,
                Some(TokenView::Assign) => r == Lookahead::Assign,
                Some(TokenView::Semicolon) => r == Lookahead::Semicolon,
                Some(TokenView::Print) => r == Lookahead::Print,
                Some(TokenView::LeftBrace) => r == Lookahead::LeftBrace,
                Some(TokenView::RightBrace) => r == Lookahead::RightBrace,
                Some(TokenView::VarDecl) => r == Lookahead::Var,
                Some(TokenView::FunctionDecl) => r == Lookahead::Function,
                Some(TokenView::Bang) | Some(TokenView::Subtract) => r == Lookahead::Negation,
                Some(_) => r == Lookahead::Other,
            },
    {
        match self.peek() {
            None => Lookahead::Nothing,
            Some(Token::EOF) => Lookahead::EndMarker,
            Some(Token::Identifier(_)) => Lookahead::Name,
            Some(Token::Assign) => Lookahead::Assign,
            Some(Token::Semicolon) => Lookahead::Semicolon,
            Some(Token::Print) => Lookahead::Print,
            Some(Token::LeftBrace) => Lookahead::LeftBrace,
            Some(Token::RightBrace) => Lookahead::RightBrace,
            Some(Token::VarDecl) => Lookahead::Var,
            Some(Token::FunctionDecl) => Lookahead::Function,
            Some(Token::Bang) | Some(Token::Subtract) => Lookahead::Negation,
            Some(_) => Lookahead::Other,
        }
    }

    fn pop(&mut self) -> (r: Option<Token>)
        ensures
            match r {
                Some(tok) => old(self)@.peek() == Some(tok@) && final(self)@ == old(self)@.advance(),
                None => old(self)@.peek() is None && final(self)@ == old(self)@,
            },
    {
        let r = self.tokens.pop();
        proof {
            if r is Some {
                assert(token_views(self.tokens@) =~= token_views(old(self).tokens@).drop_last());
            }
        }
        r
    }

    /// A new node, which takes the next id.
    fn node(&mut self, expression_type: ExpressionType, return_type: ReturnType) -> (e: Expression)
        requires
            old(self)@.node_count < u32::MAX,
        ensures
            e == (Expression { id: (old(self)@.node_count + 1) as u32, expression_type, return_type }),
            e@.id == old(self)@.node_count + 1,
            final(self)@ == old(self)@.count(),
    {
        self.node_count += 1;
        Expression::new(self.node_count, expression_type, return_type)
    }

    /// Passes over one id.
    fn skip_id(&mut self)
        requires
            old(self)@.node_count < u32::MAX,
        ensures
            final(self)@ == old(self)@.count(),
    {
        self.node_count += 1;
    }

    /// Makes a scope of its own inside the current one the current scope,
    /// and hands back the scope that was current.
    fn enter_scope(&mut self) -> (outer: Environment)
        ensures
            outer@ == old(self)@.program.env,
            final(self)@ == old(self)@.with_env(EnvironmentView::nested(outer@)),
    {
        let mut scope = Environment::new_sub(self.program.env.clone());
        core::mem::swap(&mut self.program.env, &mut scope);
        scope
    }

    /// Makes `outer` the current scope again.
    fn leave_scope(&mut self, outer: Environment)
        ensures
            final(self)@ == old(self)@.with_env(outer@),
    {
        self.program.env = outer;
    }

    /// A copy of the node bound to `name` in the scope chain.
    fn lookup(&self, name: String) -> (r: Option<Expression>)
        ensures
            match r {
                Some(bound) => self@.program.env.lookup(name@) == Some(bound@),
                None => self@.program.env.lookup(name@) is None,
            },
    {
        match self.program.env.get_value(name) {
            ParseResult::Success(bound) => Some(bound),
            ParseResult::Failed(_) => None,
        }
    }

    /// Defines `name` in the current scope.
    fn define(&mut self, name: String, value: Expression) -> (r: ParseResult)
        requires
            old(self)@.program.env.node_count < u32::MAX,
        ensures
            r@ == old(self)@.program.env.define(name@, value@).0,
            final(self)@ == old(self)@.with_env(old(self)@.program.env.define(name@, value@).1),
    {
        self.program.env.define(Variable::new(name, value))
    }

    /// Gives the parse of the program up.
    fn give_up(&mut self, err: ParseError)
        ensures
            final(self)@ == old(self)@.abort(err),
    {
        self.diagnostic = Some(err);
    }

    /// A copy of the program as it stands.
    fn program(&self) -> (program: AstProgram)
        ensures
            program@ == self@.program,
    {
        self.program.clone()
    }

    /// Appends the statement of `expr` to the program.
    pub fn push_expression_statement(&mut self, expr: Expression)
        ensures
            final(self)@ == old(self)@.push(expr@),
    {
        let stat = Statement::new(expr);
        self.push_statement(stat);
    }

    /// Appends `stat` to the program.
    pub fn push_statement(&mut self, stat: Statement)
        ensures
            final(self)@ == old(self)@.push(stat@),
    {
        proof {
            assert(statement_views(self.program.statements@.push(stat)) =~= statement_views(
                self.program.statements@,
            ).push(stat@));
        }
        self.program.statements.push(stat);
    }
}

} // verus!

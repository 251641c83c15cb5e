//! Every rule of the grammar only consumes: it leaves no more tokens than
//! it was given, and the ids it gives out are paid for by tokens that it
//! consumed. A statement that succeeds has consumed a token. So the
//! questions that the definitions of the rules ask for the sake of being
//! well founded are always answered with yes, and the rules can be read
//! without them.

use crate::compiler::ast::{
    token_type, ArgumentView, ExpressionTypeView, ExpressionView, ParseResultView, ReturnType,
};
use crate::compiler::error::ParseError;
use crate::compiler::environment::EnvironmentView;
use crate::compiler::grammar::{Level, ParserView};
use crate::compiler::token::TokenView;
use vstd::prelude::*;

verus! {

pub proof fn lemma_primary(s: ParserView)
    ensures
        s.primary().runs_from(s),
    decreases s.tokens.len(), 0nat,
{
    if s.peek() == Some(TokenView::LeftBrace) {
        lemma_expression(s.advance());
    }
}

pub proof fn lemma_unary(s: ParserView)
    ensures
        s.unary().runs_from(s),
    decreases s.tokens.len(), 1nat,
{
    match s.peek() {
        Some(tok) if tok is Bang || tok is Subtract => {
            lemma_unary(s.advance());
        },
        _ => {
            lemma_primary(s);
        },
    }
}

pub proof fn lemma_operand(s: ParserView, level: Level)
    ensures
        s.operand(level).runs_from(s),
    decreases s.tokens.len(), 2 * (3 - level.strength()) + 2,
{
    if level == Level::Multiplicative {
        lemma_unary(s);
    } else {
        lemma_binary(s, level.tighter());
    }
}

pub proof fn lemma_binary(s: ParserView, level: Level)
    ensures
        s.binary(level).runs_from(s),
    decreases s.tokens.len(), 2 * (3 - level.strength()) + 3,
{
    lemma_operand(s, level);
    let first = s.operand(level);
    if let ParseResultView::Success(lhs) = first.result {
        lemma_fold(first.state, level, lhs);
    }
}

pub proof fn lemma_fold(s: ParserView, level: Level, lhs: ExpressionView)
    ensures
        s.fold(level, lhs).runs_from(s),
    decreases s.tokens.len(), 2 * (3 - level.strength()) + 2,
{
    match s.peek() {
        Some(op) if level.has(op) => {
            lemma_operand(s.advance(), level);
            let next = s.advance().operand(level);
            if let ParseResultView::Success(rhs) = next.result {
                if lhs.return_type == rhs.return_type {
                    lemma_fold(
                        next.state.count(),
                        level,
                        ExpressionView {
                            id: next.state.node_count + 1,
                            expression_type: ExpressionTypeView::BinaryExpression(
                                op,
                                Box::new(lhs),
                                Box::new(rhs),
                            ),
                            return_type: lhs.return_type,
                        },
                    );
                }
            }
        },
        _ => {},
    }
}

/// The end of an assignment consumes nothing, and gives out at most one id
/// of the parser and one of the scope.
pub proof fn lemma_assign(s: ParserView, lhs: ExpressionView, rhs: ExpressionView)
    ensures
        s.assign(lhs, rhs).state.tokens == s.tokens,
        s.assign(lhs, rhs).state.keeps(s),
        s.node_count <= s.assign(lhs, rhs).state.node_count <= s.node_count + 1,
        s.assign(lhs, rhs).state.program.env.node_count <= s.program.env.node_count + 1,
{
    reveal(ParserView::assign);
}

pub proof fn lemma_assignment(s: ParserView)
    ensures
        s.assignment().runs_from(s),
    decreases s.tokens.len(), 12nat,
{
    lemma_binary(s, Level::Equality);
    let left = s.binary(Level::Equality);
    if let ParseResultView::Success(lhs) = left.result {
        if left.state.peek() == Some(TokenView::Assign) {
            lemma_assignment(left.state.advance());
            let right = left.state.advance().assignment();
            if let ParseResultView::Success(rhs) = right.result {
                lemma_assign(right.state, lhs, rhs);
            }
        }
    }
}

pub proof fn lemma_expression(s: ParserView)
    ensures
        s.expression().runs_from(s),
    decreases s.tokens.len(), 13nat,
{
    match s.peek() {
        None | Some(TokenView::EOF) => {},
        Some(_) => {
            lemma_assignment(s);
        },
    }
}

pub proof fn lemma_statement(s: ParserView)
    ensures
        s.statement().steps_from(s),
    decreases s.tokens.len(), 14nat,
{
    reveal(ParserView::terminator);
    lemma_expression(s);
}

pub proof fn lemma_print(s: ParserView)
    ensures
        s.print().steps_from(s),
{
    reveal(ParserView::print);
}

pub proof fn lemma_expression_statement(s: ParserView)
    ensures
        s.expression_statement().steps_from(s),
    decreases s.tokens.len(), 15nat,
{
    match s.peek() {
        Some(TokenView::Print) => {
            lemma_print(s.advance());
        },
        Some(TokenView::LeftBrace) => {
            lemma_block(s.advance());
        },
        _ => {
            lemma_statement(s);
        },
    }
}

pub proof fn lemma_block(s: ParserView)
    ensures
        s.block().steps_from(s),
    decreases s.tokens.len(), 18nat,
{
    lemma_block_items(s.with_env(EnvironmentView::nested(s.program.env)), Seq::empty());
}

pub proof fn lemma_block_items(s: ParserView, items: Seq<ExpressionView>)
    ensures
        s.block_items(items).steps_from(s),
    decreases s.tokens.len(), 17nat,
{
    match s.peek() {
        None | Some(TokenView::RightBrace) | Some(TokenView::EOF) => {},
        Some(_) => {
            lemma_declaration(s);
            let item = s.declaration();
            if let ParseResultView::Success(e) = item.result {
                lemma_block_items(item.state.count(), items.push(e));
            }
        },
    }
}

pub proof fn lemma_declaration(s: ParserView)
    ensures
        s.declaration().steps_from(s),
    decreases s.tokens.len(), 16nat,
{
    match s.peek() {
        Some(TokenView::VarDecl) => {
            lemma_var_declaration(s.advance());
        },
        Some(TokenView::FunctionDecl) => {
            lemma_function_header(s.advance());
        },
        _ => {
            lemma_expression_statement(s);
        },
    }
}

pub proof fn lemma_var_declaration(s: ParserView)
    ensures
        s.var_declaration().steps_from(s),
    decreases s.tokens.len(), 14nat,
{
    reveal(ParserView::var_end);
    if s.tokens.len() >= 2 {
        lemma_expression(s.advance().advance());
    }
}

pub proof fn lemma_arguments(
    s: ParserView,
    name: Seq<char>,
    return_type: ReturnType,
    args: Seq<ArgumentView>,
)
    ensures
        s.arguments(name, return_type, args).steps_from(s),
    decreases s.tokens.len(),
{
    reveal(ParserView::arguments);
    match s.peek() {
        None => {},
        Some(tok) => {
            let s1 = s.advance();
            lemma_arguments(s1, name, return_type, args);
            if s1.tokens.len() >= 2 {
                if let Some(TokenView::Identifier(ident)) = s1.advance().peek() {
                    lemma_arguments(
                        s1.advance().advance(),
                        name,
                        return_type,
                        args.push(
                            ArgumentView {
                                return_type: token_type(tok),
                                ident,
                            },
                        ),
                    );
                }
            }
        },
    }
}

pub proof fn lemma_function_header(s: ParserView)
    ensures
        s.function_header().steps_from(s),
{
    reveal(ParserView::function_header);
    if s.tokens.len() >= 4 {
        if let Some(TokenView::Identifier(name)) = s.peek() {
            if let Some(tok) = s.advance().advance().peek() {
                lemma_arguments(
                    s.advance().advance().advance().advance(),
                    name,
                    token_type(tok),
                    Seq::empty(),
                );
            }
        }
    }
}

pub proof fn lemma_top_statement(s: ParserView)
    ensures
        s.top_statement().steps_from(s),
{
    lemma_declaration(s);
}

/// The parse of a program consumes only.
pub proof fn lemma_parse(s: ParserView)
    ensures
        s.parse().tokens.len() <= s.tokens.len(),
    decreases s.tokens.len(),
{
    if s.diagnostic is None {
        match s.peek() {
            None | Some(TokenView::EOF) => {},
            Some(_) => {
                lemma_top_statement(s);
                let next = s.top_statement();
                if let ParseResultView::Success(e) = next.result {
                    lemma_parse(next.state.push(e));
                }
            },
        }
    }
}

/// A chain is its first operand, and what goes on from there.
pub proof fn lemma_binary_unfolds(s: ParserView, level: Level)
    ensures
        s.binary(level) == match s.operand(level).result {
            ParseResultView::Failed(_) => s.operand(level),
            ParseResultView::Success(lhs) => s.operand(level).state.fold(level, lhs),
        },
{
    lemma_operand(s, level);
}

/// A chain goes on with an operator of its level and an operand of the
/// type of what came before, and ends before anything else.
pub proof fn lemma_fold_unfolds(s: ParserView, level: Level, lhs: ExpressionView)
    ensures
        s.fold(level, lhs) == match s.peek() {
            Some(op) if level.has(op) => {
                let next = s.advance().operand(level);
                match next.result {
                    ParseResultView::Failed(_) => next,
                    ParseResultView::Success(rhs) => if lhs.return_type != rhs.return_type {
                        next.state.fail(ParseError::TypeMismatch)
                    } else {
                        next.state.count().fold(
                            level,
                            ExpressionView {
                                id: next.state.node_count + 1,
                                expression_type: ExpressionTypeView::BinaryExpression(
                                    op,
                                    Box::new(lhs),
                                    Box::new(rhs),
                                ),
                                return_type: lhs.return_type,
                            },
                        )
                    },
                }
            },
            _ => s.ok(lhs),
        },
{
    if s.tokens.len() > 0 {
        lemma_operand(s.advance(), level);
    }
}

/// An assignment is an equality, and after a `=` an assignment to it.
pub proof fn lemma_assignment_unfolds(s: ParserView)
    ensures
        s.assignment() == ({
            let left = s.binary(Level::Equality);
            match left.result {
                ParseResultView::Failed(_) => left,
                ParseResultView::Success(lhs) => match left.state.peek() {
                    None => left.state.fail(ParseError::OutOfTokens),
                    Some(TokenView::Assign) => {
                        let right = left.state.advance().assignment();
                        match right.result {
                            ParseResultView::Failed(_) => right,
                            ParseResultView::Success(rhs) => right.state.assign(lhs, rhs),
                        }
                    },
                    Some(_) => left,
                },
            }
        }),
{
    lemma_binary(s, Level::Equality);
}

/// A block goes on with a statement, after which one id is passed over,
/// and ends with `}`.
pub proof fn lemma_block_items_unfolds(s: ParserView, items: Seq<ExpressionView>)
    requires
        s.peek() is Some,
        s.peek() != Some(TokenView::RightBrace),
        s.peek() != Some(TokenView::EOF),
    ensures
        s.block_items(items) == match s.declaration().result {
            ParseResultView::Failed(_) => s.declaration(),
            ParseResultView::Success(e) => s.declaration().state.count().block_items(items.push(e)),
        },
{
    lemma_declaration(s);
}

} // verus!

//! What a parse promises of the nodes it makes: their types agree, their
//! ids are new, and none of them is a binding, so that the scope of a parse
//! stays as it was.

use crate::compiler::ast::{
    token_type, ArgumentView, ExpressionTypeView, ExpressionView, ParseResultView, ReturnType,
};
use crate::compiler::environment::EnvironmentView;
use crate::compiler::grammar::{Level, Parsed, ParserView};
use crate::compiler::progress::{
    lemma_binary, lemma_declaration, lemma_expression, lemma_operand, lemma_top_statement,
    lemma_unary,
};
use crate::compiler::token::TokenView;
use vstd::prelude::*;

verus! {

/// Whether the types in the tree of `e` agree:
/// - a leaf has the type that its token denotes;
/// - a unary node has the type that its operator denotes;
/// - the operands of a binary node have one type, which is the node's;
/// - a binding, an assignment and a variable statement have the type of
///   the node they hold;
/// - a print statement is a string, a block is a block, a function header
///   is a function header;
/// and so for every node inside it.
pub open spec fn well_typed(e: ExpressionView) -> bool
    decreases e,
{
    match e.expression_type {
        ExpressionTypeView::Literal(tok) => e.return_type == token_type(tok),
        ExpressionTypeView::LiteralExpression(_, value) => e.return_type == value.return_type
            && well_typed(*value),
        ExpressionTypeView::AssignmentExpression(_, value) => e.return_type == value.return_type
            && well_typed(*value),
        ExpressionTypeView::PrintExpression(_) => e.return_type == ReturnType::ReturnString,
        ExpressionTypeView::BlockExpression(items) => e.return_type == ReturnType::ReturnBlock
            && forall|i: int| 0 <= i < items.len() ==> well_typed(#[trigger] items[i]),
        ExpressionTypeView::VarExpression(value) => e.return_type == value.return_type
            && well_typed(*value),
        ExpressionTypeView::UnaryExpression(op, operand) => e.return_type == token_type(op)
            && well_typed(*operand),
        ExpressionTypeView::BinaryExpression(_, lhs, rhs) => lhs.return_type == rhs.return_type
            && e.return_type == lhs.return_type && well_typed(*lhs) && well_typed(*rhs),
        ExpressionTypeView::FunctionHeaderExpression(_) => e.return_type
            == ReturnType::ReturnFunctionHeader,
        ExpressionTypeView::ConstExpression(value) => well_typed(*value),
        ExpressionTypeView::LoopExpression(body) => well_typed(*body),
        ExpressionTypeView::ConditionalExpression(condition, body) => well_typed(*condition)
            && well_typed(*body),
        ExpressionTypeView::FunctionExpression(function) => well_typed(*function.body),
    }
}

/// Whether every node bound in `env` and in the scopes around it is well
/// typed.
pub open spec fn scope_well_typed(env: EnvironmentView) -> bool
    decreases env,
{
    &&& forall|name: Seq<char>| env.vars.contains_key(name) ==> well_typed(#[trigger] env.vars[name])
    &&& match env.enclosing {
        Some(outer) => scope_well_typed(*outer),
        None => true,
    }
}

/// Whether `e` is a node that a rule of the grammar makes: a well-typed
/// node that is no binding.
pub open spec fn made(e: ExpressionView) -> bool {
    well_typed(e) && !(e.expression_type is LiteralExpression)
}

impl Parsed {
    /// Whether a rule that ended so has handed back, if it succeeded, a
    /// node that it made, with an id that was given out after `given`
    /// ids.
    pub open spec fn made_after(self, given: nat) -> bool {
        self.result matches ParseResultView::Success(e) ==> made(e) && given < e.id
            <= self.state.node_count
    }

    /// Whether a rule that began in `before` and ended so has left the
    /// scope alone and, if it succeeded, has made its node and given it a
    /// new id.
    pub open spec fn sound_from(self, before: ParserView) -> bool {
        &&& self.state.program.env == before.program.env
        &&& self.made_after(before.node_count)
    }
}

/// A node that a scope finds is well typed if the scope is.
pub proof fn lemma_lookup_well_typed(env: EnvironmentView, name: Seq<char>)
    requires
        scope_well_typed(env),
    ensures
        env.lookup(name) matches Some(bound) ==> well_typed(bound),
    decreases env,
{
    if !env.vars.contains_key(name) {
        if let Some(outer) = env.enclosing {
            lemma_lookup_well_typed(*outer, name);
        }
    }
}

pub proof fn lemma_primary_sound(s: ParserView)
    ensures
        s.primary().sound_from(s),
    decreases s.tokens.len(), 0nat,
{
    if s.peek() == Some(TokenView::LeftBrace) {
        lemma_expression_sound(s.advance());
        lemma_expression(s.advance());
    }
}

pub proof fn lemma_unary_sound(s: ParserView)
    ensures
        s.unary().sound_from(s),
    decreases s.tokens.len(), 1nat,
{
    match s.peek() {
        Some(tok) if tok is Bang || tok is Subtract => {
            lemma_unary_sound(s.advance());
            lemma_unary(s.advance());
        },
        _ => {
            lemma_primary_sound(s);
        },
    }
}

pub proof fn lemma_operand_sound(s: ParserView, level: Level)
    ensures
        s.operand(level).sound_from(s),
    decreases s.tokens.len(), 2 * (3 - level.strength()) + 2,
{
    if level == Level::Multiplicative {
        lemma_unary_sound(s);
    } else {
        lemma_binary_sound(s, level.tighter());
    }
}

pub proof fn lemma_binary_sound(s: ParserView, level: Level)
    ensures
        s.binary(level).sound_from(s),
    decreases s.tokens.len(), 2 * (3 - level.strength()) + 3,
{
    lemma_operand_sound(s, level);
    lemma_operand(s, level);
    let first = s.operand(level);
    if let ParseResultView::Success(lhs) = first.result {
        lemma_fold_sound(first.state, level, lhs, s.node_count);
    }
}

pub proof fn lemma_fold_sound(s: ParserView, level: Level, lhs: ExpressionView, given: nat)
    requires
        made(lhs),
        given < lhs.id <= s.node_count,
    ensures
        s.fold(level, lhs).state.program.env == s.program.env,
        s.fold(level, lhs).made_after(given),
    decreases s.tokens.len(), 2 * (3 - level.strength()) + 2,
{
    match s.peek() {
        Some(op) if level.has(op) => {
            lemma_operand_sound(s.advance(), level);
            lemma_operand(s.advance(), level);
            let next = s.advance().operand(level);
            if let ParseResultView::Success(rhs) = next.result {
                if lhs.return_type == rhs.return_type {
                    lemma_fold_sound(
                        next.state.count(),
                        level,
                        ExpressionView {
                            id: next.state.node_count + 1,
                            expression_type: ExpressionTypeView::BinaryExpression(
                                op,
                                Box::new(lhs),
                                Box::new(rhs),
                            ),
                            return_type: lhs.return_type,
                        },
                        given,
                    );
                }
            }
        },
        _ => {},
    }
}

/// The end of an assignment whose left side is no binding fails and leaves
/// the scope alone.
pub proof fn lemma_assign_fails(s: ParserView, lhs: ExpressionView, rhs: ExpressionView)
    requires
        !(lhs.expression_type is LiteralExpression),
    ensures
        s.assign(lhs, rhs).result is Failed,
        s.assign(lhs, rhs).state == s,
{
    reveal(ParserView::assign);
}

pub proof fn lemma_assignment_sound(s: ParserView)
    ensures
        s.assignment().sound_from(s),
        s.binary(Level::Equality).result is Success && s.binary(Level::Equality).state.peek()
            == Some(TokenView::Assign) ==> s.assignment().result is Failed,
    decreases s.tokens.len(), 12nat,
{
    lemma_binary_sound(s, Level::Equality);
    lemma_binary(s, Level::Equality);
    let left = s.binary(Level::Equality);
    if let ParseResultView::Success(lhs) = left.result {
        if left.state.peek() == Some(TokenView::Assign) {
            lemma_assignment_sound(left.state.advance());
            let right = left.state.advance().assignment();
            if let ParseResultView::Success(rhs) = right.result {
                lemma_assign_fails(right.state, lhs, rhs);
            }
        }
    }
}

pub proof fn lemma_expression_sound(s: ParserView)
    ensures
        s.expression().sound_from(s),
    decreases s.tokens.len(), 13nat,
{
    match s.peek() {
        None | Some(TokenView::EOF) => {},
        Some(_) => {
            lemma_assignment_sound(s);
        },
    }
}

pub proof fn lemma_statement_sound(s: ParserView)
    ensures
        s.statement().sound_from(s),
    decreases s.tokens.len(), 14nat,
{
    reveal(ParserView::terminator);
    lemma_expression_sound(s);
    lemma_expression(s);
}

pub proof fn lemma_print_sound(s: ParserView)
    ensures
        s.print().sound_from(s),
{
    reveal(ParserView::print);
}

pub proof fn lemma_expression_statement_sound(s: ParserView)
    ensures
        s.expression_statement().sound_from(s),
    decreases s.tokens.len(), 15nat,
{
    match s.peek() {
        Some(TokenView::Print) => {
            lemma_print_sound(s.advance());
        },
        Some(TokenView::LeftBrace) => {
            lemma_block_sound(s.advance());
        },
        _ => {
            lemma_statement_sound(s);
        },
    }
}

pub proof fn lemma_block_sound(s: ParserView)
    ensures
        s.block().sound_from(s),
    decreases s.tokens.len(), 18nat,
{
    lemma_block_items_sound(
        s.with_env(EnvironmentView::nested(s.program.env)),
        Seq::empty(),
        s.node_count,
    );
}

pub proof fn lemma_block_items_sound(s: ParserView, items: Seq<ExpressionView>, given: nat)
    requires
        forall|i: int| 0 <= i < items.len() ==> well_typed(#[trigger] items[i]),
        given <= s.node_count,
    ensures
        s.block_items(items).state.program.env == s.program.env,
        s.block_items(items).made_after(given),
    decreases s.tokens.len(), 17nat,
{
    match s.peek() {
        None | Some(TokenView::RightBrace) | Some(TokenView::EOF) => {},
        Some(_) => {
            lemma_declaration_sound(s);
            lemma_declaration(s);
            let item = s.declaration();
            if let ParseResultView::Success(e) = item.result {
                lemma_block_items_sound(item.state.count(), items.push(e), given);
            }
        },
    }
}

pub proof fn lemma_declaration_sound(s: ParserView)
    ensures
        s.declaration().sound_from(s),
    decreases s.tokens.len(), 16nat,
{
    match s.peek() {
        Some(TokenView::VarDecl) => {
            lemma_var_declaration_sound(s.advance());
        },
        Some(TokenView::FunctionDecl) => {
            lemma_function_header_sound(s.advance());
        },
        _ => {
            lemma_expression_statement_sound(s);
        },
    }
}

pub proof fn lemma_var_declaration_sound(s: ParserView)
    ensures
        s.var_declaration().sound_from(s),
    decreases s.tokens.len(), 14nat,
{
    reveal(ParserView::var_end);
    if s.tokens.len() >= 2 {
        lemma_expression_sound(s.advance().advance());
        lemma_expression(s.advance().advance());
    }
}

pub proof fn lemma_arguments_sound(
    s: ParserView,
    name: Seq<char>,
    return_type: ReturnType,
    args: Seq<ArgumentView>,
)
    ensures
        s.arguments(name, return_type, args).sound_from(s),
    decreases s.tokens.len(),
{
    reveal(ParserView::arguments);
    match s.peek() {
        None => {},
        Some(tok) => {
            let s1 = s.advance();
            lemma_arguments_sound(s1, name, return_type, args);
            if s1.tokens.len() >= 2 {
                if let Some(TokenView::Identifier(ident)) = s1.advance().peek() {
                    lemma_arguments_sound(
                        s1.advance().advance(),
                        name,
                        return_type,
                        args.push(ArgumentView { return_type: token_type(tok), ident }),
                    );
                }
            }
        },
    }
}

pub proof fn lemma_function_header_sound(s: ParserView)
    ensures
        s.function_header().sound_from(s),
{
    reveal(ParserView::function_header);
    if s.tokens.len() >= 4 {
        if let Some(TokenView::Identifier(name)) = s.peek() {
            if let Some(tok) = s.advance().advance().peek() {
                lemma_arguments_sound(
                    s.advance().advance().advance().advance(),
                    name,
                    token_type(tok),
                    Seq::empty(),
                );
            }
        }
    }
}

/// An assignment with `=` never succeeds: its left side would have to be
/// a binding, and no rule makes one.
pub proof fn law_assignment_never_binds(s: ParserView)
    requires
        s.binary(Level::Equality).result is Success,
        s.binary(Level::Equality).state.peek() == Some(TokenView::Assign),
    ensures
        s.assignment().result is Failed,
{
    lemma_assignment_sound(s);
}

/// The parse of a program leaves its scope as it was.
pub proof fn law_parse_keeps_scope(s: ParserView)
    ensures
        s.parse().program.env == s.program.env,
    decreases s.tokens.len(),
{
    if s.diagnostic is None && s.peek() is Some && s.peek() != Some(TokenView::EOF) {
        lemma_declaration_sound(s);
        lemma_top_statement(s);
        let next = s.top_statement();
        if let ParseResultView::Success(e) = next.result {
            law_parse_keeps_scope(next.state.push(e));
        }
    }
}

/// If the statements that a program holds and the nodes that its scope
/// binds are well typed, so is every statement of the program after a
/// parse.
pub proof fn law_parse_is_well_typed(s: ParserView)
    requires
        scope_well_typed(s.program.env),
        forall|i: int|
            0 <= i < s.program.statements.len() ==> well_typed(#[trigger] s.program.statements[i]),
    ensures
        forall|i: int|
            0 <= i < s.parse().program.statements.len() ==> well_typed(
                #[trigger] s.parse().program.statements[i],
            ),
    decreases s.tokens.len(),
{
    if s.diagnostic is None && s.peek() is Some && s.peek() != Some(TokenView::EOF) {
        lemma_declaration_sound(s);
        lemma_top_statement(s);
        if let Some(TokenView::Identifier(name)) = s.peek() {
            lemma_lookup_well_typed(s.program.env, name);
        }
        let next = s.top_statement();
        if let ParseResultView::Success(e) = next.result {
            law_parse_is_well_typed(next.state.push(e));
        }
    }
}

/// A statement that no name begins has a node with a new id: ids increase
/// from statement to statement.
pub proof fn law_statement_ids_increase(s: ParserView)
    requires
        !(s.peek() matches Some(TokenView::Identifier(_))),
    ensures
        s.top_statement().result matches ParseResultView::Success(e) ==> s.node_count < e.id
            <= s.top_statement().state.node_count,
{
    lemma_declaration_sound(s);
}

} // verus!

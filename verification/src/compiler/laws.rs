//! What holds of scopes and of the grammar, whatever the input.

use crate::compiler::ast::{token_type, ExpressionTypeView, ExpressionView, ParseResultView};
use crate::compiler::environment::EnvironmentView;
use crate::compiler::error::ParseError;
use crate::compiler::grammar::{is_literal, Level, ParserView};
use crate::compiler::progress::lemma_top_statement;
use crate::compiler::token::TokenView;
use vstd::prelude::*;

verus! {

/// A literal and the keyword of its type denote the same type.
pub proof fn law_literals_share_the_type_of_their_keyword(
    b: bool,
    n: i32,
    text: Seq<char>,
    float: Seq<char>,
)
    ensures
        token_type(TokenView::BooleanLiteral(b)) == token_type(TokenView::BooleanDecl),
        token_type(TokenView::IntegerLiteral(n)) == token_type(TokenView::IntegerDecl),
        token_type(TokenView::StringLiteral(text)) == token_type(TokenView::StringDecl),
        token_type(TokenView::FloatLiteral(float)) == token_type(TokenView::FloatDecl),
{
}

/// A name that has just been defined in a scope cannot be defined in that
/// scope again: whether the first definition succeeded or found the name
/// bound, the second fails with `AlreadyDefined` and changes nothing.
pub proof fn law_second_definition_fails(
    env: EnvironmentView,
    name: Seq<char>,
    first: ExpressionView,
    second: ExpressionView,
)
    ensures
        env.define(name, first).1.define(name, second) == (
            ParseResultView::Failed(ParseError::AlreadyDefined),
            env.define(name, first).1,
        ),
{
}

/// A name can be defined in a scope that was just entered, whatever the
/// scopes around it bind: the new binding shadows the outer ones, which
/// stay as they were.
pub proof fn law_nested_definition_shadows(
    outer: EnvironmentView,
    name: Seq<char>,
    value: ExpressionView,
)
    ensures
        EnvironmentView::nested(outer).define(name, value).0 is Success,
        EnvironmentView::nested(outer).define(name, value).1.lookup(name) == Some(value),
        EnvironmentView::nested(outer).define(name, value).1.enclosing == Some(Box::new(outer)),
{
}

/// Whether `depth` is the least number of levels to go out from `env` to
/// find a scope that binds `name`.
pub open spec fn nearest(env: EnvironmentView, name: Seq<char>, depth: nat) -> bool {
    &&& env.bound_at(name, depth)
    &&& forall|k: nat| k < depth ==> !env.bound_at(name, k)
}

/// A lookup finds a name exactly if some scope of the chain binds it, the
/// root included, and then gives the binding of the nearest such scope.
pub proof fn law_lookup_walks_to_nearest(env: EnvironmentView, name: Seq<char>)
    ensures
        env.lookup(name) is Some <==> exists|depth: nat| env.bound_at(name, depth),
        forall|depth: nat| #[trigger]
            nearest(env, name, depth) ==> env.lookup(name) == Some(
                env.ancestor(depth)->0.vars[name],
            ),
    decreases env,
{
    assert(env.ancestor(0) == Some(env));
    if env.vars.contains_key(name) {
        assert(env.bound_at(name, 0));
        assert forall|depth: nat| #[trigger] nearest(env, name, depth) implies depth == 0 by {
            if depth > 0 {
                assert(!env.bound_at(name, 0));
            }
        }
    } else {
        match env.enclosing {
            Some(outer) => {
                law_lookup_walks_to_nearest(*outer, name);
                if exists|depth: nat| outer.bound_at(name, depth) {
                    let d = choose|depth: nat| outer.bound_at(name, depth);
                    assert(env.ancestor(d + 1) == outer.ancestor(d));
                    assert(env.bound_at(name, d + 1));
                }
                if exists|depth: nat| env.bound_at(name, depth) {
                    let d = choose|depth: nat| env.bound_at(name, depth);
                    assert(d > 0);
                    assert(env.ancestor(d) == outer.ancestor((d - 1) as nat));
                    assert(outer.bound_at(name, (d - 1) as nat));
                }
                assert forall|depth: nat| #[trigger] nearest(env, name, depth) implies env.lookup(
                    name,
                ) == Some(env.ancestor(depth)->0.vars[name]) by {
                    assert(depth > 0);
                    let inner = (depth - 1) as nat;
                    assert(env.ancestor(depth) == outer.ancestor(inner));
                    assert forall|k: nat| k < inner implies !outer.bound_at(name, k) by {
                        assert(env.ancestor(k + 1) == outer.ancestor(k));
                        assert(!env.bound_at(name, k + 1));
                    }
                    assert(nearest(*outer, name, inner));
                }
            },
            None => {
                assert forall|depth: nat| !env.bound_at(name, depth) by {
                    if depth > 0 {
                        assert(env.ancestor(depth) is None);
                    }
                }
            },
        }
    }
}

/// An assignment fails exactly if no scope of the chain binds the name,
/// the root included. Otherwise the nearest scope that binds the name is
/// the one that rebinds it and counts a binding; every other scope of the
/// chain keeps its bindings and its count.
pub proof fn law_assign_walks_to_nearest(
    env: EnvironmentView,
    name: Seq<char>,
    value: ExpressionView,
)
    ensures
        env.assign(name, value).0 is Failed <==> forall|depth: nat| !env.bound_at(name, depth),
        env.assign(name, value).0 is Failed ==> env.assign(name, value) == (
            ParseResultView::Failed(ParseError::NotDefined),
            env,
        ),
        forall|depth: nat| #[trigger]
            nearest(env, name, depth) ==> {
                let scope = env.ancestor(depth)->0;
                let after = env.assign(name, value).1;
                &&& env.assign(name, value).0 == ParseResultView::Success(
                    EnvironmentView::binding_node(scope.node_count + 1, name, value),
                )
                &&& after.ancestor(depth) == Some(scope.bind(name, value))
                &&& forall|k: nat|
                    k != depth ==> (after.ancestor(k) is Some <==> env.ancestor(k) is Some)
                &&& forall|k: nat|
                    k != depth && env.ancestor(k) is Some ==> {
                        &&& (#[trigger] after.ancestor(k))->0.vars == env.ancestor(k)->0.vars
                        &&& after.ancestor(k)->0.node_count == env.ancestor(k)->0.node_count
                    }
            },
    decreases env,
{
    assert(env.ancestor(0) == Some(env));
    let after = env.assign(name, value).1;
    if env.vars.contains_key(name) {
        assert(env.bound_at(name, 0));
        assert forall|depth: nat| #[trigger] nearest(env, name, depth) implies depth == 0 by {
            if depth > 0 {
                assert(!env.bound_at(name, 0));
            }
        }
        assert(after.ancestor(0) == Some(after));
        assert forall|k: nat| k != 0 implies after.ancestor(k) == env.ancestor(k) by {
            lemma_ancestor_through(after, env, k);
        }
    } else {
        match env.enclosing {
            Some(outer) => {
                law_assign_walks_to_nearest(*outer, name, value);
                let outer_after = outer.assign(name, value).1;
                assert(after.enclosing == Some(Box::new(outer_after)));
                assert forall|depth: nat| env.bound_at(name, depth) implies depth > 0
                    && outer.bound_at(name, (depth - 1) as nat) by {
                    assert(depth > 0);
                    assert(env.ancestor(depth) == outer.ancestor((depth - 1) as nat));
                }
                assert forall|depth: nat| outer.bound_at(name, depth) implies env.bound_at(
                    name,
                    depth + 1,
                ) by {
                    assert(env.ancestor(depth + 1) == outer.ancestor(depth));
                }
                if env.assign(name, value).0 is Failed {
                    assert forall|depth: nat| !env.bound_at(name, depth) by {
                        if env.bound_at(name, depth) {
                            assert(outer.bound_at(name, (depth - 1) as nat));
                        }
                    }
                } else {
                    let d = choose|depth: nat| outer.bound_at(name, depth);
                    assert(env.bound_at(name, d + 1));
                }
                assert forall|depth: nat| #[trigger] nearest(env, name, depth) implies {
                    let scope = env.ancestor(depth)->0;
                    &&& env.assign(name, value).0 == ParseResultView::Success(
                        EnvironmentView::binding_node(scope.node_count + 1, name, value),
                    )
                    &&& after.ancestor(depth) == Some(scope.bind(name, value))
                    &&& forall|k: nat|
                        k != depth ==> (after.ancestor(k) is Some <==> env.ancestor(k) is Some)
                    &&& forall|k: nat|
                        k != depth && env.ancestor(k) is Some ==> {
                            &&& (#[trigger] after.ancestor(k))->0.vars == env.ancestor(k)->0.vars
                            &&& after.ancestor(k)->0.node_count == env.ancestor(k)->0.node_count
                        }
                } by {
                    assert(depth > 0);
                    let inner = (depth - 1) as nat;
                    assert(env.ancestor(depth) == outer.ancestor(inner));
                    assert forall|k: nat| k < inner implies !outer.bound_at(name, k) by {
                        assert(!env.bound_at(name, k + 1));
                    }
                    assert(nearest(*outer, name, inner));
                    assert(after.ancestor(depth) == outer_after.ancestor(inner));
                    assert(after.ancestor(0) == Some(after));
                    assert forall|k: nat| k != depth implies (after.ancestor(k) is Some
                        <==> env.ancestor(k) is Some) by {
                        if k > 0 {
                            assert(after.ancestor(k) == outer_after.ancestor((k - 1) as nat));
                            assert(env.ancestor(k) == outer.ancestor((k - 1) as nat));
                        }
                    }
                    assert forall|k: nat| k != depth && env.ancestor(k) is Some implies {
                        &&& (#[trigger] after.ancestor(k))->0.vars == env.ancestor(k)->0.vars
                        &&& after.ancestor(k)->0.node_count == env.ancestor(k)->0.node_count
                    } by {
                        if k > 0 {
                            assert(after.ancestor(k) == outer_after.ancestor((k - 1) as nat));
                            assert(env.ancestor(k) == outer.ancestor((k - 1) as nat));
                        }
                    }
                }
            },
            None => {
                assert forall|depth: nat| !env.bound_at(name, depth) by {
                    if depth > 0 {
                        assert(env.ancestor(depth) is None);
                    }
                }
            },
        }
    }
}

/// Two scopes with the same enclosing scope have the same ancestors from
/// the first level out.
proof fn lemma_ancestor_through(a: EnvironmentView, b: EnvironmentView, depth: nat)
    requires
        a.enclosing == b.enclosing,
        depth > 0,
    ensures
        a.ancestor(depth) == b.ancestor(depth),
{
}

/// How a parse goes on from a state that has not been given up and whose
/// next token is not the end marker: if the next statement fails, the parse
/// ends there, with the reason recorded and the program as it stood;
/// if it succeeds, its node is appended and the parse goes on behind it.
pub proof fn law_parse_step(s: ParserView)
    requires
        s.diagnostic is None,
        s.peek() is Some,
        s.peek() != Some(TokenView::EOF),
    ensures
        s.parse() == match s.top_statement().result {
            ParseResultView::Failed(err) => s.top_statement().state.abort(err),
            ParseResultView::Success(e) => s.top_statement().state.push(e).parse(),
        },
        s.top_statement().result is Failed ==> s.parse().program.statements
            == s.program.statements,
{
    lemma_top_statement(s);
}

/// A parse only appends: the statements that the program held before are
/// the first statements of the program afterwards.
pub proof fn law_parse_appends(s: ParserView)
    ensures
        s.program.statements.len() <= s.parse().program.statements.len(),
        s.parse().program.statements.take(s.program.statements.len() as int)
            == s.program.statements,
    decreases s.tokens.len(),
{
    let before = s.program.statements;
    assert(before.take(before.len() as int) =~= before);
    if s.diagnostic is None && s.peek() is Some && s.peek() != Some(TokenView::EOF) {
        law_parse_step(s);
        lemma_top_statement(s);
        let next = s.top_statement();
        if let ParseResultView::Success(e) = next.result {
            let pushed = next.state.push(e);
            law_parse_appends(pushed);
            let after = pushed.parse().program.statements;
            assert(pushed.program.statements == before.push(e));
            assert(after.take(before.len() as int) =~= after.take(before.len() as int + 1).take(
                before.len() as int,
            ));
            assert(before.push(e).take(before.len() as int) =~= before);
        }
    }
}

/// Whether `tok` is an operator of `level` or of a level that binds
/// tighter.
pub open spec fn continues(tok: TokenView, level: Level) -> bool {
    ||| Level::Multiplicative.has(tok)
    ||| level.strength() <= 2 && Level::Additive.has(tok)
    ||| level.strength() <= 1 && Level::Comparison.has(tok)
    ||| level.strength() <= 0 && Level::Equality.has(tok)
}

/// Whether `tok` is an operator of a level that binds tighter than
/// `level`.
pub open spec fn binds_tighter(tok: TokenView, level: Level) -> bool {
    level != Level::Multiplicative && continues(tok, level.tighter())
}

/// The node of the literal token `tok`, made in the state `s` in which it
/// is the next token.
pub open spec fn leaf(s: ParserView, tok: TokenView) -> crate::compiler::grammar::Parsed {
    s.advance().node(ExpressionTypeView::Literal(tok), token_type(tok))
}

/// A literal that no operator of `level` or of a tighter level follows is,
/// by itself, a chain of `level`.
pub proof fn lemma_literal_is_chain(s: ParserView, level: Level)
    requires
        s.peek() is Some,
        is_literal(s.peek()->0),
        s.advance().peek() matches Some(next) ==> !continues(next, level),
    ensures
        s.binary(level) == leaf(s, s.peek()->0),
    decreases 3 - level.strength(),
{
    lemma_literal_is_operand(s, level);
}

/// A literal that no operator of a level tighter than `level` follows is,
/// by itself, an operand of `level`.
pub proof fn lemma_literal_is_operand(s: ParserView, level: Level)
    requires
        s.peek() is Some,
        is_literal(s.peek()->0),
        s.advance().peek() matches Some(next) ==> !binds_tighter(next, level),
    ensures
        s.operand(level) == leaf(s, s.peek()->0),
    decreases 3 - level.strength(), 0nat,
{
    if level != Level::Multiplicative {
        lemma_literal_is_chain(s, level.tighter());
        assert(s.binary(level.tighter()) == leaf(s, s.peek()->0));
        assert(s.operand(level) == s.binary(level.tighter()));
    } else {
        assert(s.primary() == leaf(s, s.peek()->0));
        assert(s.unary() == s.primary());
        assert(s.operand(level) == s.unary());
    }
}

/// A failure of a chain is the failure of every looser chain that begins
/// at the same place.
pub proof fn lemma_failure_rises(s: ParserView, level: Level)
    requires
        s.binary(level).result is Failed,
    ensures
        s.binary(Level::Equality).result == s.binary(level).result,
    decreases level.strength(),
{
    if level != Level::Equality {
        let looser = match level {
            Level::Multiplicative => Level::Additive,
            Level::Additive => Level::Comparison,
            _ => Level::Equality,
        };
        assert(looser.tighter() == level);
        assert(s.operand(looser) == s.binary(level));
        lemma_failure_rises(s, looser);
    }
}

/// Two literals of different types with a binary operator between them are
/// refused with `TypeMismatch`, and no node comes of them, provided that
/// what follows the second literal is not an operator that binds tighter
/// than the one between them.
pub proof fn law_mixed_operands_fail(s: ParserView, level: Level)
    requires
        s.tokens.len() >= 3,
        is_literal(s.tokens[s.tokens.len() - 1]),
        level.has(s.tokens[s.tokens.len() - 2]),
        is_literal(s.tokens[s.tokens.len() - 3]),
        token_type(s.tokens[s.tokens.len() - 1]) != token_type(s.tokens[s.tokens.len() - 3]),
        s.tokens.len() >= 4 ==> !binds_tighter(s.tokens[s.tokens.len() - 4], level),
    ensures
        s.expression().result == ParseResultView::Failed(ParseError::TypeMismatch),
{
    let n = s.tokens.len() as int;
    let left = s.tokens[n - 1];
    let op = s.tokens[n - 2];
    let right = s.tokens[n - 3];
    assert(s.peek() == Some(left));
    assert(s.advance().peek() == Some(op));
    assert(!binds_tighter(op, level));
    lemma_literal_is_operand(s, level);
    let first = s.operand(level);
    let s1 = first.state;
    assert(s1.peek() == Some(op));
    let s2 = s1.advance();
    assert(s2.tokens =~= s.tokens.take(n - 2));
    assert(s2.peek() == Some(right));
    assert(s2.advance().tokens =~= s.tokens.take(n - 3));
    if n >= 4 {
        assert(s2.advance().peek() == Some(s.tokens[n - 4]));
    }
    lemma_literal_is_operand(s2, level);
    assert(s.binary(level).result == ParseResultView::Failed(ParseError::TypeMismatch));
    lemma_failure_rises(s, level);
}

} // verus!

use i_v::compiler::parser::{
    Environment, ErrorKind, Expression, ExpressionType, ParseError, ParseResult, ReturnType,
    Variable,
};
use i_v::compiler::token::Token;

fn number(id: u32, n: i32) -> Expression {
    Expression::new(
        id,
        ExpressionType::Literal(Token::IntegerLiteral(n)),
        ReturnType::ReturnInteger,
    )
}

fn text(id: u32, s: &str) -> Expression {
    Expression::new(
        id,
        ExpressionType::Literal(Token::StringLiteral(s.to_string())),
        ReturnType::ReturnString,
    )
}

fn var(name: &str, value: Expression) -> Variable {
    Variable::new(name.to_string(), value)
}

fn value_of(result: ParseResult) -> i32 {
    match result {
        ParseResult::Success(e) => match e.expression_type {
            ExpressionType::Literal(Token::IntegerLiteral(n)) => n,
            other => panic!("no integer: {:?}", other),
        },
        ParseResult::Failed(err) => panic!("failed with {:?}", err),
    }
}

fn failure(result: ParseResult) -> ParseError {
    match result {
        ParseResult::Failed(err) => err,
        ParseResult::Success(e) => panic!("succeeded with {:?}", e),
    }
}

#[test]
fn a_definition_hands_back_the_binding() {
    let mut env = Environment::new();
    match env.define(var("x", text(7, "v"))) {
        ParseResult::Success(bound) => {
            assert_eq!(bound.id, 1);
            assert_eq!(bound.return_type, ReturnType::ReturnString);
            match bound.expression_type {
                ExpressionType::LiteralExpression(name, value) => {
                    assert_eq!(name, "x");
                    assert_eq!(value.id, 7);
                },
                other => panic!("no binding: {:?}", other),
            }
        },
        ParseResult::Failed(err) => panic!("failed with {:?}", err),
    }
    assert_eq!(env.node_count, 1);
    assert_eq!(env.vars.len(), 1);
}

#[test]
fn a_second_definition_in_one_scope_fails() {
    let mut env = Environment::new();
    assert!(matches!(env.define(var("x", number(1, 1))), ParseResult::Success(_)));
    let err = failure(env.define(var("x", number(2, 2))));
    assert_eq!(err, ParseError::AlreadyDefined);
    assert_eq!(err.kind(), ErrorKind::Redeclaration);
    assert_eq!(env.node_count, 1);
    assert_eq!(value_of(env.get_value("x".to_string())), 1);
}

#[test]
fn a_definition_in_a_nested_scope_shadows() {
    let mut outer = Environment::new();
    assert!(matches!(outer.define(var("x", number(1, 1))), ParseResult::Success(_)));
    let mut inner = Environment::new_sub(outer);
    assert_eq!(inner.node_count, 0);
    assert_eq!(value_of(inner.get_value("x".to_string())), 1);
    assert!(matches!(inner.define(var("x", number(2, 2))), ParseResult::Success(_)));
    assert_eq!(value_of(inner.get_value("x".to_string())), 2);
    let outer = inner.enclosing.as_ref().unwrap();
    assert_eq!(value_of(outer.get_value("x".to_string())), 1);
}

#[test]
fn ids_of_bindings_count_up_in_each_scope() {
    let mut env = Environment::new();
    for (i, name) in ["a", "b", "c"].iter().enumerate() {
        match env.define(var(name, number(9, 0))) {
            ParseResult::Success(bound) => assert_eq!(bound.id as usize, i + 1),
            ParseResult::Failed(err) => panic!("failed with {:?}", err),
        }
    }
    match env.assign_value(var("b", number(9, 1))) {
        ParseResult::Success(bound) => assert_eq!(bound.id, 4),
        ParseResult::Failed(err) => panic!("failed with {:?}", err),
    }
}

#[test]
fn a_lookup_walks_to_the_nearest_scope_that_binds_the_name() {
    let mut root = Environment::new();
    root.define(var("a", number(1, 10)));
    root.define(var("b", number(2, 20)));
    let mut middle = Environment::new_sub(root);
    middle.define(var("b", number(3, 21)));
    let mut leaf = Environment::new_sub(middle);
    leaf.define(var("c", number(4, 30)));

    assert_eq!(value_of(leaf.get_value("c".to_string())), 30);
    assert_eq!(value_of(leaf.get_value("b".to_string())), 21);
    assert_eq!(value_of(leaf.get_value("a".to_string())), 10);
    let err = failure(leaf.get_value("d".to_string()));
    assert_eq!(err, ParseError::NotDefined);
    assert_eq!(err.kind(), ErrorKind::Undefined);
}

#[test]
fn an_assignment_changes_the_nearest_scope_that_binds_the_name() {
    let mut root = Environment::new();
    root.define(var("a", number(1, 10)));
    root.define(var("b", number(2, 20)));
    let mut middle = Environment::new_sub(root);
    middle.define(var("b", number(3, 21)));
    let mut leaf = Environment::new_sub(middle);

    assert!(matches!(leaf.assign_value(var("b", number(5, 22))), ParseResult::Success(_)));
    assert_eq!(leaf.node_count, 0);
    assert_eq!(leaf.vars.len(), 0);
    let middle = leaf.enclosing.as_ref().unwrap();
    assert_eq!(middle.node_count, 2);
    assert_eq!(value_of(middle.get_value("b".to_string())), 22);
    let root = middle.enclosing.as_ref().unwrap();
    assert_eq!(root.node_count, 2);
    assert_eq!(value_of(root.get_value("b".to_string())), 20);

    assert!(matches!(leaf.assign_value(var("a", number(6, 11))), ParseResult::Success(_)));
    let root = leaf.enclosing.as_ref().unwrap().enclosing.as_ref().unwrap();
    assert_eq!(root.node_count, 3);
    assert_eq!(value_of(leaf.get_value("a".to_string())), 11);
}

#[test]
fn an_assignment_fails_only_if_no_scope_binds_the_name() {
    let mut root = Environment::new();
    root.define(var("a", number(1, 10)));
    let mut leaf = Environment::new_sub(Environment::new_sub(root));
    let err = failure(leaf.assign_value(var("z", number(2, 0))));
    assert_eq!(err, ParseError::NotDefined);
    assert!(matches!(leaf.assign_value(var("a", number(3, 1))), ParseResult::Success(_)));
    let mut empty = Environment::new();
    assert_eq!(failure(empty.assign_value(var("a", number(1, 1)))), ParseError::NotDefined);
    assert_eq!(failure(empty.get_value("a".to_string())), ParseError::NotDefined);
}

#[test]
fn a_nested_scope_holds_a_copy_of_the_outer_one() {
    let mut outer = Environment::new();
    outer.define(var("x", number(1, 1)));
    let mut inner = Environment::new_sub(outer.clone());
    outer.define(var("y", number(2, 2)));
    outer.assign_value(var("x", number(3, 3)));
    assert_eq!(value_of(inner.get_value("x".to_string())), 1);
    assert_eq!(failure(inner.get_value("y".to_string())), ParseError::NotDefined);
    inner.assign_value(var("x", number(4, 4)));
    assert_eq!(value_of(inner.get_value("x".to_string())), 4);
    assert_eq!(value_of(outer.get_value("x".to_string())), 3);
    drop(inner);
    assert_eq!(value_of(outer.get_value("x".to_string())), 3);
    assert_eq!(value_of(outer.get_value("y".to_string())), 2);
}

#[test]
fn the_last_entry_of_a_name_counts() {
    let mut env = Environment::new();
    env.vars.push(var("x", number(1, 1)));
    env.vars.push(var("x", number(2, 2)));
    assert_eq!(value_of(env.get_value("x".to_string())), 2);
    env.assign_value(var("x", number(3, 3)));
    assert_eq!(value_of(env.get_value("x".to_string())), 3);
    assert_eq!(env.vars.len(), 2);
    assert_eq!(failure(env.define(var("x", number(4, 4)))), ParseError::AlreadyDefined);
}

use i_v::compiler::parser::{
    AstProgram, Environment, ErrorKind, Expression, ExpressionType, ParseError, ParseResult,
    Parser, ReturnType, Variable,
};
use i_v::compiler::token::Token;
use i_v::compiler::tokenize;

fn tokens(source: &str) -> Vec<Token> {
    let mut tokens = tokenize(source).unwrap();
    tokens.reverse();
    tokens
}

fn parser(source: &str) -> Parser {
    Parser::new(tokens(source))
}

fn parse(source: &str) -> (AstProgram, Option<ParseError>) {
    let mut parser = parser(source);
    let program = parser.parse();
    (program, parser.diagnostic())
}

fn failure(result: ParseResult) -> ParseError {
    match result {
        ParseResult::Failed(err) => err,
        ParseResult::Success(e) => panic!("parsed to {:?}", e),
    }
}

fn success(result: ParseResult) -> Expression {
    match result {
        ParseResult::Success(e) => e,
        ParseResult::Failed(err) => panic!("failed with {:?}", err),
    }
}

fn integer(e: &Expression) -> i32 {
    match &e.expression_type {
        ExpressionType::Literal(Token::IntegerLiteral(n)) => {
            assert_eq!(e.return_type, ReturnType::ReturnInteger);
            *n
        },
        other => panic!("no integer literal: {:?}", other),
    }
}

fn binary(e: &Expression) -> (&Token, &Expression, &Expression) {
    match &e.expression_type {
        ExpressionType::BinaryExpression(op, l, r) => (op, l, r),
        other => panic!("no binary node: {:?}", other),
    }
}

fn scoped_program(name: &str, value: Expression) -> AstProgram {
    let mut program = AstProgram::new();
    success(program.env.define(Variable::new(name.to_string(), value)));
    program
}

fn number(id: u32, n: i32) -> Expression {
    Expression::new(
        id,
        ExpressionType::Literal(Token::IntegerLiteral(n)),
        ReturnType::ReturnInteger,
    )
}

#[test]
fn multiplication_binds_tighter_than_addition() {
    let (program, diagnostic) = parse("1 + 2 * 3;");
    assert_eq!(diagnostic, None);
    assert_eq!(program.statements.len(), 1);
    let top = &program.statements[0].expr;
    let (op, l, r) = binary(top);
    assert_eq!(*op, Token::Add);
    assert_eq!(integer(l), 1);
    let (op, rl, rr) = binary(r);
    assert_eq!(*op, Token::Multiply);
    assert_eq!(integer(rl), 2);
    assert_eq!(integer(rr), 3);
    assert_eq!(top.return_type, ReturnType::ReturnInteger);
}

#[test]
fn ids_are_given_out_in_order_of_completion() {
    let (program, _) = parse("1 + 2 * 3;");
    let top = &program.statements[0].expr;
    let (_, l, r) = binary(top);
    let (_, rl, rr) = binary(r);
    assert_eq!(l.id, 1);
    assert_eq!(rl.id, 2);
    assert_eq!(rr.id, 3);
    assert_eq!(r.id, 4);
    assert_eq!(top.id, 5);
    assert_eq!(top.to_string(), "Expr: 5");
}

#[test]
fn multiplication_before_addition_on_the_left() {
    let (program, diagnostic) = parse("1 * 2 + 3;");
    assert_eq!(diagnostic, None);
    let (op, l, r) = binary(&program.statements[0].expr);
    assert_eq!(*op, Token::Add);
    assert_eq!(integer(r), 3);
    let (op, ll, lr) = binary(l);
    assert_eq!(*op, Token::Multiply);
    assert_eq!(integer(ll), 1);
    assert_eq!(integer(lr), 2);
}

#[test]
fn binary_operators_associate_to_the_left() {
    let (program, diagnostic) = parse("1 - 2 - 3;");
    assert_eq!(diagnostic, None);
    let (op, l, r) = binary(&program.statements[0].expr);
    assert_eq!(*op, Token::Subtract);
    assert_eq!(integer(r), 3);
    let (op, ll, lr) = binary(l);
    assert_eq!(*op, Token::Subtract);
    assert_eq!(integer(ll), 1);
    assert_eq!(integer(lr), 2);
}

#[test]
fn levels_nest_from_equality_down_to_multiplication() {
    let (program, diagnostic) = parse("1 == 2 < 3 + 4 * 5;");
    assert_eq!(diagnostic, None);
    let (op, l, r) = binary(&program.statements[0].expr);
    assert_eq!(*op, Token::Equality);
    assert_eq!(integer(l), 1);
    let (op, l, r) = binary(r);
    assert_eq!(*op, Token::LessThan);
    assert_eq!(integer(l), 2);
    let (op, l, r) = binary(r);
    assert_eq!(*op, Token::Add);
    assert_eq!(integer(l), 3);
    let (op, l, r) = binary(r);
    assert_eq!(*op, Token::Multiply);
    assert_eq!(integer(l), 4);
    assert_eq!(integer(r), 5);
}

#[test]
fn every_operator_belongs_to_its_level() {
    for (source, expected) in [
        ("1 != 2;", Token::NotEquality),
        ("1 > 2;", Token::GreaterThan),
        ("1 <= 2;", Token::LessThanEqual),
        ("1 >= 2;", Token::GreaterThanEqual),
        ("1 / 2;", Token::Divide),
    ] {
        let (program, diagnostic) = parse(source);
        assert_eq!(diagnostic, None);
        let (op, l, r) = binary(&program.statements[0].expr);
        assert_eq!(*op, expected);
        assert_eq!(integer(l), 1);
        assert_eq!(integer(r), 2);
    }
}

#[test]
fn operands_of_different_types_are_refused() {
    let (program, diagnostic) = parse("1 + \"a\";");
    assert_eq!(diagnostic, Some(ParseError::TypeMismatch));
    assert_eq!(diagnostic.unwrap().kind(), ErrorKind::TypeMismatch);
    assert_eq!(program.statements.len(), 0);

    let mut parser = parser("1 + \"a\";");
    assert_eq!(failure(parser.parse_statement()), ParseError::TypeMismatch);
}

#[test]
fn a_mismatch_deep_in_the_right_operand_stays_a_mismatch() {
    assert_eq!(parse("1 + 2 * \"a\";").1, Some(ParseError::TypeMismatch));
    assert_eq!(parse("true == 1;").1, Some(ParseError::TypeMismatch));
    assert_eq!(parse("1.5 < 2;").1, Some(ParseError::TypeMismatch));
}

#[test]
fn operands_of_the_same_type_give_a_node_of_that_type() {
    let (program, diagnostic) = parse("\"a\" + \"b\";");
    assert_eq!(diagnostic, None);
    assert_eq!(program.statements[0].expr.return_type, ReturnType::ReturnString);
    let (program, diagnostic) = parse("1.5 * 2.5;");
    assert_eq!(diagnostic, None);
    assert_eq!(program.statements[0].expr.return_type, ReturnType::ReturnFloat);
}

#[test]
fn a_unary_node_takes_the_type_of_its_operator() {
    let (program, diagnostic) = parse("-1;");
    assert_eq!(diagnostic, None);
    let top = &program.statements[0].expr;
    assert_eq!(top.return_type, ReturnType::ReturnInvalid);
    match &top.expression_type {
        ExpressionType::UnaryExpression(op, operand) => {
            assert_eq!(*op, Token::Subtract);
            assert_eq!(integer(operand), 1);
        },
        other => panic!("no unary node: {:?}", other),
    }
}

#[test]
fn unary_operators_nest() {
    let (program, diagnostic) = parse("!-true;");
    assert_eq!(diagnostic, None);
    match &program.statements[0].expr.expression_type {
        ExpressionType::UnaryExpression(Token::Bang, inner) => match &inner.expression_type {
            ExpressionType::UnaryExpression(Token::Subtract, leaf) => {
                assert_eq!(leaf.return_type, ReturnType::ReturnBool);
                assert_eq!(leaf.id, 1);
                assert_eq!(inner.id, 2);
            },
            other => panic!("no inner unary node: {:?}", other),
        },
        other => panic!("no unary node: {:?}", other),
    }
}

#[test]
fn every_literal_class_is_a_primary() {
    for (token, expected) in [
        (Token::StringLiteral("s".to_string()), ReturnType::ReturnString),
        (Token::IntegerLiteral(7), ReturnType::ReturnInteger),
        (Token::FloatLiteral("1.5".to_string()), ReturnType::ReturnFloat),
        (Token::BooleanLiteral(true), ReturnType::ReturnBool),
        (Token::CollectionLiteral, ReturnType::ReturnInvalid),
        (Token::RangeLiteral, ReturnType::ReturnInvalid),
        (Token::Identifier("x".to_string()), ReturnType::ReturnInvalid),
        (Token::Null, ReturnType::ReturnInvalid),
    ] {
        let mut parser = Parser::new(vec![token.clone()]);
        let e = success(parser.parse_primary());
        assert_eq!(e.id, 1);
        assert_eq!(e.return_type, expected);
        match e.expression_type {
            ExpressionType::Literal(t) => assert_eq!(t, token),
            other => panic!("no literal: {:?}", other),
        }
        assert_eq!(parser.remaining(), 0);
    }
}

#[test]
fn braces_group_an_expression() {
    let (program, diagnostic) = parse("2 * { 3 + 4 };");
    assert_eq!(diagnostic, None);
    let (op, l, r) = binary(&program.statements[0].expr);
    assert_eq!(*op, Token::Multiply);
    assert_eq!(integer(l), 2);
    let (op, l, r) = binary(r);
    assert_eq!(*op, Token::Add);
    assert_eq!(integer(l), 3);
    assert_eq!(integer(r), 4);
}

#[test]
fn a_group_needs_its_closing_brace() {
    assert_eq!(parse("1 + { 2 3 };").1, Some(ParseError::ExpectedClosingBrace));
    let mut parser = Parser::new(vec![Token::LeftBrace]);
    assert_eq!(failure(parser.parse_primary()), ParseError::UnexpectedEof);
    let mut parser = Parser::new(vec![Token::RightBrace, Token::LeftBrace]);
    assert_eq!(failure(parser.parse_primary()), ParseError::ExpectedPrimary);
    let mut parser = Parser::new(vec![
        Token::Semicolon,
        Token::IntegerLiteral(2),
        Token::LeftBrace,
    ]);
    assert_eq!(failure(parser.parse_primary()), ParseError::ExpectedClosingBrace);
}

#[test]
fn a_primary_needs_a_token() {
    let mut parser = Parser::new(vec![]);
    let err = failure(parser.parse_primary());
    assert_eq!(err, ParseError::OutOfTokens);
    assert_eq!(err.kind(), ErrorKind::EndOfInput);
    let mut parser = Parser::new(vec![]);
    assert_eq!(failure(parser.parse_unary()), ParseError::OutOfTokens);
}

#[test]
fn an_operator_is_no_primary() {
    let (program, diagnostic) = parse("+;");
    assert_eq!(diagnostic, Some(ParseError::ExpectedPrimary));
    assert_eq!(diagnostic.unwrap().kind(), ErrorKind::Syntax);
    assert_eq!(program.statements.len(), 0);
}

#[test]
fn an_expression_refuses_the_end_of_the_input() {
    let mut parser = parser("");
    let err = failure(parser.parse_expression());
    assert_eq!(err, ParseError::UnexpectedEof);
    assert_eq!(err.kind(), ErrorKind::EndOfInput);
    assert_eq!(parser.remaining(), 1);
    let mut parser = Parser::new(vec![]);
    assert_eq!(failure(parser.parse_expression()), ParseError::UnexpectedEof);
}

#[test]
fn a_chain_ends_where_the_tokens_end() {
    let mut parser = Parser::new(vec![
        Token::IntegerLiteral(2),
        Token::Add,
        Token::IntegerLiteral(1),
    ]);
    let e = success(parser.parse_equality());
    let (op, l, r) = binary(&e);
    assert_eq!(*op, Token::Add);
    assert_eq!(integer(l), 1);
    assert_eq!(integer(r), 2);
    assert_eq!(parser.remaining(), 0);
}

#[test]
fn an_assignment_needs_a_token_after_its_left_side() {
    let mut parser = Parser::new(vec![Token::IntegerLiteral(1)]);
    assert_eq!(failure(parser.parse_assignment()), ParseError::OutOfTokens);
}

#[test]
fn a_chain_stops_before_a_token_that_is_no_operator_of_its_level() {
    let mut parser = parser("1 * 2 + 3");
    let e = success(parser.parse_multiplication());
    let (op, _, _) = binary(&e);
    assert_eq!(*op, Token::Multiply);
    assert_eq!(parser.remaining(), 3);
    let e = success(Parser::new(tokens("1 + 2 < 3")).parse_addition());
    assert_eq!(*binary(&e).0, Token::Add);
    let e = success(Parser::new(tokens("1 < 2 == 3")).parse_comparison());
    assert_eq!(*binary(&e).0, Token::LessThan);
}

#[test]
fn a_statement_ends_with_a_semicolon() {
    let mut parser = parser("1 + 2;");
    let e = success(parser.parse_statement());
    assert_eq!(*binary(&e).0, Token::Add);
    assert_eq!(parser.remaining(), 1);

    assert_eq!(parse("1 2").1, Some(ParseError::ExpectedSemicolon));
    let mut parser = Parser::new(vec![Token::Add, Token::IntegerLiteral(1)]);
    assert_eq!(failure(parser.parse_statement()), ParseError::OutOfTokens);
}

#[test]
fn only_a_binding_can_be_assigned_to() {
    let (program, diagnostic) = parse("1 = 2;");
    assert_eq!(diagnostic, Some(ParseError::InvalidAssignmentTarget));
    assert_eq!(program.statements.len(), 0);
}

#[test]
fn the_sides_of_an_assignment_have_one_type() {
    assert_eq!(parse("1 = \"a\";").1, Some(ParseError::TypeMismatch));
    assert_eq!(parse("1 = 2 = \"a\";").1, Some(ParseError::TypeMismatch));
}

#[test]
fn a_failure_on_the_right_of_an_assignment_is_the_failure_of_the_assignment() {
    assert_eq!(parse("1 = +;").1, Some(ParseError::ExpectedPrimary));
}

#[test]
fn a_header_with_two_arguments() {
    let mut parser = parser("add: int(int: a, int: b)");
    let e = success(parser.parse_function_header_statement());
    assert_eq!(e.return_type, ReturnType::ReturnFunctionHeader);
    assert_eq!(e.id, 1);
    match e.expression_type {
        ExpressionType::FunctionHeaderExpression(header) => {
            assert_eq!(header.name, "add");
            assert_eq!(header.return_type, ReturnType::ReturnInteger);
            assert_eq!(header.args.len(), 2);
            assert_eq!(header.args[0].return_type, ReturnType::ReturnInteger);
            assert_eq!(header.args[0].ident, "a");
            assert_eq!(header.args[1].return_type, ReturnType::ReturnInteger);
            assert_eq!(header.args[1].ident, "b");
        },
        other => panic!("no header: {:?}", other),
    }
    assert_eq!(parser.remaining(), 1);
}

#[test]
fn a_header_without_arguments_lists_void() {
    let mut parser = parser("noop: void(void)");
    let e = success(parser.parse_function_header_statement());
    match e.expression_type {
        ExpressionType::FunctionHeaderExpression(header) => {
            assert_eq!(header.name, "noop");
            assert_eq!(header.return_type, ReturnType::ReturnVoid);
            assert_eq!(header.args.len(), 0);
        },
        other => panic!("no header: {:?}", other),
    }
}

#[test]
fn an_empty_argument_list_is_refused() {
    let mut parser = parser("noop: void()");
    let err = failure(parser.parse_function_header_statement());
    assert_eq!(err, ParseError::ExpectedArgumentList);
    assert_eq!(err.kind(), ErrorKind::Syntax);
}

#[test]
fn void_is_refused_after_an_argument() {
    let mut parser = parser("bad: void(int: x, void)");
    let err = failure(parser.parse_function_header_statement());
    assert_eq!(err, ParseError::UnexpectedVoid);
    assert_eq!(err.kind(), ErrorKind::Syntax);
}

#[test]
fn void_must_be_followed_by_the_closing_parenthesis() {
    let mut parser = parser("bad: int(void int: x)");
    assert_eq!(
        failure(parser.parse_function_header_statement()),
        ParseError::ExpectedRightParenthesis
    );
    let mut parser = Parser::new(tokens("f: int(void").split_off(1));
    assert_eq!(failure(parser.parse_function_header_statement()), ParseError::OutOfTokens);
}

#[test]
fn a_void_function_may_take_arguments() {
    let mut parser = parser("bad: void(int: x)");
    let e = success(parser.parse_function_header_statement());
    match e.expression_type {
        ExpressionType::FunctionHeaderExpression(header) => {
            assert_eq!(header.return_type, ReturnType::ReturnVoid);
            assert_eq!(header.args.len(), 1);
            assert_eq!(header.args[0].ident, "x");
        },
        other => panic!("no header: {:?}", other),
    }
}

#[test]
fn every_argument_type_is_accepted() {
    let mut parser = parser("f: bool(string: a, bool: b, float: c, struct: d, collection: e)");
    let e = success(parser.parse_function_header_statement());
    match e.expression_type {
        ExpressionType::FunctionHeaderExpression(header) => {
            assert_eq!(header.return_type, ReturnType::ReturnBool);
            let types: Vec<ReturnType> = header.args.iter().map(|a| a.return_type).collect();
            assert_eq!(
                types,
                vec![
                    ReturnType::ReturnString,
                    ReturnType::ReturnBool,
                    ReturnType::ReturnFloat,
                    ReturnType::ReturnStruct,
                    ReturnType::ReturnCollection,
                ]
            );
        },
        other => panic!("no header: {:?}", other),
    }
}

#[test]
fn the_failures_of_a_header() {
    for (source, expected) in [
        ("1", ParseError::ExpectedFunctionIdentifier),
        ("f 1", ParseError::ExpectedColon),
        ("f: +", ParseError::ExpectedReturnType),
        ("f: int int", ParseError::ExpectedLeftParenthesis),
        ("f: int(int a)", ParseError::ExpectedArgumentColon),
        ("f: int(int: 1)", ParseError::ExpectedArgumentName),
        ("f: int(+)", ParseError::UnexpectedArgument),
        ("f: int(", ParseError::UnexpectedEof),
        ("f: int(int: a", ParseError::UnexpectedEof),
    ] {
        let mut parser = parser(source);
        assert_eq!(failure(parser.parse_function_header_statement()), expected, "{}", source);
    }
}

#[test]
fn a_header_that_breaks_off_runs_out_of_tokens() {
    for source in ["", "f", "f:", "f: int", "f: int(", "f: int(int", "f: int(int:"] {
        let mut all = tokens(source);
        all.remove(0);
        let mut parser = Parser::new(all);
        assert_eq!(
            failure(parser.parse_function_header_statement()),
            ParseError::OutOfTokens,
            "{}",
            source
        );
    }
}

#[test]
fn fn_begins_a_header_statement() {
    let (program, diagnostic) = parse("fn add: int(int: a, int: b) fn id: bool(bool: x)");
    assert_eq!(diagnostic, None);
    assert_eq!(program.statements.len(), 2);
    assert_eq!(program.statements[0].expr.return_type, ReturnType::ReturnFunctionHeader);
    assert_eq!(program.statements[1].expr.id, 2);
}

#[test]
fn a_block_of_one_print_statement() {
    let (program, diagnostic) = parse("{ print \"hi\"; }");
    assert_eq!(diagnostic, None);
    assert_eq!(program.statements.len(), 1);
    let block = &program.statements[0].expr;
    assert_eq!(block.return_type, ReturnType::ReturnBlock);
    match &block.expression_type {
        ExpressionType::BlockExpression(items) => {
            assert_eq!(items.len(), 1);
            assert_eq!(items[0].return_type, ReturnType::ReturnString);
            assert_eq!(items[0].id, 1);
            match &items[0].expression_type {
                ExpressionType::PrintExpression(text) => assert_eq!(text, "hi"),
                other => panic!("no print statement: {:?}", other),
            }
        },
        other => panic!("no block: {:?}", other),
    }
    assert_eq!(block.id, 3);
}

#[test]
fn a_block_without_its_closing_brace_runs_out_of_input() {
    let (program, diagnostic) = parse("{ print \"hi\";");
    assert_eq!(diagnostic, Some(ParseError::UnexpectedEof));
    assert_eq!(diagnostic.unwrap().kind(), ErrorKind::EndOfInput);
    assert_eq!(program.statements.len(), 0);

    let mut all = tokens("{ print \"hi\";");
    all.remove(0);
    let mut parser = Parser::new(all);
    let program = parser.parse();
    assert_eq!(parser.diagnostic(), Some(ParseError::OutOfTokens));
    assert_eq!(parser.diagnostic().unwrap().kind(), ErrorKind::EndOfInput);
    assert_eq!(program.statements.len(), 0);
}

#[test]
fn an_empty_block() {
    let (program, diagnostic) = parse("{}");
    assert_eq!(diagnostic, None);
    match &program.statements[0].expr.expression_type {
        ExpressionType::BlockExpression(items) => assert_eq!(items.len(), 0),
        other => panic!("no block: {:?}", other),
    }
    assert_eq!(program.statements[0].expr.id, 1);
}

#[test]
fn blocks_nest_and_hold_declarations() {
    let (program, diagnostic) = parse("{ 1 + 2; { print \"a\" } fn f: int(int: a) }");
    assert_eq!(diagnostic, None);
    assert_eq!(program.statements.len(), 1);
    match &program.statements[0].expr.expression_type {
        ExpressionType::BlockExpression(items) => {
            assert_eq!(items.len(), 3);
            assert_eq!(items[0].return_type, ReturnType::ReturnInteger);
            assert_eq!(items[1].return_type, ReturnType::ReturnBlock);
            assert_eq!(items[2].return_type, ReturnType::ReturnFunctionHeader);
        },
        other => panic!("no block: {:?}", other),
    }
}

#[test]
fn a_failure_in_a_block_is_the_failure_of_the_block() {
    let (program, diagnostic) = parse("{ 1 + 2; 3 + \"x\"; }");
    assert_eq!(diagnostic, Some(ParseError::TypeMismatch));
    assert_eq!(program.statements.len(), 0);
}

#[test]
fn print_takes_one_string() {
    let (program, diagnostic) = parse("print \"a\" print \"b\";");
    assert_eq!(diagnostic, None);
    assert_eq!(program.statements.len(), 2);
    match &program.statements[1].expr.expression_type {
        ExpressionType::PrintExpression(text) => assert_eq!(text, "b"),
        other => panic!("no print statement: {:?}", other),
    }
    let err = parse("print 1;").1.unwrap();
    assert_eq!(err, ParseError::ExpectedString);
    let mut parser = Parser::new(vec![]);
    assert_eq!(failure(parser.parse_print_expression()), ParseError::OutOfTokens);
}

#[test]
fn the_parse_stops_at_the_first_failure() {
    let (program, diagnostic) = parse("1 + 2; 3 * 4; 5 + \"x\"; 6;");
    assert_eq!(diagnostic, Some(ParseError::TypeMismatch));
    assert_eq!(program.statements.len(), 2);
    assert_eq!(*binary(&program.statements[0].expr).0, Token::Add);
    assert_eq!(*binary(&program.statements[1].expr).0, Token::Multiply);
}

#[test]
fn a_parse_that_was_given_up_stays_given_up() {
    let mut parser = parser("1; + 2; 3;");
    let first = parser.parse();
    assert_eq!(first.statements.len(), 1);
    assert_eq!(parser.diagnostic(), Some(ParseError::ExpectedPrimary));
    let left = parser.remaining();
    let second = parser.parse();
    assert_eq!(second.statements.len(), 1);
    assert_eq!(parser.diagnostic(), Some(ParseError::ExpectedPrimary));
    assert_eq!(parser.remaining(), left);
}

#[test]
fn the_end_marker_ends_the_program() {
    let (program, diagnostic) = parse("");
    assert_eq!(diagnostic, None);
    assert_eq!(program.statements.len(), 0);
    assert_eq!(program.node_count, 0);

    let mut parser = Parser::new(vec![Token::Semicolon, Token::IntegerLiteral(1), Token::EOF]);
    let program = parser.parse();
    assert_eq!(program.statements.len(), 0);
    assert_eq!(parser.diagnostic(), None);
    assert_eq!(parser.remaining(), 2);
}

#[test]
fn statements_are_kept_in_source_order() {
    let (program, diagnostic) = parse("1; 2; 3;");
    assert_eq!(diagnostic, None);
    let values: Vec<i32> = program.statements.iter().map(|s| integer(&s.expr)).collect();
    assert_eq!(values, vec![1, 2, 3]);
}

#[test]
fn a_name_alone_is_looked_up() {
    let (program, diagnostic) = parse("x");
    assert_eq!(diagnostic, Some(ParseError::NotDefined));
    assert_eq!(diagnostic.unwrap().kind(), ErrorKind::Undefined);
    assert_eq!(program.statements.len(), 0);

    let mut parser = Parser::with_program(tokens("x 1;"), scoped_program("x", number(9, 42)));
    let program = parser.parse();
    assert_eq!(parser.diagnostic(), None);
    assert_eq!(program.statements.len(), 2);
    assert_eq!(integer(&program.statements[0].expr), 42);
    assert_eq!(program.statements[0].expr.id, 9);
    assert_eq!(integer(&program.statements[1].expr), 1);
}

#[test]
fn var_needs_a_name_that_is_bound() {
    let (program, diagnostic) = parse("var x = 1;");
    assert_eq!(diagnostic, Some(ParseError::NotDefined));
    assert_eq!(program.statements.len(), 0);

    let mut parser = Parser::with_program(tokens("var x = 2 + 3;"), scoped_program("x", number(1, 0)));
    let program = parser.parse();
    assert_eq!(parser.diagnostic(), None);
    assert_eq!(program.statements.len(), 1);
    let statement = &program.statements[0].expr;
    assert_eq!(statement.return_type, ReturnType::ReturnInteger);
    match &statement.expression_type {
        ExpressionType::VarExpression(value) => assert_eq!(*binary(value).0, Token::Add),
        other => panic!("no variable statement: {:?}", other),
    }
}

#[test]
fn the_failures_of_a_variable_statement() {
    for (source, expected) in [
        ("var 1 = 2;", ParseError::ExpectedIdentifier),
        ("var y = 2;", ParseError::NotDefined),
        ("var x 2;", ParseError::ExpectedAssign),
        ("var x = \"s\";", ParseError::TypeMismatch),
        ("var x = 2 3", ParseError::ExpectedSemicolon),
        ("var x = ;", ParseError::ExpectedPrimary),
        ("var x =", ParseError::UnexpectedEof),
    ] {
        let mut parser = Parser::with_program(tokens(source), scoped_program("x", number(1, 0)));
        parser.parse();
        assert_eq!(parser.diagnostic(), Some(expected), "{}", source);
    }
    for source in ["var", "var x", "var x = 2"] {
        let mut all = tokens(source);
        all.remove(0);
        let mut parser = Parser::with_program(all, scoped_program("x", number(1, 0)));
        parser.parse();
        assert_eq!(parser.diagnostic(), Some(ParseError::OutOfTokens), "{}", source);
    }
}

#[test]
fn a_block_begins_a_scope_that_sees_the_outer_bindings() {
    let mut parser =
        Parser::with_program(tokens("{ var x = 2; } var x = 3;"), scoped_program("x", number(1, 0)));
    let program = parser.parse();
    assert_eq!(parser.diagnostic(), None);
    assert_eq!(program.statements.len(), 2);
    assert!(program.env.enclosing.is_none());
    assert_eq!(program.env.vars.len(), 1);
}

#[test]
fn statements_can_be_pushed_by_hand() {
    let mut parser = parser("2;");
    parser.push_expression_statement(number(7, 1));
    let program = parser.parse();
    let values: Vec<i32> = program.statements.iter().map(|s| integer(&s.expr)).collect();
    assert_eq!(values, vec![1, 2]);
}

#[test]
fn every_failure_has_its_kind_and_its_message() {
    let all = [
        (ParseError::OutOfTokens, ErrorKind::EndOfInput, "Ran out of tokens"),
        (ParseError::UnexpectedEof, ErrorKind::EndOfInput, "Unexpected EOF"),
        (ParseError::ExpectedPrimary, ErrorKind::Syntax, "Expected primary expression"),
        (ParseError::ExpectedClosingBrace, ErrorKind::Syntax, "Expected '}'"),
        (ParseError::ExpectedSemicolon, ErrorKind::Syntax, "Expected ';' after expression"),
        (ParseError::InvalidAssignmentTarget, ErrorKind::Syntax, "Invalid assignment target"),
        (ParseError::ExpectedFunctionIdentifier, ErrorKind::Syntax, "Expected function identifier"),
        (ParseError::ExpectedColon, ErrorKind::Syntax, "Expected ':' after identifier"),
        (
            ParseError::ExpectedReturnType,
            ErrorKind::Syntax,
            "Expected return type after function definition",
        ),
        (ParseError::ExpectedLeftParenthesis, ErrorKind::Syntax, "Expected '(' after return type"),
        (ParseError::UnexpectedVoid, ErrorKind::Syntax, "Unexpected void return type"),
        (ParseError::ExpectedRightParenthesis, ErrorKind::Syntax, "Expected ')' after arguments"),
        (ParseError::ExpectedArgumentColon, ErrorKind::Syntax, "Expected ':' after argument type"),
        (ParseError::ExpectedArgumentName, ErrorKind::Syntax, "Expected argument name after ':'"),
        (ParseError::ExpectedArgumentList, ErrorKind::Syntax, "Expected argument list"),
        (ParseError::UnexpectedArgument, ErrorKind::Syntax, "Unexpected argument"),
        (ParseError::ExpectedIdentifier, ErrorKind::Syntax, "Expected identifier"),
        (ParseError::ExpectedAssign, ErrorKind::Syntax, "Expected '=' after variable name"),
        (ParseError::ExpectedString, ErrorKind::Syntax, "Expected string after 'print'"),
        (ParseError::TypeMismatch, ErrorKind::TypeMismatch, "Mismatched types"),
        (ParseError::AlreadyDefined, ErrorKind::Redeclaration, "Variable already defined"),
        (ParseError::NotDefined, ErrorKind::Undefined, "Variable not defined"),
    ];
    for (err, kind, message) in all {
        assert_eq!(err.kind(), kind);
        assert_eq!(err.message(), message);
    }
}

#[test]
fn a_token_denotes_the_type_of_its_keyword() {
    for (literal, keyword, expected) in [
        (Token::BooleanLiteral(false), Token::BooleanDecl, ReturnType::ReturnBool),
        (Token::IntegerLiteral(0), Token::IntegerDecl, ReturnType::ReturnInteger),
        (Token::StringLiteral(String::new()), Token::StringDecl, ReturnType::ReturnString),
        (Token::FloatLiteral("0.0".to_string()), Token::FloatDecl, ReturnType::ReturnFloat),
    ] {
        assert_eq!(ReturnType::of(&literal), expected);
        assert_eq!(ReturnType::from(literal), expected);
        assert_eq!(ReturnType::from(keyword), expected);
    }
    assert_eq!(ReturnType::from(Token::VoidDecl), ReturnType::ReturnVoid);
    assert_eq!(ReturnType::from(Token::CollectionDecl), ReturnType::ReturnCollection);
    assert_eq!(ReturnType::from(Token::StructDecl), ReturnType::ReturnStruct);
    assert_eq!(ReturnType::from(Token::RightParenthesis), ReturnType::ReturnArguments);
    assert_eq!(ReturnType::from(Token::Comma), ReturnType::ReturnContinue);
    assert_eq!(ReturnType::from(Token::EOF), ReturnType::ReturnEOF);
    assert_eq!(ReturnType::from(Token::Add), ReturnType::ReturnInvalid);
    assert_eq!(ReturnType::from(Token::Identifier("x".to_string())), ReturnType::ReturnInvalid);
}

#[test]
fn a_scope_can_be_handed_to_a_parser_with_its_enclosing_scopes() {
    let mut outer = Environment::new();
    success(outer.define(Variable::new("x".to_string(), number(1, 5))));
    let mut program = AstProgram::new();
    program.env = Environment::new_sub(outer);
    let mut parser = Parser::with_program(tokens("x"), program);
    let program = parser.parse();
    assert_eq!(parser.diagnostic(), None);
    assert_eq!(integer(&program.statements[0].expr), 5);
}

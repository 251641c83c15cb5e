use i_v::compiler::parser::{ExpressionType, ParseError};
use i_v::compiler::token::Token;
use i_v::repl::{evaluate, reversed, Command, REPL};

#[test]
fn a_new_loop_has_no_history_and_a_fresh_machine() {
    let repl = REPL::new();
    assert!(repl.command_buffer.is_empty());
    assert_eq!(repl.vm.registers, [0; 32]);
    assert_eq!(repl.vm.pc, 0);
    assert!(repl.vm.program.is_empty());
}

#[test]
fn commands_are_spelled_exactly() {
    for (line, expected) in [
        (".quit", Command::Quit),
        (".history", Command::History),
        (".clear_registers", Command::ClearRegisters),
        (".list_registers", Command::ListRegisters),
        (".cleanup", Command::Cleanup),
        (".program", Command::Program),
        (".help", Command::Help),
        (".load", Command::Load),
        (".Quit", Command::Evaluate),
        ("quit", Command::Evaluate),
        (".quit ", Command::Evaluate),
        ("", Command::Evaluate),
        ("1 + 2;", Command::Evaluate),
    ] {
        assert_eq!(REPL::command(line), expected, "{:?}", line);
    }
}

#[test]
fn every_line_is_recorded_without_the_space_around_it() {
    let mut repl = REPL::new();
    assert_eq!(repl.accept("  .help \n"), Command::Help);
    assert_eq!(repl.accept("1 + 2;\n"), Command::Evaluate);
    assert_eq!(repl.accept("\t.history\r\n"), Command::History);
    assert_eq!(repl.command_buffer, vec![".help", "1 + 2;", ".history"]);
}

#[test]
fn clearing_the_registers_keeps_the_program() {
    let mut repl = REPL::new();
    repl.vm.registers[3] = 7;
    repl.vm.registers[31] = -1;
    repl.vm.program = vec![1, 2, 3];
    repl.vm.pc = 2;
    assert_eq!(repl.accept(".clear_registers"), Command::ClearRegisters);
    assert_eq!(repl.vm.registers, [0; 32]);
    assert_eq!(repl.vm.program, vec![1, 2, 3]);
    assert_eq!(repl.vm.pc, 2);
}

#[test]
fn cleaning_up_drops_the_program_too() {
    let mut repl = REPL::new();
    repl.vm.registers[0] = 7;
    repl.vm.program = vec![1, 2, 3];
    repl.vm.pc = 2;
    assert_eq!(repl.accept(" .cleanup"), Command::Cleanup);
    assert_eq!(repl.vm.registers, [0; 32]);
    assert!(repl.vm.program.is_empty());
    assert_eq!(repl.vm.pc, 2);
}

#[test]
fn other_commands_leave_the_machine_alone() {
    let mut repl = REPL::new();
    repl.vm.registers[0] = 7;
    repl.vm.program = vec![1, 2, 3];
    for line in [".help", ".program", ".list_registers", ".history", ".load", ".quit", "x"] {
        repl.accept(line);
        assert_eq!(repl.vm.registers[0], 7);
        assert_eq!(repl.vm.program, vec![1, 2, 3]);
    }
}

#[test]
fn tokens_are_reversed_for_the_parser() {
    let tokens = vec![Token::IntegerLiteral(1), Token::Add, Token::EOF];
    assert_eq!(reversed(tokens), vec![Token::EOF, Token::Add, Token::IntegerLiteral(1)]);
    assert_eq!(reversed(vec![]), vec![]);
}

#[test]
fn a_source_text_is_scanned_and_parsed() {
    let evaluation = evaluate("1 + 2 * 3; print \"x\";").unwrap();
    assert_eq!(evaluation.diagnostic, None);
    assert_eq!(evaluation.program.statements.len(), 2);
    match &evaluation.program.statements[0].expr.expression_type {
        ExpressionType::BinaryExpression(op, _, _) => assert_eq!(*op, Token::Add),
        other => panic!("no binary node: {:?}", other),
    }
}

#[test]
fn a_failure_comes_with_the_statements_before_it() {
    let evaluation = evaluate("1; 2; 3 + true;").unwrap();
    assert_eq!(evaluation.diagnostic, Some(ParseError::TypeMismatch));
    assert_eq!(evaluation.program.statements.len(), 2);
}

#[test]
fn a_text_that_cannot_be_scanned_is_not_evaluated() {
    assert!(evaluate("1 + 4000000000;").is_none());
}

//! The interactive loop, as far as it decides and computes: what a line of
//! input asks for, what that does to the machine, and what a source text
//! parses to. Reading the lines and printing the answers is left to the
//! caller.

use crate::compiler::ast::{AstProgram, AstProgramView};
use crate::compiler::error::ParseError;
use crate::compiler::grammar::ParserView;
use crate::compiler::parser::Parser;
use crate::compiler::scanner::{blank, tokenize, ScannerView};
use crate::compiler::token::{token_views, Token};
use crate::text::{leading, str_eq};
use crate::vm::{Machine, VM};
use vstd::prelude::*;

verus! {

/// What a line of input asks for.
#[derive(Debug, PartialEq, Eq, Clone, Copy, Structural)]
pub enum Command {
    /// `.quit`: leave.
    Quit,
    /// `.history`: list the lines entered so far.
    History,
    /// `.clear_registers`: set every register to 0.
    ClearRegisters,
    /// `.list_registers`: list the registers.
    ListRegisters,
    /// `.cleanup`: drop the program and set every register to 0.
    Cleanup,
    /// `.program`: list the bytes of the program.
    Program,
    /// `.help`: list the commands.
    Help,
    /// `.load`: parse the text of a file.
    Load,
    /// Any other line: parse the line itself.
    Evaluate,
}

/// What the line `line` asks for. Commands are spelled exactly.
pub open spec fn command_of(line: Seq<char>) -> Command {
    if line == ".quit"@ {
        Command::Quit
    } else if line == ".history"@ {
        Command::History
    } else if line == ".clear_registers"@ {
        Command::ClearRegisters
    } else if line == ".list_registers"@ {
        Command::ListRegisters
    } else if line == ".cleanup"@ {
        Command::Cleanup
    } else if line == ".program"@ {
        Command::Program
    } else if line == ".help"@ {
        Command::Help
    } else if line == ".load"@ {
        Command::Load
    } else {
        Command::Evaluate
    }
}

/// `s` without the white space at its start and at its end.
pub open spec fn trimmed(s: Seq<char>) -> Seq<char> {
    let rest = s.skip(leading(s, blank()) as int);
    rest.take(rest.len() - leading(rest.reverse(), blank()))
}

/// `str::trim` gives the text without its leading and trailing white space,
/// where white space is what `char::is_whitespace` tells.
pub assume_specification<'a>[ str::trim ](s: &'a str) -> (r: &'a str)
    ensures
        r@ == trimmed(s@),
;

/// The values of a sequence of strings, in order.
pub open spec fn string_views(lines: Seq<String>) -> Seq<Seq<char>> {
    Seq::new(lines.len(), |i: int| lines[i]@)
}

/// The state of the interactive loop: the lines entered and the machine.
#[derive(Debug)]
pub struct REPL {
    pub command_buffer: Vec<String>,
    pub vm: VM,
}

impl REPL {
    pub fn new() -> (repl: REPL)
        ensures
            repl.command_buffer@.len() == 0,
            repl.vm@ == Machine::fresh(),
    {
        REPL { vm: VM::new(), command_buffer: Vec::new() }
    }

    /// What the line `line` asks for.
    pub fn command(line: &str) -> (command: Command)
        ensures
            command == command_of(line@),
    {
        if str_eq(line, ".quit") {
            Command::Quit
        } else if str_eq(line, ".history") {
            Command::History
        } else if str_eq(line, ".clear_registers") {
            Command::ClearRegisters
        } else if str_eq(line, ".list_registers") {
            Command::ListRegisters
        } else if str_eq(line, ".cleanup") {
            Command::Cleanup
        } else if str_eq(line, ".program") {
            Command::Program
        } else if str_eq(line, ".help") {
            Command::Help
        } else if str_eq(line, ".load") {
            Command::Load
        } else {
            Command::Evaluate
        }
    }

    /// Sets every register of the machine to 0.
    pub fn clear_registers(&mut self)
        ensures
            final(self)@.1 == (Machine { registers: Machine::fresh().registers, ..old(self)@.1 }),
            final(self)@.0 == old(self)@.0,
    {
        let mut i: usize = 0;
        while i < 32
            invariant
                i <= 32,
                self.command_buffer == old(self).command_buffer,
                self.vm@ == (Machine { registers: self.vm.registers@, ..old(self).vm@ }),
                forall|j: int| 0 <= j < i ==> self.vm.registers@[j] == 0,
            decreases 32 - i,
        {
            self.vm.registers[i] = 0;
            i += 1;
        }
        assert(self.vm.registers@ =~= Machine::fresh().registers);
    }

    /// Drops the program of the machine and sets every register to 0.
    pub fn cleanup(&mut self)
        ensures
            final(self)@.1 == (Machine {
                registers: Machine::fresh().registers,
                program: Seq::empty(),
                ..old(self)@.1
            }),
            final(self)@.0 == old(self)@.0,
    {
        self.vm.program.truncate(0);
        assert(self.vm.program@ =~= Seq::empty());
        self.clear_registers();
    }

    /// Takes one line of input: the line, without the white space around
    /// it, is recorded, and what it asks of the machine is done. The
    /// command is handed back, for the caller to do the rest.
    pub fn accept(&mut self, input: &str) -> (command: Command)
        ensures
            command == command_of(trimmed(input@)),
            final(self)@.0 == old(self)@.0.push(trimmed(input@)),
            final(self)@.1 == match command {
                Command::ClearRegisters => Machine {
                    registers: Machine::fresh().registers,
                    ..old(self)@.1
                },
                Command::Cleanup => Machine {
                    registers: Machine::fresh().registers,
                    program: Seq::empty(),
                    ..old(self)@.1
                },
                _ => old(self)@.1,
            },
    {
        let line = input.trim();
        let owned = line.to_owned();
        proof {
            assert(string_views(self.command_buffer@.push(owned)) =~= string_views(
                self.command_buffer@,
            ).push(line@));
        }
        self.command_buffer.push(owned);
        let command = REPL::command(line);
        match command {
            Command::ClearRegisters => self.clear_registers(),
            Command::Cleanup => self.cleanup(),
            _ => {},
        }
        command
    }
}

impl View for REPL {
    type V = (Seq<Seq<char>>, Machine);

    open spec fn view(&self) -> (Seq<Seq<char>>, Machine) {
        (string_views(self.command_buffer@), self.vm@)
    }
}

/// What a source text parses to: the program, and why its parse was given
/// up, if it was.
#[derive(Debug)]
pub struct Evaluation {
    pub program: AstProgram,
    pub diagnostic: Option<ParseError>,
}

/// What `source` parses to: its tokens are handed to a parser in reverse,
/// as a parser takes them. There is no result if a number in the text cannot
/// be written down, or if there are more tokens than a parser can count
/// nodes for.
pub open spec fn evaluation(source: Seq<char>) -> Option<(AstProgramView, Option<ParseError>)> {
    match (ScannerView { line: 0, rest: source }).tokens() {
        None => None,
        Some(tokens) => if 2 * tokens.len() > u32::MAX {
            None
        } else {
            let end = ParserView::start(tokens.reverse()).parse();
            Some((end.program, end.diagnostic))
        },
    }
}

/// The tokens in reverse order.
pub fn reversed(tokens: Vec<Token>) -> (r: Vec<Token>)
    ensures
        token_views(r@) == token_views(tokens@).reverse(),
{
    let mut tokens = tokens;
    let ghost all = token_views(tokens@);
    let mut r: Vec<Token> = Vec::new();
    while tokens.len() > 0
        invariant
            token_views(tokens@) == all.take(tokens@.len() as int),
            tokens@.len() <= all.len(),
            token_views(r@) == all.skip(tokens@.len() as int).reverse(),
        decreases tokens@.len(),
    {
        let ghost before = tokens@;
        let ghost done = r@;
        let tok = tokens.pop().unwrap();
        r.push(tok);
        proof {
            assert(token_views(before)[before.len() - 1] == tok@);
            assert(token_views(tokens@) =~= all.take(tokens@.len() as int));
            assert(token_views(r@) =~= token_views(done).push(tok@));
            assert(token_views(r@) =~= all.skip(tokens@.len() as int).reverse());
        }
    }
    proof {
        assert(all.skip(0) =~= all);
    }
    r
}

/// Scans and parses `source`.
pub fn evaluate(source: &str) -> (r: Option<Evaluation>)
    ensures
        match r {
            Some(e) => evaluation(source@) == Some((e.program@, e.diagnostic)),
            None => evaluation(source@) is None,
        },
{
    match tokenize(source) {
        None => None,
        Some(tokens) => {
            if tokens.len() > (u32::MAX / 2) as usize {
                return None;
            }
            let mut parser = Parser::new(reversed(tokens));
            let program = parser.parse();
            Some(Evaluation { program, diagnostic: parser.diagnostic() })
        },
    }
}

} // verus!

//! The register machine: 32 registers, a program counter, a program of
//! bytes, a heap, a remainder and a flag.
//!
//! An instruction is an opcode byte and up to three operand bytes. Most
//! instructions take four bytes in all, used or not.

use crate::instruction::{opcode_of_byte, Opcode};
use vstd::prelude::*;

verus! {

/// The number that a register's value is when it is read as an address or
/// compared without sign: a negative value counts from the top of `usize`.
pub open spec fn unsigned(r: i32) -> int {
    if r >= 0 {
        r as int
    } else {
        r + usize::MAX + 1
    }
}

/// Division that rounds towards zero.
pub open spec fn quotient(a: int, b: int) -> int {
    if a >= 0 {
        a / b
    } else {
        -((-a) / b)
    }
}

/// The remainder of the division that rounds towards zero; it has the sign
/// of `a`.
pub open spec fn remainder(a: int, b: int) -> int {
    if a >= 0 {
        a % b
    } else {
        -((-a) % b)
    }
}

/// The size of a quotient is at most that of the dividend.
pub proof fn lemma_quotient_bounds(a: int, b: int)
    requires
        b != 0,
    ensures
        a >= 0 ==> -a <= quotient(a, b) <= a,
        a < 0 ==> a <= quotient(a, b) <= -a,
        a < 0 && b != -1 ==> quotient(a, b) < -a,
{
    let m = if a >= 0 {
        a
    } else {
        -a
    };
    assert(-m <= m / b <= m) by (nonlinear_arith)
        requires
            m >= 0,
            b != 0,
    ;
    assert(m > 0 && b != 1 && b != -1 ==> -m < m / b < m) by (nonlinear_arith)
        requires
            m >= 0,
            b != 0,
    ;
    assert(m / 1 == m);
    assert(m / (-1) == -m) by (nonlinear_arith);
}

/// The machine.
#[derive(Debug)]
pub struct VM {
    pub registers: [i32; 32],
    /// The place in the program of the next byte to read.
    pub pc: usize,
    pub program: Vec<u8>,
    pub heap: Vec<u8>,
    /// The remainder of the last division.
    pub remainder: u32,
    /// The outcome of the last comparison.
    pub equal_flag: bool,
}

/// The mathematical value of a machine.
pub struct Machine {
    pub registers: Seq<i32>,
    pub pc: int,
    pub program: Seq<u8>,
    pub heap: Seq<u8>,
    pub remainder: int,
    pub equal_flag: bool,
}

impl View for VM {
    type V = Machine;

    open spec fn view(&self) -> Machine {
        Machine {
            registers: self.registers@,
            pc: self.pc as int,
            program: self.program@,
            heap: self.heap@,
            remainder: self.remainder as int,
            equal_flag: self.equal_flag,
        }
    }
}

impl Machine {
    /// A machine with all registers 0, no program and no heap.
    pub open spec fn fresh() -> Machine {
        Machine {
            registers: Seq::new(32, |i: int| 0i32),
            pc: 0,
            program: Seq::empty(),
            heap: Seq::empty(),
            remainder: 0,
            equal_flag: false,
        }
    }

    /// Whether the program counter is past the program.
    pub open spec fn at_end(self) -> bool {
        self.pc >= self.program.len()
    }

    /// The opcode at the program counter.
    pub open spec fn opcode(self) -> Opcode {
        opcode_of_byte(self.program[self.pc])
    }

    /// The `k`-th byte after the opcode.
    pub open spec fn operand(self, k: int) -> u8 {
        self.program[self.pc + k]
    }

    /// Whether the first `n` operands are there and each names a register.
    pub open spec fn names_registers(self, n: int) -> bool {
        &&& self.pc + n < self.program.len()
        &&& forall|k: int| 1 <= k <= n ==> #[trigger] self.operand(k) < 32
    }

    /// The value of the register that the `k`-th operand names.
    pub open spec fn register(self, k: int) -> i32 {
        self.registers[self.operand(k) as int]
    }

    /// This machine with another program counter.
    pub open spec fn at(self, pc: int) -> Machine {
        Machine { pc, ..self }
    }

    /// This machine with the value `v` in the register that the `k`-th
    /// operand names.
    pub open spec fn store(self, k: int, v: int) -> Machine {
        Machine { registers: self.registers.update(self.operand(k) as int, v as i32), ..self }
    }

    /// This machine with another flag.
    pub open spec fn flag(self, equal_flag: bool) -> Machine {
        Machine { equal_flag, ..self }
    }

    /// Whether an arithmetic instruction has its operands and its result
    /// is a value of a register.
    pub open spec fn computes(self, result: int) -> bool {
        &&& self.names_registers(3)
        &&& i32::MIN <= result <= i32::MAX
    }

    /// The heap at the length `n`: cut, or filled up with zeros.
    pub open spec fn resized(self, n: int) -> Seq<u8> {
        Seq::new(
            n as nat,
            |i: int|
                if i < self.heap.len() {
                    self.heap[i]
                } else {
                    0u8
                },
        )
    }

    /// Whether the machine can execute the next instruction: the operands
    /// that the instruction reads are in the program and name registers,
    /// no result leaves the range of its place, and nothing is divided
    /// by zero.
    pub open spec fn can_step(self) -> bool {
        0 <= self.pc && (self.at_end() || match self.opcode() {
            Opcode::ADD => self.computes(self.register(1) + self.register(2)),
            Opcode::SUB => self.computes(self.register(1) - self.register(2)),
            Opcode::MUL => self.computes(self.register(1) * self.register(2)),
            Opcode::DIV => self.names_registers(3) && self.register(2) != 0 && !(self.register(1)
                == i32::MIN && self.register(2) == -1),
            Opcode::LOAD => self.pc + 3 < self.program.len() && self.operand(1) < 32,
            Opcode::JMP | Opcode::JNE => self.names_registers(1),
            Opcode::JMPF => self.names_registers(1) && self.pc + 2 + unsigned(self.register(1))
                <= usize::MAX,
            Opcode::JMPB => self.names_registers(1) && unsigned(self.register(1)) <= self.pc + 2,
            Opcode::JEQ => self.equal_flag ==> self.names_registers(1),
            Opcode::EQ | Opcode::NEQ | Opcode::GTE | Opcode::LTE | Opcode::LT | Opcode::GT => {
                self.names_registers(2) && self.pc + 4 <= usize::MAX
            },
            Opcode::NOP => self.pc + 4 <= usize::MAX,
            Opcode::ALOC => {
                &&& self.names_registers(1)
                &&& self.pc + 4 <= usize::MAX
                &&& self.heap.len() <= i32::MAX
                &&& 0 <= self.heap.len() + self.register(1) <= i32::MAX
            },
            Opcode::HLT | Opcode::IGL | Opcode::LBL => true,
        })
    }

    /// Whether the next instruction ends a run: the program counter is past
    /// the program, or the opcode there is `HLT` or names no operation.
    pub open spec fn stops(self) -> bool {
        self.at_end() || self.opcode() == Opcode::HLT || self.opcode() == Opcode::IGL
            || self.opcode() == Opcode::LBL
    }

    /// The machine after the next instruction.
    pub open spec fn step(self) -> Machine {
        if self.at_end() {
            self
        } else {
            match self.opcode() {
                Opcode::HLT | Opcode::IGL | Opcode::LBL => self.at(self.pc + 1),
                Opcode::ADD => self.store(3, self.register(1) + self.register(2)).at(self.pc + 4),
                Opcode::SUB => self.store(3, self.register(1) - self.register(2)).at(self.pc + 4),
                Opcode::MUL => self.store(3, self.register(1) * self.register(2)).at(self.pc + 4),
                Opcode::DIV => {
                    let rest = remainder(self.register(1) as int, self.register(2) as int);
                    Machine {
                        remainder: if rest >= 0 {
                            rest
                        } else {
                            rest + u32::MAX + 1
                        },
                        ..self.store(
                            3,
                            quotient(self.register(1) as int, self.register(2) as int),
                        ).at(self.pc + 4)
                    }
                },
                Opcode::LOAD => self.store(1, self.operand(2) * 256 + self.operand(3)).at(
                    self.pc + 4,
                ),
                Opcode::JMP => self.at(unsigned(self.register(1))),
                Opcode::JMPF => self.at(self.pc + 2 + unsigned(self.register(1))),
                Opcode::JMPB => self.at(self.pc + 2 - unsigned(self.register(1))),
                Opcode::EQ => self.flag(self.register(1) == self.register(2)).at(self.pc + 4),
                Opcode::NEQ => self.flag(self.register(1) != self.register(2)).at(self.pc + 4),
                Opcode::GTE => self.flag(
                    unsigned(self.register(1)) >= unsigned(self.register(2)),
                ).at(self.pc + 4),
                Opcode::LTE => self.flag(
                    unsigned(self.register(1)) <= unsigned(self.register(2)),
                ).at(self.pc + 4),
                Opcode::LT => self.flag(unsigned(self.register(1)) < unsigned(self.register(2))).at(
                    self.pc + 4,
                ),
                Opcode::GT => self.flag(unsigned(self.register(1)) > unsigned(self.register(2))).at(
                    self.pc + 4,
                ),
                Opcode::JEQ => if self.equal_flag {
                    self.at(unsigned(self.register(1)))
                } else {
                    self.at(self.pc + 1)
                },
                Opcode::JNE => if self.equal_flag {
                    self.at(self.pc + 2)
                } else {
                    self.at(unsigned(self.register(1)))
                },
                Opcode::NOP => self.at(self.pc + 4),
                Opcode::ALOC => Machine {
                    heap: self.resized(self.heap.len() + self.register(1)),
                    ..self.at(self.pc + 4)
                },
            }
        }
    }

    /// Whether a run from this machine ends after at most `more` further
    /// instructions beyond the next one, and can execute each of them.
    pub open spec fn runs(self, more: nat) -> bool
        decreases more,
    {
        self.can_step() && (self.stops() || (more > 0 && self.step().runs((more - 1) as nat)))
    }

    /// The machine at the end of a run of at most `more` further
    /// instructions beyond the next one.
    pub open spec fn after_run(self, more: nat) -> Machine
        decreases more,
    {
        if self.stops() || more == 0 {
            self.step()
        } else {
            self.step().after_run((more - 1) as nat)
        }
    }

    /// Where a run ends does not depend on how many instructions it was
    /// allowed, as long as they were enough.
    pub proof fn lemma_run_is_unique(self, a: nat, b: nat)
        requires
            self.runs(a),
            self.runs(b),
        ensures
            self.after_run(a) == self.after_run(b),
        decreases a,
    {
        if !self.stops() {
            self.step().lemma_run_is_unique((a - 1) as nat, (b - 1) as nat);
        }
    }
}

/// The value of a register read as an address.
fn address(r: i32) -> (a: usize)
    ensures
        a == unsigned(r),
{
    if r >= 0 {
        r as usize
    } else {
        usize::MAX - ((-(r + 1)) as usize)
    }
}

impl VM {
    pub fn new() -> (vm: VM)
        ensures
            vm@ == Machine::fresh(),
    {
        let vm = VM {
            registers: [0;32],
            program: Vec::new(),
            heap: Vec::new(),
            pc: 0,
            remainder: 0,
            equal_flag: false,
        };
        assert(vm@.registers =~= Machine::fresh().registers);
        vm
    }

    fn skip_8_bits(&mut self)
        requires
            old(self).pc + 1 <= usize::MAX,
        ensures
            final(self)@ == old(self)@.at(old(self).pc + 1),
    {
        self.pc += 1;
    }

    fn skip_16_bits(&mut self)
        requires
            old(self).pc + 2 <= usize::MAX,
        ensures
            final(self)@ == old(self)@.at(old(self).pc + 2),
    {
        self.pc += 2;
    }

    fn skip_24_bits(&mut self)
        requires
            old(self).pc + 3 <= usize::MAX,
        ensures
            final(self)@ == old(self)@.at(old(self).pc + 3),
    {
        self.pc += 3;
    }

    fn next_8_bits(&mut self) -> (byte: u8)
        requires
            old(self).pc < old(self).program@.len(),
        ensures
            byte == old(self).program@[old(self).pc as int],
            final(self)@ == old(self)@.at(old(self).pc + 1),
    {
        let result = self.program[self.pc];
        assert(self.program.len() <= usize::MAX);
        self.pc += 1;
        result
    }

    fn next_16_bits(&mut self) -> (word: u16)
        requires
            old(self).pc + 1 < old(self).program@.len(),
        ensures
            word == old(self).program@[old(self).pc as int] * 256 + old(self).program@[old(self).pc
                + 1],
            final(self)@ == old(self)@.at(old(self).pc + 2),
    {
        assert(self.program.len() <= usize::MAX);
        let high: u8 = self.program[self.pc];
        let low: u8 = self.program[self.pc + 1];
        let result: u16 = ((high as u16) << 8) | (low as u16);
        assert(result == high * 256 + low) by (bit_vector)
            requires
                result == ((high as u16) << 8) | (low as u16),
        ;
        self.pc += 2;
        result
    }

    fn decode_opcode(&mut self) -> (opcode: Opcode)
        requires
            old(self).pc < old(self).program@.len(),
        ensures
            opcode == old(self)@.opcode(),
            final(self)@ == old(self)@.at(old(self).pc + 1),
    {
        let opcode = Opcode::from(self.program[self.pc]);
        assert(self.program.len() <= usize::MAX);
        self.pc += 1;
        opcode
    }

    /// The value of the register that the next byte names.
    fn next_register(&mut self) -> (value: i32)
        requires
            old(self).pc < old(self).program@.len(),
            old(self).program@[old(self).pc as int] < 32,
        ensures
            value == old(self).registers@[old(self).program@[old(self).pc as int] as int],
            final(self)@ == old(self)@.at(old(self).pc + 1),
    {
        let register = self.next_8_bits() as usize;
        self.registers[register]
    }

    /// Puts `value` into the register that the next byte names.
    fn store_next(&mut self, value: i32)
        requires
            old(self).pc < old(self).program@.len(),
            old(self).program@[old(self).pc as int] < 32,
        ensures
            final(self)@ == (Machine {
                registers: old(self).registers@.update(
                    old(self).program@[old(self).pc as int] as int,
                    value,
                ),
                pc: old(self).pc + 1,
                ..old(self)@
            }),
    {
        let register = self.next_8_bits() as usize;
        self.registers[register] = value;
    }

    /// Whether the first `n` operands of the instruction at the program
    /// counter are there and each names a register.
    fn operands_name_registers(&self, n: usize) -> (r: bool)
        requires
            self.pc < self.program@.len(),
            n <= 3,
        ensures
            r == self@.names_registers(n as int),
    {
        if n >= self.program.len() - self.pc {
            return false;
        }
        let mut k: usize = 1;
        while k <= n
            invariant
                1 <= k <= n + 1,
                n <= 3,
                self.pc + n < self.program@.len() <= usize::MAX,
                forall|j: int| 1 <= j < k ==> #[trigger] self@.operand(j) < 32,
            decreases n + 1 - k,
        {
            if self.program[self.pc + k] >= 32 {
                assert(self@.operand(k as int) >= 32);
                return false;
            }
            k += 1;
        }
        true
    }

    /// The value of the register that the `k`-th operand of the instruction
    /// at the program counter names.
    fn operand_register(&self, k: usize) -> (value: i32)
        requires
            1 <= k <= 3,
            self@.names_registers(k as int),
        ensures
            value == self@.register(k as int),
    {
        assert(self@.operand(k as int) < 32);
        assert(self.program.len() <= usize::MAX);
        self.registers[self.program[self.pc + k] as usize]
    }

    /// Whether the machine can execute the next instruction.
    pub fn can_step(&self) -> (r: bool)
        ensures
            r == self@.can_step(),
    {
        if self.pc >= self.program.len() {
            return true;
        }
        let room = self.pc <= usize::MAX - 4;
        match Opcode::from(self.program[self.pc]) {
            Opcode::ADD => {
                self.operands_name_registers(3) && {
                    let sum = self.operand_register(1) as i64 + self.operand_register(2) as i64;
                    i32::MIN as i64 <= sum && sum <= i32::MAX as i64
                }
            },
            Opcode::SUB => {
                self.operands_name_registers(3) && {
                    let difference = self.operand_register(1) as i64 - self.operand_register(
                        2,
                    ) as i64;
                    i32::MIN as i64 <= difference && difference <= i32::MAX as i64
                }
            },
            Opcode::MUL => {
                self.operands_name_registers(3) && {
                    let a = self.operand_register(1) as i64;
                    let b = self.operand_register(2) as i64;
                    assert(-0x4000_0000_0000_0000 <= a * b <= 0x4000_0000_0000_0000)
                        by (nonlinear_arith)
                        requires
                            -0x8000_0000 <= a <= 0x7fff_ffff,
                            -0x8000_0000 <= b <= 0x7fff_ffff,
                    ;
                    let product = a * b;
                    i32::MIN as i64 <= product && product <= i32::MAX as i64
                }
            },
            Opcode::DIV => {
                self.operands_name_registers(3) && self.operand_register(2) != 0 && !(
                self.operand_register(1) == i32::MIN && self.operand_register(2) == -1)
            },
            Opcode::LOAD => {
                3 < self.program.len() - self.pc && self.program[self.pc + 1] < 32
            },
            Opcode::JMP | Opcode::JNE => self.operands_name_registers(1),
            Opcode::JMPF => {
                self.operands_name_registers(1) && address(self.operand_register(1)) <= usize::MAX
                    - 2 - self.pc
            },
            Opcode::JMPB => {
                self.operands_name_registers(1) && address(self.operand_register(1)) <= self.pc
                    + 2
            },
            Opcode::JEQ => !self.equal_flag || self.operands_name_registers(1),
            Opcode::EQ | Opcode::NEQ | Opcode::GTE | Opcode::LTE | Opcode::LT | Opcode::GT => {
                self.operands_name_registers(2) && room
            },
            Opcode::NOP => room,
            Opcode::ALOC => {
                self.operands_name_registers(1) && room && self.heap.len() <= i32::MAX as usize && {
                    let new_len = self.heap.len() as i64 + self.operand_register(1) as i64;
                    0 <= new_len && new_len <= i32::MAX as i64
                }
            },
            Opcode::HLT | Opcode::IGL | Opcode::LBL => true,
        }
    }

    /// Runs until an instruction ends the run.
    pub fn run(&mut self)
        requires
            exists|more: nat| old(self)@.runs(more),
        ensures
            forall|more: nat| old(self)@.runs(more) ==> final(self)@ == old(self)@.after_run(more),
    {
        let ghost mut more: nat = choose|more: nat| old(self)@.runs(more);
        let ghost allowed = more;
        let mut is_done = false;
        while !is_done
            invariant
                old(self)@.runs(allowed),
                !is_done ==> self@.runs(more) && self@.after_run(more) == old(self)@.after_run(
                    allowed,
                ),
                is_done ==> self@ == old(self)@.after_run(allowed),
            decreases
                    if is_done {
                        0
                    } else {
                        more + 1
                    },
        {
            is_done = self.execute_instruction();
            proof {
                if !is_done {
                    more = (more - 1) as nat;
                }
            }
        }
        proof {
            assert forall|other: nat| old(self)@.runs(other) implies self@ == old(self)@.after_run(
                other,
            ) by {
                old(self)@.lemma_run_is_unique(allowed, other);
            }
        }
    }

    /// Executes one instruction.
    pub fn run_once(&mut self)
        requires
            old(self)@.can_step(),
        ensures
            final(self)@ == old(self)@.step(),
    {
        self.execute_instruction();
    }

    /// Executes the next instruction and tells whether it ends the run.
    pub fn execute_instruction(&mut self) -> (done: bool)
        requires
            old(self)@.can_step(),
        ensures
            final(self)@ == old(self)@.step(),
            done == old(self)@.stops(),
    {
        if self.pc >= self.program.len() {
            return true;
        }
        let ghost before = self@;
        assert(forall|k: int| before.operand(k) == before.program[before.pc + k]);
        match self.decode_opcode() {
            Opcode::HLT => {
                return true;
            },
            Opcode::ADD => {
                assert(before.operand(1) < 32 && before.operand(2) < 32 && before.operand(3) < 32);
                let register1 = self.next_register();
                let register2 = self.next_register();
                self.store_next(register1 + register2);
            },
            Opcode::SUB => {
                assert(before.operand(1) < 32 && before.operand(2) < 32 && before.operand(3) < 32);
                let register1 = self.next_register();
                let register2 = self.next_register();
                self.store_next(register1 - register2);
            },
            Opcode::MUL => {
                assert(before.operand(1) < 32 && before.operand(2) < 32 && before.operand(3) < 32);
                let register1 = self.next_register();
                let register2 = self.next_register();
                self.store_next(register1 * register2);
            },
            Opcode::DIV => {
                assert(before.operand(1) < 32 && before.operand(2) < 32 && before.operand(3) < 32);
                let register1 = self.next_register();
                let register2 = self.next_register();
                proof {
                    lemma_quotient_bounds(register1 as int, register2 as int);
                }
                self.store_next(register1 / register2);
                let rest = register1 % register2;
                self.remainder =
                if rest >= 0 {
                    rest as u32
                } else {
                    u32::MAX - ((-(rest + 1)) as u32)
                };
            },
            Opcode::LOAD => {
                assert(before.operand(1) < 32);
                let register = self.next_8_bits() as usize;
                let number = self.next_16_bits();
                self.registers[register] = number as i32;
            },
            Opcode::JMP => {
                assert(before.operand(1) < 32);
                let target = self.next_register();
                self.pc = address(target);
            },
            Opcode::JMPF => {
                assert(before.operand(1) < 32);
                let offset = address(self.next_register());
                self.pc += offset;
            },
            Opcode::JMPB => {
                assert(before.operand(1) < 32);
                let offset = address(self.next_register());
                self.pc -= offset;
            },
            Opcode::EQ => {
                assert(before.operand(1) < 32 && before.operand(2) < 32);
                let register1 = self.next_register();
                let register2 = self.next_register();
                self.equal_flag = register1 == register2;
                self.skip_8_bits();
            },
            Opcode::NEQ => {
                assert(before.operand(1) < 32 && before.operand(2) < 32);
                let register1 = self.next_register();
                let register2 = self.next_register();
                self.equal_flag = register1 != register2;
                self.skip_8_bits();
            },
            Opcode::JEQ => {
                if self.equal_flag {
                    assert(before.operand(1) < 32);
                    let target = self.next_register();
                    self.pc = address(target);
                }
            },
            Opcode::JNE => {
                assert(before.operand(1) < 32);
                let target = self.next_register();
                if !self.equal_flag {
                    self.pc = address(target);
                }
            },
            Opcode::GTE => {
                assert(before.operand(1) < 32 && before.operand(2) < 32);
                let register1 = address(self.next_register());
                let register2 = address(self.next_register());
                self.equal_flag = register1 >= register2;
                self.skip_8_bits();
            },
            Opcode::LTE => {
                assert(before.operand(1) < 32 && before.operand(2) < 32);
                let register1 = address(self.next_register());
                let register2 = address(self.next_register());
                self.equal_flag = register1 <= register2;
                self.skip_8_bits();
            },
            Opcode::LT => {
                assert(before.operand(1) < 32 && before.operand(2) < 32);
                let register1 = address(self.next_register());
                let register2 = address(self.next_register());
                self.equal_flag = register1 < register2;
                self.skip_8_bits();
            },
            Opcode::GT => {
                assert(before.operand(1) < 32 && before.operand(2) < 32);
                let register1 = address(self.next_register());
                let register2 = address(self.next_register());
                self.equal_flag = register1 > register2;
                self.skip_8_bits();
            },
            Opcode::NOP => {
                self.skip_24_bits();
            },
            Opcode::ALOC => {
                assert(before.operand(1) < 32);
                let bytes = self.next_register();
                let new_len = self.heap.len() as i32 + bytes;
                self.heap.resize(new_len as usize, 0);
                assert(self.heap@ =~= before.resized(new_len as int));
                self.skip_16_bits();
            },
            _ => {
                return true;
            },
        }
        false
    }
}

} // verus!

//! The instructions of the register machine.

use crate::text::str_eq;
use vstd::prelude::*;

verus! {

/// What an instruction does. One byte of a program names an opcode.
#[derive(Debug, PartialEq, Eq, Clone, Copy, Structural)]
pub enum Opcode {
    HLT,
    LT,
    GT,
    LTE,
    GTE,
    NEQ,
    EQ,
    JEQ,
    JNE,
    JMP,
    JMPF,
    JMPB,
    IGL,
    LOAD,
    ADD,
    SUB,
    MUL,
    DIV,
    NOP,
    ALOC,
    LBL,
}

/// The opcode that a byte names; a byte that names none gives `IGL`.
pub open spec fn opcode_of_byte(v: u8) -> Opcode {
    if v == 0 {
        Opcode::LOAD
    } else if v == 1 {
        Opcode::ADD
    } else if v == 2 {
        Opcode::SUB
    } else if v == 3 {
        Opcode::MUL
    } else if v == 4 {
        Opcode::DIV
    } else if v == 5 {
        Opcode::HLT
    } else if v == 6 {
        Opcode::JMP
    } else if v == 7 {
        Opcode::JMPF
    } else if v == 8 {
        Opcode::JMPB
    } else if v == 9 {
        Opcode::EQ
    } else if v == 10 {
        Opcode::JEQ
    } else if v == 11 {
        Opcode::JNE
    } else if v == 12 {
        Opcode::NEQ
    } else if v == 13 {
        Opcode::GTE
    } else if v == 14 {
        Opcode::LTE
    } else if v == 15 {
        Opcode::GT
    } else if v == 16 {
        Opcode::LT
    } else if v == 17 {
        Opcode::NOP
    } else if v == 18 {
        Opcode::ALOC
    } else if v == 19 {
        Opcode::LBL
    } else {
        Opcode::IGL
    }
}

impl From<u8> for Opcode {
    fn from(v: u8) -> (op: Opcode) {
        match v {
            19 => Opcode::LBL,
            18 => Opcode::ALOC,
            17 => Opcode::NOP,
            16 => Opcode::LT,
            15 => Opcode::GT,
            14 => Opcode::LTE,
            13 => Opcode::GTE,
            12 => Opcode::NEQ,
            11 => Opcode::JNE,
            10 => Opcode::JEQ,
            9 => Opcode::EQ,
            8 => Opcode::JMPB,
            7 => Opcode::JMPF,
            6 => Opcode::JMP,
            5 => Opcode::HLT,
            4 => Opcode::DIV,
            3 => Opcode::MUL,
            2 => Opcode::SUB,
            1 => Opcode::ADD,
            0 => Opcode::LOAD,
            _ => Opcode::IGL,
        }
    }
}

impl vstd::std_specs::convert::FromSpecImpl<u8> for Opcode {
    open spec fn obeys_from_spec() -> bool {
        true
    }

    open spec fn from_spec(v: u8) -> Opcode {
        opcode_of_byte(v)
    }
}

/// The opcode with the mnemonic `name`, which is spelled in lower case; any
/// other text gives `IGL`.
pub open spec fn opcode_of_mnemonic(name: Seq<char>) -> Opcode {
    if name == "aloc"@ {
        Opcode::ALOC
    } else if name == "nop"@ {
        Opcode::NOP
    } else if name == "lt"@ {
        Opcode::LT
    } else if name == "gt"@ {
        Opcode::GT
    } else if name == "lte"@ {
        Opcode::LTE
    } else if name == "gte"@ {
        Opcode::GTE
    } else if name == "neq"@ {
        Opcode::NEQ
    } else if name == "jne"@ {
        Opcode::JNE
    } else if name == "jeq"@ {
        Opcode::JEQ
    } else if name == "eq"@ {
        Opcode::EQ
    } else if name == "jmpb"@ {
        Opcode::JMPB
    } else if name == "jmpf"@ {
        Opcode::JMPF
    } else if name == "jmp"@ {
        Opcode::JMP
    } else if name == "hlt"@ {
        Opcode::HLT
    } else if name == "div"@ {
        Opcode::DIV
    } else if name == "mul"@ {
        Opcode::MUL
    } else if name == "sub"@ {
        Opcode::SUB
    } else if name == "add"@ {
        Opcode::ADD
    } else if name == "load"@ {
        Opcode::LOAD
    } else {
        Opcode::IGL
    }
}

/// The text that `str::to_lowercase` makes of `text`: each character is
/// replaced by its lower-case form as Unicode defines it.
pub uninterp spec fn lowercase(text: Seq<char>) -> Seq<char>;

/// `str::to_lowercase` gives the lower-case form of the text, which depends
/// on the text alone.
pub assume_specification[ str::to_lowercase ](text: &str) -> (lower: String)
    ensures
        lower@ == lowercase(text@),
;

impl Opcode {
    /// The opcode with the mnemonic `name`, which must be spelled in lower
    /// case; any other text gives `IGL`.
    pub fn from_mnemonic(name: &str) -> (op: Opcode)
        ensures
            op == opcode_of_mnemonic(name@),
    {
        if str_eq(name, "aloc") {
            Opcode::ALOC
        } else if str_eq(name, "nop") {
            Opcode::NOP
        } else if str_eq(name, "lt") {
            Opcode::LT
        } else if str_eq(name, "gt") {
            Opcode::GT
        } else if str_eq(name, "lte") {
            Opcode::LTE
        } else if str_eq(name, "gte") {
            Opcode::GTE
        } else if str_eq(name, "neq") {
            Opcode::NEQ
        } else if str_eq(name, "jne") {
            Opcode::JNE
        } else if str_eq(name, "jeq") {
            Opcode::JEQ
        } else if str_eq(name, "eq") {
            Opcode::EQ
        } else if str_eq(name, "jmpb") {
            Opcode::JMPB
        } else if str_eq(name, "jmpf") {
            Opcode::JMPF
        } else if str_eq(name, "jmp") {
            Opcode::JMP
        } else if str_eq(name, "hlt") {
            Opcode::HLT
        } else if str_eq(name, "div") {
            Opcode::DIV
        } else if str_eq(name, "mul") {
            Opcode::MUL
        } else if str_eq(name, "sub") {
            Opcode::SUB
        } else if str_eq(name, "add") {
            Opcode::ADD
        } else if str_eq(name, "load") {
            Opcode::LOAD
        } else {
            Opcode::IGL
        }
    }
}

impl<'a> From<&'a str> for Opcode {
    /// The opcode with the mnemonic `str`, in whatever case it is spelled.
    fn from(str: &'a str) -> (op: Opcode) {
        let lower = str.to_lowercase();
        Opcode::from_mnemonic(lower.as_str())
    }
}

impl<'a> vstd::std_specs::convert::FromSpecImpl<&'a str> for Opcode {
    open spec fn obeys_from_spec() -> bool {
        true
    }

    open spec fn from_spec(name: &'a str) -> Opcode {
        opcode_of_mnemonic(lowercase(name@))
    }
}

/// One instruction.
#[derive(Debug, PartialEq, Eq, Clone, Copy, Structural)]
pub struct Instruction {
    pub opcode: Opcode,
}

impl Instruction {
    pub fn new(opcode: Opcode) -> (instruction: Instruction)
        ensures
            instruction.opcode == opcode,
    {
        Instruction { opcode }
    }
}

} // verus!

//! The decoder: one 32-bit word read as one of the fourteen operations.
//!
//! The operation number sits in the top four bits. Operations 0 to 12 name
//! three registers in the lowest nine bits; operation 13 names one register
//! just below the operation number and carries a 25-bit value.

use crate::fault::Fault;
use vstd::prelude::*;

verus! {

/// A decoded operation with the registers it names.
///
/// Each variant carries only the operands its operation reads or writes.
#[derive(Clone, Copy, Debug, PartialEq, Eq, Structural)]
pub enum Instruction {
    /// Register `a` receives register `b` unless register `c` holds 0.
    ConditionalMove { a: u32, b: u32, c: u32 },
    /// Register `a` receives the word at offset `c` of the segment named by `b`.
    ArrayIndex { a: u32, b: u32, c: u32 },
    /// The segment named by `a` receives register `c` at offset `b`.
    ArrayAmendment { a: u32, b: u32, c: u32 },
    /// Register `a` receives `b + c` modulo 2^32.
    Addition { a: u32, b: u32, c: u32 },
    /// Register `a` receives `b * c` modulo 2^32.
    Multiplication { a: u32, b: u32, c: u32 },
    /// Register `a` receives the unsigned quotient `b / c`.
    Division { a: u32, b: u32, c: u32 },
    /// Register `a` receives the bitwise complement of `b & c`.
    NotAnd { a: u32, b: u32, c: u32 },
    /// The machine stops.
    Halt,
    /// A zero-filled segment of as many words as register `c` says is
    /// created; register `b` receives its handle.
    Allocation { b: u32, c: u32 },
    /// The segment named by register `c` is given up.
    Abandonment { c: u32 },
    /// The byte in register `c` goes to the console.
    Output { c: u32 },
    /// Register `c` receives the next byte of input.
    Input { c: u32 },
    /// The segment named by register `b` becomes the program; execution
    /// continues at the offset in register `c`.
    LoadProgram { b: u32, c: u32 },
    /// Register `a` receives `value`.
    Orthography { a: u32, value: u32 },
}

/// Bits 31 to 28 of a word: the operation number.
pub open spec fn opcode_of(word: u32) -> int {
    word as int / 0x1000_0000
}

/// Bits 8 to 6 of a word: register A of the three-register layout.
pub open spec fn operand_a(word: u32) -> u32 {
    ((word as int / 64) % 8) as u32
}

/// Bits 5 to 3 of a word: register B of the three-register layout.
pub open spec fn operand_b(word: u32) -> u32 {
    ((word as int / 8) % 8) as u32
}

/// Bits 2 to 0 of a word: register C of the three-register layout.
pub open spec fn operand_c(word: u32) -> u32 {
    (word as int % 8) as u32
}

/// Bits 27 to 25 of a word: the register of the immediate layout.
pub open spec fn immediate_register(word: u32) -> u32 {
    ((word as int / 0x200_0000) % 8) as u32
}

/// Bits 24 to 0 of a word: the value of the immediate layout.
pub open spec fn immediate_value(word: u32) -> u32 {
    (word as int % 0x200_0000) as u32
}

/// The operation a word stands for, or `None` where its operation number is above 13.
pub open spec fn decode_spec(word: u32) -> Option<Instruction> {
    let a = operand_a(word);
    let b = operand_b(word);
    let c = operand_c(word);
    let op = opcode_of(word);
    if op == 0 {
        Some(Instruction::ConditionalMove { a, b, c })
    } else if op == 1 {
        Some(Instruction::ArrayIndex { a, b, c })
    } else if op == 2 {
        Some(Instruction::ArrayAmendment { a, b, c })
    } else if op == 3 {
        Some(Instruction::Addition { a, b, c })
    } else if op == 4 {
        Some(Instruction::Multiplication { a, b, c })
    } else if op == 5 {
        Some(Instruction::Division { a, b, c })
    } else if op == 6 {
        Some(Instruction::NotAnd { a, b, c })
    } else if op == 7 {
        Some(Instruction::Halt)
    } else if op == 8 {
        Some(Instruction::Allocation { b, c })
    } else if op == 9 {
        Some(Instruction::Abandonment { c })
    } else if op == 10 {
        Some(Instruction::Output { c })
    } else if op == 11 {
        Some(Instruction::Input { c })
    } else if op == 12 {
        Some(Instruction::LoadProgram { b, c })
    } else if op == 13 {
        Some(
            Instruction::Orthography {
                a: immediate_register(word),
                value: immediate_value(word),
            },
        )
    } else {
        None
    }
}

impl Instruction {
    /// Every register index is below 8 and an immediate value fits in 25 bits.
    pub open spec fn well_formed(self) -> bool {
        match self {
            Instruction::ConditionalMove { a, b, c }
            | Instruction::ArrayIndex { a, b, c }
            | Instruction::ArrayAmendment { a, b, c }
            | Instruction::Addition { a, b, c }
            | Instruction::Multiplication { a, b, c }
            | Instruction::Division { a, b, c }
            | Instruction::NotAnd { a, b, c } => a < 8 && b < 8 && c < 8,
            Instruction::Halt => true,
            Instruction::Allocation { b, c } | Instruction::LoadProgram { b, c } => b < 8 && c < 8,
            Instruction::Abandonment { c }
            | Instruction::Output { c }
            | Instruction::Input { c } => c < 8,
            Instruction::Orthography { a, value } => a < 8 && value < 0x200_0000,
        }
    }
}

/// Whatever a word decodes to names only registers 0 to 7.
pub proof fn lemma_decoded_is_well_formed(word: u32)
    ensures
        decode_spec(word) matches Some(ins) ==> ins.well_formed(),
{
}

proof fn lemma_fields_by_bits(word: u32)
    ensures
        word >> 28 == opcode_of(word),
        (word >> 6) & 7 == operand_a(word),
        (word >> 3) & 7 == operand_b(word),
        word & 7 == operand_c(word),
        (word >> 25) & 7 == immediate_register(word),
        word & 0x1FF_FFFF == immediate_value(word),
{
    assert(word >> 28 == word / 0x1000_0000) by (bit_vector);
    assert((word >> 6) & 7 == (word / 64) % 8) by (bit_vector);
    assert((word >> 3) & 7 == (word / 8) % 8) by (bit_vector);
    assert(word & 7 == word % 8) by (bit_vector);
    assert((word >> 25) & 7 == (word / 0x200_0000) % 8) by (bit_vector);
    assert(word & 0x1FF_FFFF == word % 0x200_0000) by (bit_vector);
}

/// Decodes one instruction word.
///
/// Fails with `UnknownOpcode` exactly when the operation number is above 13.
pub fn decode(word: u32) -> (r: Result<Instruction, Fault>)
    ensures
        r == match decode_spec(word) {
            Some(ins) => Ok(ins),
            None => Err(Fault::UnknownOpcode),
        },
        r matches Ok(ins) ==> ins.well_formed(),
{
    proof {
        lemma_fields_by_bits(word);
    }
    let op: u32 = word >> 28;
    let a: u32 = (word >> 6) & 7;
    let b: u32 = (word >> 3) & 7;
    let c: u32 = word & 7;
    match op {
        0 => Ok(Instruction::ConditionalMove { a, b, c }),
        1 => Ok(Instruction::ArrayIndex { a, b, c }),
        2 => Ok(Instruction::ArrayAmendment { a, b, c }),
        3 => Ok(Instruction::Addition { a, b, c }),
        4 => Ok(Instruction::Multiplication { a, b, c }),
        5 => Ok(Instruction::Division { a, b, c }),
        6 => Ok(Instruction::NotAnd { a, b, c }),
        7 => Ok(Instruction::Halt),
        8 => Ok(Instruction::Allocation { b, c }),
        9 => Ok(Instruction::Abandonment { c }),
        10 => Ok(Instruction::Output { c }),
        11 => Ok(Instruction::Input { c }),
        12 => Ok(Instruction::LoadProgram { b, c }),
        13 => Ok(Instruction::Orthography { a: (word >> 25) & 7, value: word & 0x1FF_FFFF }),
        _ => Err(Fault::UnknownOpcode),
    }
}

} // verus!

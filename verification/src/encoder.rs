//! The batch encoder: per-format encoding functions returning located
//! errors, the instruction-level dispatcher, and whole-program encoding
//! that stops at the first failure.

use vstd::prelude::*;

use crate::bits::{fits_in_bits, set_bits, spec_fits_in_bits, spec_set_bits};
use crate::codec::{fields_in_range, resolved_matches_format, spec_encode, spec_opcode_word};
use crate::isa::{format_of, InstrFormat, Instruction, Opcode, Operand};

verus! {

#[derive(Debug, Clone, Copy, PartialEq, Eq, Structural)]
pub enum EncodeError {
    InvalidOperandCount { opcode: Opcode, expected: usize, found: usize },
    RegisterOutOfRange(u8),
    ImmediateOutOfRange { bits: u8, value: usize },
}

/// The word an R3 instruction encodes to.
pub open spec fn spec_word_r3(op: Opcode, a: u32, b: u32, d: u32) -> u32 {
    spec_set_bits(spec_set_bits(spec_set_bits(spec_opcode_word(op), 26, 22, a), 21, 17, b), 16, 12, d)
}

/// The word an R2 instruction encodes to.
pub open spec fn spec_word_r2(op: Opcode, a: u32, b: u32) -> u32 {
    spec_set_bits(spec_set_bits(spec_opcode_word(op), 26, 22, a), 21, 17, b)
}

/// The word an RI instruction encodes to.
pub open spec fn spec_word_ri(op: Opcode, a: u32, m: u32) -> u32 {
    spec_set_bits(spec_set_bits(spec_opcode_word(op), 26, 22, a), 21, 0, m)
}

/// The word an RRI instruction encodes to.
pub open spec fn spec_word_rri(op: Opcode, a: u32, b: u32, m: u32) -> u32 {
    spec_set_bits(spec_set_bits(spec_set_bits(spec_opcode_word(op), 26, 22, a), 21, 17, b), 16, 0, m)
}

/// The word an RII instruction encodes to.
pub open spec fn spec_word_rii(op: Opcode, a: u32, m1: u32, m2: u32) -> u32 {
    spec_set_bits(spec_set_bits(spec_set_bits(spec_opcode_word(op), 26, 22, a), 21, 11, m1), 10, 0, m2)
}

/// The word an I instruction encodes to.
pub open spec fn spec_word_i(op: Opcode, m: u32) -> u32 {
    spec_set_bits(spec_opcode_word(op), 26, 0, m)
}

/// What `encode_r3` returns: the checks in the order the encoder makes
/// them, then the packed word.
pub open spec fn spec_encode_r3(op: Opcode, ops: Seq<Operand>) -> Result<u32, EncodeError> {
    if ops.len() != 3 || !(ops[0] is Register && ops[1] is Register && ops[2] is Register) {
        Err(
            EncodeError::InvalidOperandCount {
                opcode: op,
                expected: 3,
                found: ops.len() as usize,
            },
        )
    } else if ops[0]->Register_0 >= 32 {
        Err(EncodeError::RegisterOutOfRange(ops[0]->Register_0))
    } else if ops[1]->Register_0 >= 32 {
        Err(EncodeError::RegisterOutOfRange(ops[1]->Register_0))
    } else if ops[2]->Register_0 >= 32 {
        Err(EncodeError::RegisterOutOfRange(ops[2]->Register_0))
    } else {
        Ok(
            spec_word_r3(
                op,
                ops[0]->Register_0 as u32,
                ops[1]->Register_0 as u32,
                ops[2]->Register_0 as u32,
            ),
        )
    }
}

/// What `encode_r2` returns.
pub open spec fn spec_encode_r2(op: Opcode, ops: Seq<Operand>) -> Result<u32, EncodeError> {
    if ops.len() != 2 || !(ops[0] is Register && ops[1] is Register) {
        Err(
            EncodeError::InvalidOperandCount {
                opcode: op,
                expected: 2,
                found: ops.len() as usize,
            },
        )
    } else if ops[0]->Register_0 >= 32 {
        Err(EncodeError::RegisterOutOfRange(ops[0]->Register_0))
    } else if ops[1]->Register_0 >= 32 {
        Err(EncodeError::RegisterOutOfRange(ops[1]->Register_0))
    } else {
        Ok(spec_word_r2(op, ops[0]->Register_0 as u32, ops[1]->Register_0 as u32))
    }
}

/// What `encode_ri` returns.
pub open spec fn spec_encode_ri(op: Opcode, ops: Seq<Operand>) -> Result<u32, EncodeError> {
    if ops.len() != 2 || !(ops[0] is Register && ops[1] is Immediate) {
        Err(
            EncodeError::InvalidOperandCount {
                opcode: op,
                expected: 2,
                found: ops.len() as usize,
            },
        )
    } else if ops[0]->Register_0 >= 32 {
        Err(EncodeError::RegisterOutOfRange(ops[0]->Register_0))
    } else if !spec_fits_in_bits(ops[1]->Immediate_0, 22) {
        Err(EncodeError::ImmediateOutOfRange { bits: 22, value: ops[1]->Immediate_0 })
    } else {
        Ok(spec_word_ri(op, ops[0]->Register_0 as u32, ops[1]->Immediate_0 as u32))
    }
}

/// What `encode_rri` returns.
pub open spec fn spec_encode_rri(op: Opcode, ops: Seq<Operand>) -> Result<u32, EncodeError> {
    if ops.len() != 3 || !(ops[0] is Register && ops[1] is Register && ops[2] is Immediate) {
        Err(
            EncodeError::InvalidOperandCount {
                opcode: op,
                expected: 3,
                found: ops.len() as usize,
            },
        )
    } else if ops[0]->Register_0 >= 32 {
        Err(EncodeError::RegisterOutOfRange(ops[0]->Register_0))
    } else if ops[1]->Register_0 >= 32 {
        Err(EncodeError::RegisterOutOfRange(ops[1]->Register_0))
    } else if !spec_fits_in_bits(ops[2]->Immediate_0, 17) {
        Err(EncodeError::ImmediateOutOfRange { bits: 17, value: ops[2]->Immediate_0 })
    } else {
        Ok(
            spec_word_rri(
                op,
                ops[0]->Register_0 as u32,
                ops[1]->Register_0 as u32,
                ops[2]->Immediate_0 as u32,
            ),
        )
    }
}

/// What `encode_rii` returns.
pub open spec fn spec_encode_rii(op: Opcode, ops: Seq<Operand>) -> Result<u32, EncodeError> {
    if ops.len() != 3 || !(ops[0] is Register && ops[1] is Immediate && ops[2] is Immediate) {
        Err(
            EncodeError::InvalidOperandCount {
                opcode: op,
                expected: 3,
                found: ops.len() as usize,
            },
        )
    } else if ops[0]->Register_0 >= 32 {
        Err(EncodeError::RegisterOutOfRange(ops[0]->Register_0))
    } else if !spec_fits_in_bits(ops[1]->Immediate_0, 11) {
        Err(EncodeError::ImmediateOutOfRange { bits: 11, value: ops[1]->Immediate_0 })
    } else if !spec_fits_in_bits(ops[2]->Immediate_0, 11) {
        Err(EncodeError::ImmediateOutOfRange { bits: 11, value: ops[2]->Immediate_0 })
    } else {
        Ok(
            spec_word_rii(
                op,
                ops[0]->Register_0 as u32,
                ops[1]->Immediate_0 as u32,
                ops[2]->Immediate_0 as u32,
            ),
        )
    }
}

/// What `encode_i` returns. An absent immediate defaults to zero; a
/// leading register operand is rejected; operands past the first are
/// ignored.
pub open spec fn spec_encode_i(op: Opcode, ops: Seq<Operand>) -> Result<u32, EncodeError> {
    if ops.len() > 0 && ops[0] is Register {
        Err(
            EncodeError::InvalidOperandCount {
                opcode: op,
                expected: 1,
                found: ops.len() as usize,
            },
        )
    } else {
        let m = if ops.len() == 0 {
            0usize
        } else {
            ops[0]->Immediate_0
        };
        if !spec_fits_in_bits(m, 27) {
            Err(EncodeError::ImmediateOutOfRange { bits: 27, value: m })
        } else {
            Ok(spec_word_i(op, m as u32))
        }
    }
}

/// What `encode_instruction` returns: dispatch on the opcode's format.
pub open spec fn spec_encode_instruction(i: &Instruction) -> Result<u32, EncodeError> {
    match format_of(i.opcode) {
        InstrFormat::R3 => spec_encode_r3(i.opcode, i.operands@),
        InstrFormat::R2 => spec_encode_r2(i.opcode, i.operands@),
        InstrFormat::RI => spec_encode_ri(i.opcode, i.operands@),
        InstrFormat::RRI => spec_encode_rri(i.opcode, i.operands@),
        InstrFormat::RII => spec_encode_rii(i.opcode, i.operands@),
        InstrFormat::I => spec_encode_i(i.opcode, i.operands@),
        InstrFormat::NoOP => Ok(spec_opcode_word(i.opcode)),
    }
}

fn encode_r3(op: Opcode, regs: &Vec<Operand>) -> (r: Result<u32, EncodeError>)
    requires
        format_of(op) == InstrFormat::R3,
    ensures
        r == spec_encode_r3(op, regs@),
{
    if regs.len() != 3 {
        return Err(
            EncodeError::InvalidOperandCount { opcode: op, expected: 3, found: regs.len() },
        );
    }
    match (regs[0], regs[1], regs[2]) {
        (Operand::Register(r1), Operand::Register(r2), Operand::Register(r3)) => {
            if r1 >= 32 {
                return Err(EncodeError::RegisterOutOfRange(r1));
            }
            if r2 >= 32 {
                return Err(EncodeError::RegisterOutOfRange(r2));
            }
            if r3 >= 32 {
                return Err(EncodeError::RegisterOutOfRange(r3));
            }
            let mut word: u32 = 0;
            set_bits(&mut word, 31, 27, op.code() as u32);
            set_bits(&mut word, 26, 22, r1 as u32);
            set_bits(&mut word, 21, 17, r2 as u32);
            set_bits(&mut word, 16, 12, r3 as u32);
            Ok(word)
        },
        _ => Err(EncodeError::InvalidOperandCount { opcode: op, expected: 3, found: regs.len() }),
    }
}

fn encode_r2(op: Opcode, regs: &Vec<Operand>) -> (r: Result<u32, EncodeError>)
    requires
        format_of(op) == InstrFormat::R2,
    ensures
        r == spec_encode_r2(op, regs@),
{
    if regs.len() != 2 {
        return Err(
            EncodeError::InvalidOperandCount { opcode: op, expected: 2, found: regs.len() },
        );
    }
    match (regs[0], regs[1]) {
        (Operand::Register(r1), Operand::Register(r2)) => {
            if r1 >= 32 {
                return Err(EncodeError::RegisterOutOfRange(r1));
            }
            if r2 >= 32 {
                return Err(EncodeError::RegisterOutOfRange(r2));
            }
            let mut word: u32 = 0;
            set_bits(&mut word, 31, 27, op.code() as u32);
            set_bits(&mut word, 26, 22, r1 as u32);
            set_bits(&mut word, 21, 17, r2 as u32);
            Ok(word)
        },
        _ => Err(EncodeError::InvalidOperandCount { opcode: op, expected: 2, found: regs.len() }),
    }
}

fn encode_ri(op: Opcode, ops: &Vec<Operand>) -> (r: Result<u32, EncodeError>)
    requires
        format_of(op) == InstrFormat::RI,
    ensures
        r == spec_encode_ri(op, ops@),
{
    if ops.len() != 2 {
        return Err(EncodeError::InvalidOperandCount { opcode: op, expected: 2, found: ops.len() });
    }
    match (ops[0], ops[1]) {
        (Operand::Register(r1), Operand::Immediate(imm)) => {
            if r1 >= 32 {
                return Err(EncodeError::RegisterOutOfRange(r1));
            }
            if !fits_in_bits(imm, 22) {
                return Err(EncodeError::ImmediateOutOfRange { bits: 22, value: imm });
            }
            let mut word: u32 = 0;
            set_bits(&mut word, 31, 27, op.code() as u32);
            set_bits(&mut word, 26, 22, r1 as u32);
            set_bits(&mut word, 21, 0, imm as u32);
            Ok(word)
        },
        _ => Err(EncodeError::InvalidOperandCount { opcode: op, expected: 2, found: ops.len() }),
    }
}

fn encode_rri(op: Opcode, ops: &Vec<Operand>) -> (r: Result<u32, EncodeError>)
    requires
        format_of(op) == InstrFormat::RRI,
    ensures
        r == spec_encode_rri(op, ops@),
{
    if ops.len() != 3 {
        return Err(EncodeError::InvalidOperandCount { opcode: op, expected: 3, found: ops.len() });
    }
    match (ops[0], ops[1], ops[2]) {
        (Operand::Register(r1), Operand::Register(r2), Operand::Immediate(imm)) => {
            if r1 >= 32 {
                return Err(EncodeError::RegisterOutOfRange(r1));
            }
            if r2 >= 32 {
                return Err(EncodeError::RegisterOutOfRange(r2));
            }
            if !fits_in_bits(imm, 17) {
                return Err(EncodeError::ImmediateOutOfRange { bits: 17, value: imm });
            }
            let mut word: u32 = 0;
            set_bits(&mut word, 31, 27, op.code() as u32);
            set_bits(&mut word, 26, 22, r1 as u32);
            set_bits(&mut word, 21, 17, r2 as u32);
            set_bits(&mut word, 16, 0, imm as u32);
            Ok(word)
        },
        _ => Err(EncodeError::InvalidOperandCount { opcode: op, expected: 3, found: ops.len() }),
    }
}

fn encode_rii(op: Opcode, ops: &Vec<Operand>) -> (r: Result<u32, EncodeError>)
    requires
        format_of(op) == InstrFormat::RII,
    ensures
        r == spec_encode_rii(op, ops@),
{
    if ops.len() != 3 {
        return Err(EncodeError::InvalidOperandCount { opcode: op, expected: 3, found: ops.len() });
    }
    match (ops[0], ops[1], ops[2]) {
        (Operand::Register(r1), Operand::Immediate(imm1), Operand::Immediate(imm2)) => {
            if r1 >= 32 {
                return Err(EncodeError::RegisterOutOfRange(r1));
            }
            if !fits_in_bits(imm1, 11) {
                return Err(EncodeError::ImmediateOutOfRange { bits: 11, value: imm1 });
            }
            if !fits_in_bits(imm2, 11) {
                return Err(EncodeError::ImmediateOutOfRange { bits: 11, value: imm2 });
            }
            let mut word: u32 = 0;
            set_bits(&mut word, 31, 27, op.code() as u32);
            set_bits(&mut word, 26, 22, r1 as u32);
            set_bits(&mut word, 21, 11, imm1 as u32);
            set_bits(&mut word, 10, 0, imm2 as u32);
            Ok(word)
        },
        _ => Err(EncodeError::InvalidOperandCount { opcode: op, expected: 3, found: ops.len() }),
    }
}

fn encode_i(op: Opcode, ops: &Vec<Operand>) -> (r: Result<u32, EncodeError>)
    requires
        format_of(op) == InstrFormat::I,
    ensures
        r == spec_encode_i(op, ops@),
{
    let imm: usize = if ops.len() == 0 {
        0
    } else {
        match ops[0] {
            Operand::Immediate(v) => v,
            Operand::Register(_) => {
                return Err(
                    EncodeError::InvalidOperandCount { opcode: op, expected: 1, found: ops.len() },
                );
            },
        }
    };
    if !fits_in_bits(imm, 27) {
        return Err(EncodeError::ImmediateOutOfRange { bits: 27, value: imm });
    }
    let mut word: u32 = 0;
    set_bits(&mut word, 31, 27, op.code() as u32);
    set_bits(&mut word, 26, 0, imm as u32);
    Ok(word)
}

fn encode_noop_like(op: Opcode) -> (r: u32)
    ensures
        r == spec_opcode_word(op),
{
    let mut word: u32 = 0;
    set_bits(&mut word, 31, 27, op.code() as u32);
    word
}

/// Encode one instruction, dispatching on its opcode's format. A
/// well-formed instruction (operands matching the pattern, fields in
/// range) always encodes, to exactly the word of the codec's model.
pub fn encode_instruction(instr: &Instruction) -> (r: Result<u32, EncodeError>)
    ensures
        r == spec_encode_instruction(instr),
        resolved_matches_format(instr) && fields_in_range(instr) ==> r == Ok::<u32, EncodeError>(
            spec_encode(instr),
        ),
{
    match instr.opcode.instruction_format() {
        InstrFormat::R3 => encode_r3(instr.opcode, &instr.operands),
        InstrFormat::R2 => encode_r2(instr.opcode, &instr.operands),
        InstrFormat::RI => encode_ri(instr.opcode, &instr.operands),
        InstrFormat::RRI => encode_rri(instr.opcode, &instr.operands),
        InstrFormat::RII => encode_rii(instr.opcode, &instr.operands),
        InstrFormat::I => encode_i(instr.opcode, &instr.operands),
        InstrFormat::NoOP => Ok(encode_noop_like(instr.opcode)),
    }
}

/// Encode a whole program in order, stopping at the first instruction
/// that fails and returning its error.
pub fn encode_program(program: &Vec<Instruction>) -> (r: Result<Vec<u32>, EncodeError>)
    ensures
        r matches Ok(words) ==> words@.len() == program@.len() && forall|k: int|
            0 <= k < program@.len() ==> spec_encode_instruction(&program@[k]) == Ok::<
                u32,
                EncodeError,
            >(words@[k]),
        r matches Err(e) ==> exists|k: int|
            0 <= k < program@.len() && #[trigger] spec_encode_instruction(&program@[k]) == Err::<
                u32,
                EncodeError,
            >(e) && forall|j: int| 0 <= j < k ==> spec_encode_instruction(&program@[j]) is Ok,
{
    let mut words: Vec<u32> = Vec::new();
    let mut k: usize = 0;
    while k < program.len()
        invariant
            0 <= k <= program@.len(),
            words@.len() == k,
            forall|j: int|
                0 <= j < k ==> spec_encode_instruction(&program@[j]) == Ok::<u32, EncodeError>(
                    words@[j],
                ),
        decreases program@.len() - k,
    {
        match encode_instruction(&program[k]) {
            Ok(w) => {
                words.push(w);
            },
            Err(e) => {
                return Err(e);
            },
        }
        k = k + 1;
    }
    Ok(words)
}

} // verus!

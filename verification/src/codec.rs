//! The codec's mathematical model, the word-level decoder, and the
//! instruction-level encoder method.
//!
//! Every format places its opcode's 5-bit machine code into bits [31:27]
//! and its operands into fixed, pairwise disjoint bit ranges below it,
//! most-significant operand first. Decoding extracts exactly the same
//! ranges, so encoding then decoding a well-formed instruction is the
//! identity; that law is proved at the bottom of this file.

use vstd::prelude::*;

use crate::bits::{fits_in_bits, get_bits, set_bits, spec_fits_in_bits, spec_get_bits, spec_set_bits};
use crate::isa::{
    code_of, format_of, spec_opcode_from_code, InstrFormat, Opcode, Operand, ResolvedInstruction,
};

verus! {

/// The raw field value an operand contributes to the word.
pub open spec fn operand_u32(op: Operand) -> u32 {
    match op {
        Operand::Register(r) => r as u32,
        Operand::Immediate(v) => v as u32,
    }
}

/// Whether an operand sequence has exactly the arity and kinds the
/// format's bit layout assigns.
pub open spec fn resolved_matches_format(i: &ResolvedInstruction) -> bool {
    let ops = i.operands@;
    match format_of(i.opcode) {
        InstrFormat::R3 => ops.len() == 3 && ops[0] is Register && ops[1] is Register
            && ops[2] is Register,
        InstrFormat::R2 => ops.len() == 2 && ops[0] is Register && ops[1] is Register,
        InstrFormat::RI => ops.len() == 2 && ops[0] is Register && ops[1] is Immediate,
        InstrFormat::RRI => ops.len() == 3 && ops[0] is Register && ops[1] is Register
            && ops[2] is Immediate,
        InstrFormat::RII => ops.len() == 3 && ops[0] is Register && ops[1] is Immediate
            && ops[2] is Immediate,
        InstrFormat::I => ops.len() == 1 && ops[0] is Immediate,
        InstrFormat::NoOP => ops.len() == 0,
    }
}

/// Whether every register is below `REGISTER_LIMIT` and every immediate
/// fits the bit width its field position assigns.
pub open spec fn fields_in_range(i: &ResolvedInstruction) -> bool {
    let ops = i.operands@;
    match format_of(i.opcode) {
        InstrFormat::R3 => operand_u32(ops[0]) < 32 && operand_u32(ops[1]) < 32 && operand_u32(
            ops[2],
        ) < 32,
        InstrFormat::R2 => operand_u32(ops[0]) < 32 && operand_u32(ops[1]) < 32,
        InstrFormat::RI => operand_u32(ops[0]) < 32 && spec_fits_in_bits(ops[1]->Immediate_0, 22),
        InstrFormat::RRI => operand_u32(ops[0]) < 32 && operand_u32(ops[1]) < 32
            && spec_fits_in_bits(ops[2]->Immediate_0, 17),
        InstrFormat::RII => operand_u32(ops[0]) < 32 && spec_fits_in_bits(ops[1]->Immediate_0, 11)
            && spec_fits_in_bits(ops[2]->Immediate_0, 11),
        InstrFormat::I => spec_fits_in_bits(ops[0]->Immediate_0, 27),
        InstrFormat::NoOP => true,
    }
}

/// A word with only the opcode placed: the 5-bit machine code in bits
/// [31:27], everything else zero.
pub open spec fn spec_opcode_word(op: Opcode) -> u32 {
    spec_set_bits(0, 31, 27, code_of(op) as u32)
}

/// The 32-bit word a well-formed instruction encodes to, built exactly as
/// the encoder builds it: each field OR-ed into its range over the opcode
/// word.
pub open spec fn spec_encode(i: &ResolvedInstruction) -> u32
    recommends
        resolved_matches_format(i),
        fields_in_range(i),
{
    let ops = i.operands@;
    let w = spec_opcode_word(i.opcode);
    match format_of(i.opcode) {
        InstrFormat::R3 => spec_set_bits(
            spec_set_bits(spec_set_bits(w, 26, 22, operand_u32(ops[0])), 21, 17, operand_u32(ops[1])),
            16,
            12,
            operand_u32(ops[2]),
        ),
        InstrFormat::R2 => spec_set_bits(
            spec_set_bits(w, 26, 22, operand_u32(ops[0])),
            21,
            17,
            operand_u32(ops[1]),
        ),
        InstrFormat::RI => spec_set_bits(
            spec_set_bits(w, 26, 22, operand_u32(ops[0])),
            21,
            0,
            operand_u32(ops[1]),
        ),
        InstrFormat::RRI => spec_set_bits(
            spec_set_bits(spec_set_bits(w, 26, 22, operand_u32(ops[0])), 21, 17, operand_u32(ops[1])),
            16,
            0,
            operand_u32(ops[2]),
        ),
        InstrFormat::RII => spec_set_bits(
            spec_set_bits(spec_set_bits(w, 26, 22, operand_u32(ops[0])), 21, 11, operand_u32(ops[1])),
            10,
            0,
            operand_u32(ops[2]),
        ),
        InstrFormat::I => spec_set_bits(w, 26, 0, operand_u32(ops[0])),
        InstrFormat::NoOP => w,
    }
}

/// The operand sequence the decoder reads out of a word for a given
/// opcode: the same bit ranges the encoder writes, in the same order.
pub open spec fn spec_decoded_operands(op: Opcode, word: u32) -> Seq<Operand> {
    match format_of(op) {
        InstrFormat::R3 => seq![
            Operand::Register(spec_get_bits(word, 26, 22) as u8),
            Operand::Register(spec_get_bits(word, 21, 17) as u8),
            Operand::Register(spec_get_bits(word, 16, 12) as u8),
        ],
        InstrFormat::R2 => seq![
            Operand::Register(spec_get_bits(word, 26, 22) as u8),
            Operand::Register(spec_get_bits(word, 21, 17) as u8),
        ],
        InstrFormat::RI => seq![
            Operand::Register(spec_get_bits(word, 26, 22) as u8),
            Operand::Immediate(spec_get_bits(word, 21, 0) as usize),
        ],
        InstrFormat::RRI => seq![
            Operand::Register(spec_get_bits(word, 26, 22) as u8),
            Operand::Register(spec_get_bits(word, 21, 17) as u8),
            Operand::Immediate(spec_get_bits(word, 16, 0) as usize),
        ],
        InstrFormat::RII => seq![
            Operand::Register(spec_get_bits(word, 26, 22) as u8),
            Operand::Immediate(spec_get_bits(word, 21, 11) as usize),
            Operand::Immediate(spec_get_bits(word, 10, 0) as usize),
        ],
        InstrFormat::I => seq![Operand::Immediate(spec_get_bits(word, 26, 0) as usize)],
        InstrFormat::NoOP => seq![],
    }
}

impl ResolvedInstruction {
    /// Decode a 32-bit word: extract the machine code from bits [31:27],
    /// look the opcode up, and read the format's bit ranges back out.
    /// Fails exactly when no opcode carries the extracted code.
    pub fn decode(word: u32) -> (r: Option<ResolvedInstruction>)
        ensures
            match spec_opcode_from_code(spec_get_bits(word, 31, 27) as u8) {
                Some(op) => r matches Some(ri) && ri.opcode == op && ri.operands@
                    == spec_decoded_operands(op, word),
                None => r is None,
            },
    {
        let opcode_bits = get_bits(word, 31, 27) as u8;
        let opcode = match Opcode::from_code(opcode_bits) {
            Some(op) => op,
            None => {
                return None;
            },
        };
        let mut operands: Vec<Operand> = Vec::new();
        match opcode.instruction_format() {
            InstrFormat::R3 => {
                operands.push(Operand::Register(get_bits(word, 26, 22) as u8));
                operands.push(Operand::Register(get_bits(word, 21, 17) as u8));
                operands.push(Operand::Register(get_bits(word, 16, 12) as u8));
            },
            InstrFormat::R2 => {
                operands.push(Operand::Register(get_bits(word, 26, 22) as u8));
                operands.push(Operand::Register(get_bits(word, 21, 17) as u8));
            },
            InstrFormat::RI => {
                operands.push(Operand::Register(get_bits(word, 26, 22) as u8));
                operands.push(Operand::Immediate(get_bits(word, 21, 0) as usize));
            },
            InstrFormat::RRI => {
                operands.push(Operand::Register(get_bits(word, 26, 22) as u8));
                operands.push(Operand::Register(get_bits(word, 21, 17) as u8));
                operands.push(Operand::Immediate(get_bits(word, 16, 0) as usize));
            },
            InstrFormat::RII => {
                operands.push(Operand::Register(get_bits(word, 26, 22) as u8));
                operands.push(Operand::Immediate(get_bits(word, 21, 11) as usize));
                operands.push(Operand::Immediate(get_bits(word, 10, 0) as usize));
            },
            InstrFormat::I => {
                operands.push(Operand::Immediate(get_bits(word, 26, 0) as usize));
            },
            InstrFormat::NoOP => {},
        }
        proof {
            assert(operands@ =~= spec_decoded_operands(opcode, word));
        }
        Some(ResolvedInstruction { opcode, operands })
    }

    /// Encode this instruction to a 32-bit word: the opcode's code into
    /// bits [31:27], then each operand into its format's field. Succeeds
    /// exactly when the operands have the format's arity and kinds and
    /// every field value fits its width; an opcode of the operand-less
    /// format encodes to its opcode word whatever operands it carries.
    pub fn encode(&self) -> (r: Option<u32>)
        ensures
            r is Some <==> (format_of(self.opcode) is NoOP || (resolved_matches_format(self)
                && fields_in_range(self))),
            r matches Some(w) ==> w == spec_encode(self),
    {
        let mut word: u32 = 0;
        set_bits(&mut word, 31, 27, self.opcode.code() as u32);
        match self.opcode.instruction_format() {
            InstrFormat::R3 => {
                if self.operands.len() != 3 {
                    return None;
                }
                match (self.operands[0], self.operands[1], self.operands[2]) {
                    (Operand::Register(r1), Operand::Register(r2), Operand::Register(r3)) => {
                        if r1 >= 32 || r2 >= 32 || r3 >= 32 {
                            return None;
                        }
                        set_bits(&mut word, 26, 22, r1 as u32);
                        set_bits(&mut word, 21, 17, r2 as u32);
                        set_bits(&mut word, 16, 12, r3 as u32);
                    },
                    _ => {
                        return None;
                    },
                }
            },
            InstrFormat::R2 => {
                if self.operands.len() != 2 {
                    return None;
                }
                match (self.operands[0], self.operands[1]) {
                    (Operand::Register(r1), Operand::Register(r2)) => {
                        if r1 >= 32 || r2 >= 32 {
                            return None;
                        }
                        set_bits(&mut word, 26, 22, r1 as u32);
                        set_bits(&mut word, 21, 17, r2 as u32);
                    },
                    _ => {
                        return None;
                    },
                }
            },
            InstrFormat::RI => {
                if self.operands.len() != 2 {
                    return None;
                }
                match (self.operands[0], self.operands[1]) {
                    (Operand::Register(r1), Operand::Immediate(imm)) => {
                        if r1 >= 32 || !fits_in_bits(imm, 22) {
                            return None;
                        }
                        set_bits(&mut word, 26, 22, r1 as u32);
                        set_bits(&mut word, 21, 0, imm as u32);
                    },
                    _ => {
                        return None;
                    },
                }
            },
            InstrFormat::RRI => {
                if self.operands.len() != 3 {
                    return None;
                }
                match (self.operands[0], self.operands[1], self.operands[2]) {
                    (Operand::Register(r1), Operand::Register(r2), Operand::Immediate(imm)) => {
                        if r1 >= 32 || r2 >= 32 || !fits_in_bits(imm, 17) {
                            return None;
                        }
                        set_bits(&mut word, 26, 22, r1 as u32);
                        set_bits(&mut word, 21, 17, r2 as u32);
                        set_bits(&mut word, 16, 0, imm as u32);
                    },
                    _ => {
                        return None;
                    },
                }
            },
            InstrFormat::RII => {
                if self.operands.len() != 3 {
                    return None;
                }
                match (self.operands[0], self.operands[1], self.operands[2]) {
                    (Operand::Register(r1), Operand::Immediate(imm1), Operand::Immediate(imm2)) => {
                        if r1 >= 32 || !fits_in_bits(imm1, 11) || !fits_in_bits(imm2, 11) {
                            return None;
                        }
                        set_bits(&mut word, 26, 22, r1 as u32);
                        set_bits(&mut word, 21, 11, imm1 as u32);
                        set_bits(&mut word, 10, 0, imm2 as u32);
                    },
                    _ => {
                        return None;
                    },
                }
            },
            InstrFormat::I => {
                if self.operands.len() != 1 {
                    return None;
                }
                match self.operands[0] {
                    Operand::Immediate(imm) => {
                        if !fits_in_bits(imm, 27) {
                            return None;
                        }
                        set_bits(&mut word, 26, 0, imm as u32);
                    },
                    _ => {
                        return None;
                    },
                }
            },
            InstrFormat::NoOP => {},
        }
        Some(word)
    }
}

/// Casting a register through the word and back is the identity.
proof fn lemma_u8_u32_roundtrip(x: u8)
    ensures
        (x as u32) as u8 == x,
        (x as u32) < 256,
{
    assert((x as u32) as u8 == x && (x as u32) < 256) by (bit_vector);
}

/// A bounded immediate survives the cast into the word and back.
proof fn lemma_usize_u32_roundtrip(x: usize, bound: u32)
    requires
        x <= bound as usize,
    ensures
        (x as u32) <= bound,
        (x as u32) as usize == x,
{
    assert((x as u32) <= bound && (x as u32) as usize == x) by (bit_vector)
        requires
            x <= bound as usize,
    ;
}

/// The field-width maxima written as shifts, folded to plain constants.
proof fn lemma_width_constants()
    ensures
        (1usize << 11) - 1 == 0x7ffusize,
        (1usize << 17) - 1 == 0x1ffffusize,
        (1usize << 22) - 1 == 0x3f_ffffusize,
        (1usize << 27) - 1 == 0x7ff_ffffusize,
{
    assert((1usize << 11) - 1 == 0x7ffusize && (1usize << 17) - 1 == 0x1ffffusize && (1usize << 22)
        - 1 == 0x3f_ffffusize && (1usize << 27) - 1 == 0x7ff_ffffusize) by (bit_vector);
}

proof fn lemma_rt_noop(c: u32)
    requires
        c < 32,
    ensures
        spec_get_bits(spec_set_bits(0, 31, 27, c), 31, 27) == c,
{
    assert(spec_get_bits(spec_set_bits(0, 31, 27, c), 31, 27) == c) by (bit_vector)
        requires
            c < 32,
    ;
}

proof fn lemma_rt_r3(c: u32, a: u32, b: u32, d: u32)
    requires
        c < 32,
        a < 32,
        b < 32,
        d < 32,
    ensures
        ({
            let w = spec_set_bits(
                spec_set_bits(spec_set_bits(spec_set_bits(0, 31, 27, c), 26, 22, a), 21, 17, b),
                16,
                12,
                d,
            );
            spec_get_bits(w, 31, 27) == c && spec_get_bits(w, 26, 22) == a && spec_get_bits(
                w,
                21,
                17,
            ) == b && spec_get_bits(w, 16, 12) == d
        }),
{
    assert(({
        let w = spec_set_bits(
            spec_set_bits(spec_set_bits(spec_set_bits(0, 31, 27, c), 26, 22, a), 21, 17, b),
            16,
            12,
            d,
        );
        spec_get_bits(w, 31, 27) == c && spec_get_bits(w, 26, 22) == a && spec_get_bits(w, 21, 17)
            == b && spec_get_bits(w, 16, 12) == d
    })) by (bit_vector)
        requires
            c < 32,
            a < 32,
            b < 32,
            d < 32,
    ;
}

proof fn lemma_rt_r2(c: u32, a: u32, b: u32)
    requires
        c < 32,
        a < 32,
        b < 32,
    ensures
        ({
            let w = spec_set_bits(spec_set_bits(spec_set_bits(0, 31, 27, c), 26, 22, a), 21, 17, b);
            spec_get_bits(w, 31, 27) == c && spec_get_bits(w, 26, 22) == a && spec_get_bits(
                w,
                21,
                17,
            ) == b
        }),
{
    assert(({
        let w = spec_set_bits(spec_set_bits(spec_set_bits(0, 31, 27, c), 26, 22, a), 21, 17, b);
        spec_get_bits(w, 31, 27) == c && spec_get_bits(w, 26, 22) == a && spec_get_bits(w, 21, 17)
            == b
    })) by (bit_vector)
        requires
            c < 32,
            a < 32,
            b < 32,
    ;
}

proof fn lemma_rt_ri(c: u32, a: u32, m: u32)
    requires
        c < 32,
        a < 32,
        m <= 0x3f_ffff,
    ensures
        ({
            let w = spec_set_bits(spec_set_bits(spec_set_bits(0, 31, 27, c), 26, 22, a), 21, 0, m);
            spec_get_bits(w, 31, 27) == c && spec_get_bits(w, 26, 22) == a && spec_get_bits(
                w,
                21,
                0,
            ) == m
        }),
{
    assert(({
        let w = spec_set_bits(spec_set_bits(spec_set_bits(0, 31, 27, c), 26, 22, a), 21, 0, m);
        spec_get_bits(w, 31, 27) == c && spec_get_bits(w, 26, 22) == a && spec_get_bits(w, 21, 0)
            == m
    })) by (bit_vector)
        requires
            c < 32,
            a < 32,
            m <= 0x3f_ffff,
    ;
}

proof fn lemma_rt_rri(c: u32, a: u32, b: u32, m: u32)
    requires
        c < 32,
        a < 32,
        b < 32,
        m <= 0x1_ffff,
    ensures
        ({
            let w = spec_set_bits(
                spec_set_bits(spec_set_bits(spec_set_bits(0, 31, 27, c), 26, 22, a), 21, 17, b),
                16,
                0,
                m,
            );
            spec_get_bits(w, 31, 27) == c && spec_get_bits(w, 26, 22) == a && spec_get_bits(
                w,
                21,
                17,
            ) == b && spec_get_bits(w, 16, 0) == m
        }),
{
    assert(({
        let w = spec_set_bits(
            spec_set_bits(spec_set_bits(spec_set_bits(0, 31, 27, c), 26, 22, a), 21, 17, b),
            16,
            0,
            m,
        );
        spec_get_bits(w, 31, 27) == c && spec_get_bits(w, 26, 22) == a && spec_get_bits(w, 21, 17)
            == b && spec_get_bits(w, 16, 0) == m
    })) by (bit_vector)
        requires
            c < 32,
            a < 32,
            b < 32,
            m <= 0x1_ffff,
    ;
}

proof fn lemma_rt_rii(c: u32, a: u32, m1: u32, m2: u32)
    requires
        c < 32,
        a < 32,
        m1 <= 0x7ff,
        m2 <= 0x7ff,
    ensures
        ({
            let w = spec_set_bits(
                spec_set_bits(spec_set_bits(spec_set_bits(0, 31, 27, c), 26, 22, a), 21, 11, m1),
                10,
                0,
                m2,
            );
            spec_get_bits(w, 31, 27) == c && spec_get_bits(w, 26, 22) == a && spec_get_bits(
                w,
                21,
                11,
            ) == m1 && spec_get_bits(w, 10, 0) == m2
        }),
{
    assert(({
        let w = spec_set_bits(
            spec_set_bits(spec_set_bits(spec_set_bits(0, 31, 27, c), 26, 22, a), 21, 11, m1),
            10,
            0,
            m2,
        );
        spec_get_bits(w, 31, 27) == c && spec_get_bits(w, 26, 22) == a && spec_get_bits(w, 21, 11)
            == m1 && spec_get_bits(w, 10, 0) == m2
    })) by (bit_vector)
        requires
            c < 32,
            a < 32,
            m1 <= 0x7ff,
            m2 <= 0x7ff,
    ;
}

proof fn lemma_rt_i(c: u32, m: u32)
    requires
        c < 32,
        m <= 0x7ff_ffff,
    ensures
        ({
            let w = spec_set_bits(spec_set_bits(0, 31, 27, c), 26, 0, m);
            spec_get_bits(w, 31, 27) == c && spec_get_bits(w, 26, 0) == m
        }),
{
    assert(({
        let w = spec_set_bits(spec_set_bits(0, 31, 27, c), 26, 0, m);
        spec_get_bits(w, 31, 27) == c && spec_get_bits(w, 26, 0) == m
    })) by (bit_vector)
        requires
            c < 32,
            m <= 0x7ff_ffff,
    ;
}

/// Round trip: a resolved instruction whose operands satisfy its format's
/// pattern and whose field values fit their widths decodes from its
/// encoded word to exactly the original opcode and operand sequence.
pub proof fn lemma_encode_decode_roundtrip(i: &ResolvedInstruction)
    requires
        resolved_matches_format(i),
        fields_in_range(i),
    ensures
        spec_opcode_from_code(spec_get_bits(spec_encode(i), 31, 27) as u8) == Some(i.opcode),
        spec_decoded_operands(i.opcode, spec_encode(i)) == i.operands@,
{
    let ops = i.operands@;
    let c = code_of(i.opcode) as u32;
    let w = spec_encode(i);
    assert(code_of(i.opcode) < 32);
    lemma_u8_u32_roundtrip(code_of(i.opcode));
    lemma_width_constants();
    crate::isa::lemma_opcode_code_bijection();
    match format_of(i.opcode) {
        InstrFormat::R3 => {
            let r1 = ops[0]->Register_0;
            let r2 = ops[1]->Register_0;
            let r3 = ops[2]->Register_0;
            lemma_rt_r3(c, r1 as u32, r2 as u32, r3 as u32);
            lemma_u8_u32_roundtrip(r1);
            lemma_u8_u32_roundtrip(r2);
            lemma_u8_u32_roundtrip(r3);
            assert(spec_decoded_operands(i.opcode, w) =~= ops);
        },
        InstrFormat::R2 => {
            let r1 = ops[0]->Register_0;
            let r2 = ops[1]->Register_0;
            lemma_rt_r2(c, r1 as u32, r2 as u32);
            lemma_u8_u32_roundtrip(r1);
            lemma_u8_u32_roundtrip(r2);
            assert(spec_decoded_operands(i.opcode, w) =~= ops);
        },
        InstrFormat::RI => {
            let r1 = ops[0]->Register_0;
            let m = ops[1]->Immediate_0;
            lemma_usize_u32_roundtrip(m, 0x3f_ffff);
            lemma_rt_ri(c, r1 as u32, m as u32);
            lemma_u8_u32_roundtrip(r1);
            assert(spec_decoded_operands(i.opcode, w) =~= ops);
        },
        InstrFormat::RRI => {
            let r1 = ops[0]->Register_0;
            let r2 = ops[1]->Register_0;
            let m = ops[2]->Immediate_0;
            lemma_usize_u32_roundtrip(m, 0x1_ffff);
            lemma_rt_rri(c, r1 as u32, r2 as u32, m as u32);
            lemma_u8_u32_roundtrip(r1);
            lemma_u8_u32_roundtrip(r2);
            assert(spec_decoded_operands(i.opcode, w) =~= ops);
        },
        InstrFormat::RII => {
            let r1 = ops[0]->Register_0;
            let m1 = ops[1]->Immediate_0;
            let m2 = ops[2]->Immediate_0;
            lemma_usize_u32_roundtrip(m1, 0x7ff);
            lemma_usize_u32_roundtrip(m2, 0x7ff);
            lemma_rt_rii(c, r1 as u32, m1 as u32, m2 as u32);
            lemma_u8_u32_roundtrip(r1);
            assert(spec_decoded_operands(i.opcode, w) =~= ops);
        },
        InstrFormat::I => {
            let m = ops[0]->Immediate_0;
            lemma_usize_u32_roundtrip(m, 0x7ff_ffff);
            lemma_rt_i(c, m as u32);
            assert(spec_decoded_operands(i.opcode, w) =~= ops);
        },
        InstrFormat::NoOP => {
            lemma_rt_noop(c);
            assert(spec_decoded_operands(i.opcode, w) =~= ops);
        },
    }
}

} // verus!

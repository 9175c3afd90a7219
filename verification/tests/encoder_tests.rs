use isa_encoder::encoder::{encode_instruction, encode_program, EncodeError};
use isa_encoder::isa::{Instruction, Opcode, Operand};

#[test]
fn test_encode_add() {
    let instr = Instruction {
        opcode: Opcode::ADD,
        operands: vec![
            Operand::Register(1),
            Operand::Register(2),
            Operand::Register(3),
        ],
    };
    let word = encode_instruction(&instr).unwrap();
    // opcode=1 at [31:27], r1=1 at [26:22], r2=2 at [21:17], r3=3 at [16:12]
    let expected =
        ((Opcode::ADD.code() as u32) << 27) | (1u32 << 22) | (2u32 << 17) | (3u32 << 12);
    assert_eq!(word, expected);
}

#[test]
fn test_encode_addi() {
    // ADDI is reg + reg + 17-bit immediate: opcode at [31:27],
    // r1 at [26:22], r2 at [21:17], imm at [16:0].
    let instr = Instruction {
        opcode: Opcode::ADDI,
        operands: vec![
            Operand::Register(4),
            Operand::Register(5),
            Operand::Immediate(0x1FF_FF), // 17-bit max
        ],
    };
    let word = encode_instruction(&instr).unwrap();
    let expected =
        ((Opcode::ADDI.code() as u32) << 27) | (4u32 << 22) | (5u32 << 17) | 0x1FF_FFu32;
    assert_eq!(word, expected);
}

#[test]
fn test_encode_immediate_overflow() {
    // A 23-bit value cannot fit LI's 22-bit immediate field.
    let instr = Instruction {
        opcode: Opcode::LI,
        operands: vec![Operand::Register(1), Operand::Immediate(1 << 22)],
    };
    let err = encode_instruction(&instr).unwrap_err();
    assert_eq!(
        err,
        EncodeError::ImmediateOutOfRange { bits: 22, value: 1 << 22 }
    );
}

#[test]
fn test_encode_register_out_of_range() {
    let instr = Instruction {
        opcode: Opcode::NOT,
        operands: vec![Operand::Register(32), Operand::Register(1)],
    };
    let err = encode_instruction(&instr).unwrap_err();
    assert_eq!(err, EncodeError::RegisterOutOfRange(32));
}

#[test]
fn test_encode_operand_count_error() {
    let instr = Instruction {
        opcode: Opcode::ADD,
        operands: vec![Operand::Register(1)],
    };
    let err = encode_instruction(&instr).unwrap_err();
    assert_eq!(
        err,
        EncodeError::InvalidOperandCount { opcode: Opcode::ADD, expected: 3, found: 1 }
    );
}

#[test]
fn test_encode_noop_ignores_operands() {
    // A NoOP-format instruction encodes to its opcode word whatever
    // operands it carries, and both encoders agree on it.
    let instr = Instruction {
        opcode: Opcode::END,
        operands: vec![Operand::Immediate(5)],
    };
    let expected = (Opcode::END.code() as u32) << 27;
    assert_eq!(encode_instruction(&instr).unwrap(), expected);
    assert_eq!(instr.encode().unwrap(), expected);
}

#[test]
fn test_encode_program_stops_at_first_failure() {
    let good = Instruction {
        opcode: Opcode::NOP,
        operands: vec![],
    };
    let bad = Instruction {
        opcode: Opcode::JR,
        operands: vec![Operand::Immediate(1 << 27)],
    };
    let program = vec![good.clone(), bad, good];
    let err = encode_program(&program).unwrap_err();
    assert_eq!(
        err,
        EncodeError::ImmediateOutOfRange { bits: 27, value: 1 << 27 }
    );

    let ok_program = vec![
        Instruction {
            opcode: Opcode::ADD,
            operands: vec![
                Operand::Register(1),
                Operand::Register(2),
                Operand::Register(3),
            ],
        },
        Instruction {
            opcode: Opcode::END,
            operands: vec![],
        },
    ];
    let words = encode_program(&ok_program).unwrap();
    assert_eq!(words.len(), 2);
    assert_eq!(words[1], (Opcode::END.code() as u32) << 27);
}

use isa_encoder::bits::{fits_in_bits, get_bits, set_bits};
use isa_encoder::isa::{Opcode, Operand, ResolvedInstruction};

#[test]
fn lib_test_opcode_roundtrip() {
    for opcode in [
        Opcode::ADD,
        Opcode::SUB,
        Opcode::MULT,
        Opcode::LI,
        Opcode::LD,
        Opcode::JR,
        Opcode::NOP,
        Opcode::END,
    ] {
        let code = opcode.code();
        assert_eq!(Opcode::from_code(code), Some(opcode));
    }
}

#[test]
fn lib_test_instruction_decode_encode() {
    // Test R3 format: ADD R1, R2, R3
    let instr = ResolvedInstruction {
        opcode: Opcode::ADD,
        operands: vec![
            Operand::Register(1),
            Operand::Register(2),
            Operand::Register(3),
        ],
    };
    let encoded = instr.encode().unwrap();
    let decoded = ResolvedInstruction::decode(encoded).unwrap();
    assert_eq!(instr, decoded);

    // Test RI format: LI R4, 100
    let instr = ResolvedInstruction {
        opcode: Opcode::LI,
        operands: vec![Operand::Register(4), Operand::Immediate(100)],
    };
    let encoded = instr.encode().unwrap();
    let decoded = ResolvedInstruction::decode(encoded).unwrap();
    assert_eq!(instr, decoded);
}

#[test]
fn lib_test_bit_manipulation() {
    let mut word = 0u32;
    set_bits(&mut word, 31, 27, 0b11111);
    assert_eq!(get_bits(word, 31, 27), 0b11111);

    set_bits(&mut word, 26, 22, 0b10101);
    assert_eq!(get_bits(word, 26, 22), 0b10101);
    assert_eq!(get_bits(word, 31, 27), 0b11111); // Previous bits unchanged
}

#[test]
fn tests_test_opcode_roundtrip() {
    for opcode in [
        Opcode::ADD,
        Opcode::SUB,
        Opcode::MULT,
        Opcode::LI,
        Opcode::LD,
        Opcode::JR,
        Opcode::NOP,
        Opcode::END,
    ] {
        let code = opcode.code();
        assert_eq!(Opcode::from_code(code), Some(opcode));
    }
}

#[test]
fn tests_test_instruction_decode_encode() {
    // Test R3 format: ADD R1, R2, R3
    let instr = ResolvedInstruction {
        opcode: Opcode::ADD,
        operands: vec![
            Operand::Register(1),
            Operand::Register(2),
            Operand::Register(3),
        ],
    };
    let encoded = instr.encode().unwrap();
    let decoded = ResolvedInstruction::decode(encoded).unwrap();
    assert_eq!(instr, decoded);

    // Test RI format: LI R4, 100
    let instr = ResolvedInstruction {
        opcode: Opcode::LI,
        operands: vec![Operand::Register(4), Operand::Immediate(100)],
    };
    let encoded = instr.encode().unwrap();
    let decoded = ResolvedInstruction::decode(encoded).unwrap();
    assert_eq!(instr, decoded);
}

#[test]
fn tests_test_bit_manipulation() {
    let mut word = 0u32;
    set_bits(&mut word, 31, 27, 0b11111);
    assert_eq!(get_bits(word, 31, 27), 0b11111);

    set_bits(&mut word, 26, 22, 0b10101);
    assert_eq!(get_bits(word, 26, 22), 0b10101);
    assert_eq!(get_bits(word, 31, 27), 0b11111); // Previous bits unchanged
}

#[test]
fn test_decode_instruction() {
    // Example: Test decoding an ADD instruction
    // ADD R1, R2, R3 encoded as a word
    let add_instr = ResolvedInstruction {
        opcode: Opcode::ADD,
        operands: vec![
            Operand::Register(1),
            Operand::Register(2),
            Operand::Register(3),
        ],
    };

    let encoded = add_instr.encode().unwrap();
    let decoded = ResolvedInstruction::decode(encoded).unwrap();

    assert_eq!(decoded, add_instr);
}

#[test]
fn test_opcode_codes_distinct_and_unused_code_decodes_to_none() {
    let all = [
        Opcode::ADD,
        Opcode::SUB,
        Opcode::MULT,
        Opcode::ADDI,
        Opcode::SUBI,
        Opcode::OR,
        Opcode::AND,
        Opcode::NOT,
        Opcode::LI,
        Opcode::LD,
        Opcode::SD,
        Opcode::JR,
        Opcode::JEQ,
        Opcode::JLTV,
        Opcode::JGT,
        Opcode::JETV,
        Opcode::NOP,
        Opcode::END,
    ];
    for a in all {
        assert_eq!(Opcode::from_code(a.code()), Some(a));
        for b in all {
            if a != b {
                assert_ne!(a.code(), b.code());
            }
        }
    }
    // Codes held by no opcode decode to None.
    assert_eq!(Opcode::from_code(0b10001), None);
    assert_eq!(Opcode::from_code(0b11110), None);
    assert_eq!(ResolvedInstruction::decode((0b10001u32) << 27), None);
}

#[test]
fn test_roundtrip_every_format() {
    let samples = vec![
        ResolvedInstruction {
            opcode: Opcode::SUB, // R3
            operands: vec![
                Operand::Register(31),
                Operand::Register(0),
                Operand::Register(15),
            ],
        },
        ResolvedInstruction {
            opcode: Opcode::NOT, // R2
            operands: vec![Operand::Register(7), Operand::Register(8)],
        },
        ResolvedInstruction {
            opcode: Opcode::LI, // RI, 22-bit immediate maximum
            operands: vec![Operand::Register(4), Operand::Immediate((1 << 22) - 1)],
        },
        ResolvedInstruction {
            opcode: Opcode::SUBI, // RRI, 17-bit immediate maximum
            operands: vec![
                Operand::Register(1),
                Operand::Register(2),
                Operand::Immediate((1 << 17) - 1),
            ],
        },
        ResolvedInstruction {
            opcode: Opcode::JETV, // RII, two 11-bit immediates
            operands: vec![
                Operand::Register(9),
                Operand::Immediate(2047),
                Operand::Immediate(0),
            ],
        },
        ResolvedInstruction {
            opcode: Opcode::JR, // I, 27-bit immediate maximum
            operands: vec![Operand::Immediate((1 << 27) - 1)],
        },
        ResolvedInstruction {
            opcode: Opcode::END, // NoOP
            operands: vec![],
        },
    ];
    for instr in samples {
        let word = instr.encode().unwrap();
        let back = ResolvedInstruction::decode(word).unwrap();
        assert_eq!(back, instr);
    }
}

#[test]
fn test_bit_isolation_exact() {
    // Setting bits [26:22] then [31:27] corrupts neither field.
    let mut word = 0u32;
    set_bits(&mut word, 26, 22, 0b10101);
    set_bits(&mut word, 31, 27, 0b11111);
    assert_eq!(get_bits(word, 26, 22), 0b10101);
    assert_eq!(get_bits(word, 31, 27), 0b11111);
    assert_eq!(get_bits(word, 21, 0), 0);
}

#[test]
fn test_fits_in_bits_boundaries() {
    assert!(fits_in_bits(0, 0));
    assert!(fits_in_bits((1 << 22) - 1, 22));
    assert!(!fits_in_bits(1 << 22, 22));
    assert!(!fits_in_bits((1 << 27), 27));
    assert!(fits_in_bits(usize::MAX, 31));
    assert!(fits_in_bits(usize::MAX, 32));
}

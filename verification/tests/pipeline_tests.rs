use isa_encoder::encoder::{encode_program, EncodeError};
use isa_encoder::errors::ParseError;
use isa_encoder::isa::{
    InstrFormat, Opcode, Spanned, UnresolvedInstruction, UnresolvedOperand,
};
use isa_encoder::lexer::{Lexer, Span, TokenKind};
use isa_encoder::parser::{validate_instructions, Parser};
use isa_encoder::parse_source;

#[test]
fn test_simple_program() {
    let input = "
            ADD R1, R2, R3
            LI R4, 100
            END
        ";

    let result = parse_source(input);
    assert!(result.is_ok());
    let instructions = result.unwrap();
    assert_eq!(instructions.len(), 3);
}

#[test]
fn test_error_reporting() {
    let input = "
            ADD R1, R2
        ";

    let result = parse_source(input);
    assert!(result.is_err());
    let error = result.unwrap_err();
    assert!(error.contains("Operand count mismatch"));
}

#[test]
fn test_error_rendering_has_caret_line() {
    let input = "
            ADD R1, R2
        ";
    let error = parse_source(input).unwrap_err();
    assert!(error.contains("wrong number of operands"));
    assert!(error.contains("^"));
    assert!(error.contains(" | "));
    // The offending line is echoed back.
    assert!(error.contains("ADD R1, R2"));
}

#[test]
fn test_label_indexing() {
    // The label map gives each label the index of the next instruction,
    // and a jump to the first instruction encodes a zero target.
    let input = "A: ADD R1,R2,R3 \n B: SUB R1,R2,R3 \n JR A";
    let tokens = Lexer::new(input).lex();
    let mut parser = Parser::new(tokens);
    let map = parser.generate_label_map().unwrap();
    assert_eq!(map.len(), 2);
    assert_eq!(map[0], ("A".to_string(), 0));
    assert_eq!(map[1], ("B".to_string(), 1));

    let instructions = parse_source(input).unwrap();
    assert_eq!(instructions.len(), 3);
    let words = encode_program(&instructions).unwrap();
    assert_eq!(words[2] & 0x07FF_FFFF, 0);
    assert_eq!(words[2] >> 27, Opcode::JR.code() as u32);
}

#[test]
fn test_duplicate_label_rejected() {
    let input = "dup: NOP\nx: ADD R1, R2, R3\ndup: END";
    let tokens = Lexer::new(input).lex();
    let mut parser = Parser::new(tokens);
    let err = parser.parse_instructions().unwrap_err();
    match err {
        ParseError::DuplicateLabel { label, .. } => assert_eq!(label, "dup"),
        other => panic!("expected DuplicateLabel, got {:?}", other),
    }
}

#[test]
fn test_duplicate_label_rejected_far_apart() {
    let input = "dup: NOP\nADD R1,R2,R3\nSUB R1,R2,R3\nMULT R1,R2,R3\nNOT R1,R2\ndup: END";
    let tokens = Lexer::new(input).lex();
    let mut parser = Parser::new(tokens);
    let err = parser.parse_instructions().unwrap_err();
    assert!(matches!(err, ParseError::DuplicateLabel { .. }));
}

#[test]
fn test_undefined_label() {
    let input = "JR nowhere";
    let tokens = Lexer::new(input).lex();
    let mut parser = Parser::new(tokens);
    let err = parser.parse_instructions().unwrap_err();
    match err {
        ParseError::UndefinedLabel { label, .. } => assert_eq!(label, "nowhere"),
        other => panic!("expected UndefinedLabel, got {:?}", other),
    }
}

#[test]
fn test_arity_mismatch_error_values() {
    // ADD is a three-register instruction; two operands fail validation.
    let input = "ADD R1, R2";
    let tokens = Lexer::new(input).lex();
    let mut parser = Parser::new(tokens);
    let err = parser.parse_instructions().unwrap_err();
    match err {
        ParseError::OperandCountMismatch { expected, found, .. } => {
            assert_eq!(expected, 3);
            assert_eq!(found, 2);
        },
        other => panic!("expected OperandCountMismatch, got {:?}", other),
    }
}

#[test]
fn test_operand_type_mismatch() {
    let input = "ADD R1, R2, 7";
    let tokens = Lexer::new(input).lex();
    let mut parser = Parser::new(tokens);
    let err = parser.parse_instructions().unwrap_err();
    assert!(matches!(err, ParseError::OperandTypeMismatch { .. }));
}

#[test]
fn test_invalid_register() {
    let input = "ADD R1, R2, R32";
    let tokens = Lexer::new(input).lex();
    let mut parser = Parser::new(tokens);
    let err = parser.parse_instructions().unwrap_err();
    assert!(matches!(err, ParseError::InvalidRegister { .. }));
}

#[test]
fn test_immediate_overflow_fails_encoding() {
    // A value exceeding 22 bits parses but cannot be encoded for LI.
    let input = "LI R1, 4194304";
    let instructions = parse_source(input).unwrap();
    let err = encode_program(&instructions).unwrap_err();
    assert_eq!(
        err,
        EncodeError::ImmediateOutOfRange { bits: 22, value: 4194304 }
    );
}

#[test]
fn test_end_to_end_add_word() {
    // ADD R1, R2, R3 encodes to 00001 in [31:27], 1 in [26:22],
    // 2 in [21:17], 3 in [16:12], all other bits zero.
    let instructions = parse_source("ADD R1, R2, R3").unwrap();
    let words = encode_program(&instructions).unwrap();
    assert_eq!(words.len(), 1);
    assert_eq!(words[0], (0b00001u32 << 27) | (1 << 22) | (2 << 17) | (3 << 12));
}

#[test]
fn test_huge_immediate_saturates() {
    let tokens = Lexer::new("LI R1, 99999999999999999999999999").lex();
    let kinds: Vec<TokenKind> = tokens.into_iter().map(|t| t.kind).collect();
    assert_eq!(kinds[2], TokenKind::Comma);
    assert_eq!(kinds[3], TokenKind::Immediate(usize::MAX));
}

#[test]
fn test_parser_expect() {
    let tokens = Lexer::new("ADD R1").lex();
    let mut parser = Parser::new(tokens);
    let tok = parser.expect(TokenKind::Opcode(Opcode::ADD)).unwrap();
    assert_eq!(tok.kind, TokenKind::Opcode(Opcode::ADD));
    let err = parser.expect(TokenKind::Comma).unwrap_err();
    match err {
        ParseError::UnexpectedToken { expected, found, .. } => {
            assert_eq!(expected, "Comma");
            assert_eq!(found, "Register");
        },
        other => panic!("expected UnexpectedToken, got {:?}", other),
    }
    let end = parser.expect(TokenKind::Terminator).unwrap_err();
    assert!(matches!(end, ParseError::UnexpectedEndOfInput));
}

#[test]
fn test_end_of_input_message() {
    let msg = ParseError::UnexpectedEndOfInput.display_with_source("whatever");
    assert_eq!(msg, "Parse Error: Unexpected end of input");
}

#[test]
fn test_mnemonic_table() {
    assert_eq!(Opcode::from_str("ADD"), Some(Opcode::ADD));
    assert_eq!(Opcode::from_str("JETV"), Some(Opcode::JETV));
    assert_eq!(Opcode::from_str("JLTV"), Some(Opcode::JLTV));
    assert_eq!(Opcode::from_str("JLT"), None);
    assert_eq!(Opcode::from_str("add"), None);
    assert_eq!(Opcode::from_str("XYZ"), None);
    assert_eq!(Opcode::END.to_string(), "END");
    assert_eq!(Opcode::NOP.instruction_format(), InstrFormat::NoOP);
    assert_eq!(InstrFormat::R3.size(), 4);
    assert_eq!(InstrFormat::NoOP.size(), 1);
}

#[test]
fn test_noop_accepts_operands() {
    // Validation of the operand-less format succeeds trivially, so a NOP
    // followed by stray operands still assembles; its word is the bare
    // opcode word.
    let instructions = parse_source("NOP 5").unwrap();
    assert_eq!(instructions.len(), 1);
    assert_eq!(instructions[0].opcode, Opcode::NOP);
    let words = encode_program(&instructions).unwrap();
    assert_eq!(words[0], (Opcode::NOP.code() as u32) << 27);
}

#[test]
fn test_unresolved_label_on_noop_is_invalid() {
    // A label reference that validation cannot reject by kind (NoOP
    // checks none) is an invalid instruction at conversion.
    let span = Span { start: 0, end: 3, line: 0 };
    let instr = UnresolvedInstruction {
        opcode: Spanned::new(Opcode::NOP, span),
        operands: vec![Spanned::new(
            UnresolvedOperand::LabelRef("somewhere".to_string()),
            span,
        )],
    };
    let err = validate_instructions(&vec![instr]).unwrap_err();
    assert!(matches!(err, ParseError::InvalidInstruction));
    assert_eq!(
        ParseError::InvalidInstruction.display_with_source(""),
        "Parse Error: Invalid instruction"
    );
}

#[test]
fn test_addi_parses_as_rri() {
    let instructions = parse_source("ADDI R1, R2, 5").unwrap();
    assert_eq!(instructions.len(), 1);
    let words = encode_program(&instructions).unwrap();
    assert_eq!(
        words[0],
        ((Opcode::ADDI.code() as u32) << 27) | (1 << 22) | (2 << 17) | 5
    );
    // Two operands are an arity error for ADDI.
    let tokens = Lexer::new("ADDI R1, 5").lex();
    let mut parser = Parser::new(tokens);
    let err = parser.parse_instructions().unwrap_err();
    assert!(matches!(
        err,
        ParseError::OperandCountMismatch { expected: 3, found: 2, .. }
    ));
}

#[test]
fn test_terminators_and_comments_are_skipped() {
    let input = "# leading comment\nNOP;\nEND;";
    let instructions = parse_source(input).unwrap();
    assert_eq!(instructions.len(), 2);
    assert_eq!(instructions[0].opcode, Opcode::NOP);
    assert_eq!(instructions[1].opcode, Opcode::END);
}

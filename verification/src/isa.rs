//! The instruction-set table: opcodes, their 5-bit machine codes, their
//! instruction formats, and the operand-pattern validation each format
//! imposes. The mappings are static, total functions over a closed set of
//! 18 opcodes.

use vstd::prelude::*;

use crate::errors::ParseError;
use crate::lexer::Span;

verus! {

/// Registers are numbered `0..REGISTER_LIMIT`, matching the 5-bit machine
/// field exactly.
pub const REGISTER_LIMIT: usize = 32;

/// Width in bits of a machine register's value (one instruction word).
pub const REGISTER_BIT: usize = 32;

#[derive(Debug, Clone, Copy, PartialEq, Eq, Structural)]
pub enum Opcode {
    ADD,
    SUB,
    MULT,
    ADDI,
    SUBI,
    OR,
    AND,
    NOT,
    LI,
    LD,
    SD,
    JR,
    JEQ,
    JLTV,
    JGT,
    JETV,
    NOP,
    END,
}

#[derive(Debug, Clone, Copy, PartialEq, Eq, Structural)]
pub enum InstrFormat {
    R2,
    R3,
    RI,
    RRI,
    RII,
    I,
    NoOP,
}

/// An operand as it leaves the parser's instruction-building pass: a label
/// reference is a placeholder that must be eliminated by label resolution
/// before encoding.
#[derive(Debug, Clone, PartialEq)]
pub enum UnresolvedOperand {
    Register(u8),
    Immediate(usize),
    LabelRef(String),
}

/// An operand after label resolution; no label reference survives to this
/// point.
#[derive(Debug, Clone, Copy, PartialEq, Eq, Structural)]
pub enum Operand {
    Register(u8),
    Immediate(usize),
}

/// A value paired with the source span it came from, for diagnostics.
#[derive(Debug, Clone, Copy)]
pub struct Spanned<T> {
    pub item: T,
    pub span: Span,
}

impl<T> Spanned<T> {
    pub fn as_ref(&self) -> (r: &T)
        ensures
            *r == self.item,
    {
        &self.item
    }

    pub fn as_mut(&mut self) -> (r: &mut T)
        ensures
            *r == old(self).item,
    {
        &mut self.item
    }

    pub fn new(item: T, span: Span) -> (r: Self)
        ensures
            r.item == item,
            r.span == span,
    {
        Spanned { item, span }
    }
}

/// An instruction as built by the parser, with spans kept for diagnostics.
#[derive(Debug, Clone)]
pub struct UnresolvedInstruction {
    pub opcode: Spanned<Opcode>,
    pub operands: Vec<Spanned<UnresolvedOperand>>,
}

/// The mathematical shape of an instruction before label resolution.
#[verifier::ext_equal]
pub struct UnresolvedInstrView {
    pub opcode: Spanned<Opcode>,
    pub operands: Seq<Spanned<UnresolvedOperand>>,
}

impl View for UnresolvedInstruction {
    type V = UnresolvedInstrView;

    open spec fn view(&self) -> UnresolvedInstrView {
        UnresolvedInstrView { opcode: self.opcode, operands: self.operands@ }
    }
}

/// The span reported for an instruction as a whole: its operands' extent,
/// or the opcode's own span when there are no operands.
pub open spec fn spec_total_span(i: UnresolvedInstrView) -> Span {
    if i.operands.len() == 0 {
        i.opcode.span
    } else {
        Span {
            start: i.operands[0].span.start,
            end: i.operands[i.operands.len() - 1].span.end,
            line: i.operands[0].span.line,
        }
    }
}

impl UnresolvedInstruction {
    pub fn get_total_span(&self) -> (r: Span)
        ensures
            r == spec_total_span(self@),
    {
        if self.operands.len() == 0 {
            return self.opcode.span;
        }
        let first = &self.operands[0];
        let last = &self.operands[self.operands.len() - 1];
        Span { start: first.span.start, end: last.span.end, line: first.span.line }
    }
}

/// A fully resolved instruction: plain data, order-significant, ready for
/// the codec.
#[derive(Debug, Clone, PartialEq, Eq)]
pub struct ResolvedInstruction {
    pub opcode: Opcode,
    pub operands: Vec<Operand>,
}

/// The shape the encoder consumes; identical to a resolved instruction.
pub type Instruction = ResolvedInstruction;

/// The mathematical shape of a resolved instruction.
#[verifier::ext_equal]
pub struct ResolvedInstrView {
    pub opcode: Opcode,
    pub operands: Seq<Operand>,
}

impl View for ResolvedInstruction {
    type V = ResolvedInstrView;

    open spec fn view(&self) -> ResolvedInstrView {
        ResolvedInstrView { opcode: self.opcode, operands: self.operands@ }
    }
}

/// The 5-bit machine code of each opcode; all 18 codes are pairwise
/// distinct.
pub open spec fn code_of(op: Opcode) -> u8 {
    match op {
        Opcode::ADD => 0b00001,
        Opcode::SUB => 0b00010,
        Opcode::MULT => 0b00011,
        Opcode::ADDI => 0b00100,
        Opcode::SUBI => 0b00101,
        Opcode::OR => 0b00110,
        Opcode::NOT => 0b00111,
        Opcode::AND => 0b10000,
        Opcode::LI => 0b01000,
        Opcode::LD => 0b01001,
        Opcode::SD => 0b01010,
        Opcode::JR => 0b01011,
        Opcode::JEQ => 0b01100,
        Opcode::JLTV => 0b01101,
        Opcode::JGT => 0b01110,
        Opcode::JETV => 0b01111,
        Opcode::NOP => 0b00000,
        Opcode::END => 0b11111,
    }
}

/// The exact inverse of `code_of`: the opcode carrying a 5-bit code, or
/// `None` when no opcode has that code.
pub open spec fn spec_opcode_from_code(code: u8) -> Option<Opcode> {
    match code {
        0b00001 => Some(Opcode::ADD),
        0b00010 => Some(Opcode::SUB),
        0b00011 => Some(Opcode::MULT),
        0b00100 => Some(Opcode::ADDI),
        0b00101 => Some(Opcode::SUBI),
        0b00110 => Some(Opcode::OR),
        0b00111 => Some(Opcode::NOT),
        0b10000 => Some(Opcode::AND),
        0b01000 => Some(Opcode::LI),
        0b01001 => Some(Opcode::LD),
        0b01010 => Some(Opcode::SD),
        0b01011 => Some(Opcode::JR),
        0b01100 => Some(Opcode::JEQ),
        0b01101 => Some(Opcode::JLTV),
        0b01110 => Some(Opcode::JGT),
        0b01111 => Some(Opcode::JETV),
        0b00000 => Some(Opcode::NOP),
        0b11111 => Some(Opcode::END),
        _ => None,
    }
}

/// The instruction format of each opcode.
pub open spec fn format_of(op: Opcode) -> InstrFormat {
    match op {
        Opcode::ADD | Opcode::SUB | Opcode::MULT | Opcode::OR | Opcode::AND => InstrFormat::R3,
        Opcode::NOT => InstrFormat::R2,
        Opcode::LI => InstrFormat::RI,
        Opcode::ADDI | Opcode::SUBI => InstrFormat::RRI,
        Opcode::LD | Opcode::SD => InstrFormat::R2,
        Opcode::JR => InstrFormat::I,
        Opcode::JLTV => InstrFormat::RII,
        Opcode::JEQ | Opcode::JGT => InstrFormat::RRI,
        Opcode::JETV => InstrFormat::RII,
        Opcode::NOP | Opcode::END => InstrFormat::NoOP,
    }
}

/// The mnemonic of each opcode.
pub open spec fn mnemonic_of(op: Opcode) -> Seq<char> {
    match op {
        Opcode::ADD => "ADD"@,
        Opcode::SUB => "SUB"@,
        Opcode::MULT => "MULT"@,
        Opcode::ADDI => "ADDI"@,
        Opcode::SUBI => "SUBI"@,
        Opcode::OR => "OR"@,
        Opcode::AND => "AND"@,
        Opcode::NOT => "NOT"@,
        Opcode::LI => "LI"@,
        Opcode::LD => "LD"@,
        Opcode::SD => "SD"@,
        Opcode::JR => "JR"@,
        Opcode::JEQ => "JEQ"@,
        Opcode::JLTV => "JLTV"@,
        Opcode::JGT => "JGT"@,
        Opcode::JETV => "JETV"@,
        Opcode::NOP => "NOP"@,
        Opcode::END => "END"@,
    }
}

/// Case-sensitive mnemonic lookup, tried in the table's order.
pub open spec fn spec_opcode_from_mnemonic(s: Seq<char>) -> Option<Opcode> {
    if s == "ADD"@ {
        Some(Opcode::ADD)
    } else if s == "SUB"@ {
        Some(Opcode::SUB)
    } else if s == "MULT"@ {
        Some(Opcode::MULT)
    } else if s == "ADDI"@ {
        Some(Opcode::ADDI)
    } else if s == "SUBI"@ {
        Some(Opcode::SUBI)
    } else if s == "OR"@ {
        Some(Opcode::OR)
    } else if s == "AND"@ {
        Some(Opcode::AND)
    } else if s == "NOT"@ {
        Some(Opcode::NOT)
    } else if s == "LI"@ {
        Some(Opcode::LI)
    } else if s == "LD"@ {
        Some(Opcode::LD)
    } else if s == "SD"@ {
        Some(Opcode::SD)
    } else if s == "JR"@ {
        Some(Opcode::JR)
    } else if s == "JGT"@ {
        Some(Opcode::JGT)
    } else if s == "JEQ"@ {
        Some(Opcode::JEQ)
    } else if s == "JLTV"@ {
        Some(Opcode::JLTV)
    } else if s == "JETV"@ {
        Some(Opcode::JETV)
    } else if s == "NOP"@ {
        Some(Opcode::NOP)
    } else if s == "END"@ {
        Some(Opcode::END)
    } else {
        None
    }
}

/// Compare two string slices by their character sequences.
fn str_eq(a: &str, b: &str) -> (r: bool)
    ensures
        r == (a@ == b@),
{
    let oa = a.to_owned();
    let ob = b.to_owned();
    oa == ob
}

impl Opcode {
    pub fn from_str(op: &str) -> (r: Option<Opcode>)
        ensures
            r == spec_opcode_from_mnemonic(op@),
    {
        if str_eq(op, "ADD") {
            Some(Opcode::ADD)
        } else if str_eq(op, "SUB") {
            Some(Opcode::SUB)
        } else if str_eq(op, "MULT") {
            Some(Opcode::MULT)
        } else if str_eq(op, "ADDI") {
            Some(Opcode::ADDI)
        } else if str_eq(op, "SUBI") {
            Some(Opcode::SUBI)
        } else if str_eq(op, "OR") {
            Some(Opcode::OR)
        } else if str_eq(op, "AND") {
            Some(Opcode::AND)
        } else if str_eq(op, "NOT") {
            Some(Opcode::NOT)
        } else if str_eq(op, "LI") {
            Some(Opcode::LI)
        } else if str_eq(op, "LD") {
            Some(Opcode::LD)
        } else if str_eq(op, "SD") {
            Some(Opcode::SD)
        } else if str_eq(op, "JR") {
            Some(Opcode::JR)
        } else if str_eq(op, "JGT") {
            Some(Opcode::JGT)
        } else if str_eq(op, "JEQ") {
            Some(Opcode::JEQ)
        } else if str_eq(op, "JLTV") {
            Some(Opcode::JLTV)
        } else if str_eq(op, "JETV") {
            Some(Opcode::JETV)
        } else if str_eq(op, "NOP") {
            Some(Opcode::NOP)
        } else if str_eq(op, "END") {
            Some(Opcode::END)
        } else {
            None
        }
    }

    pub fn to_string(self) -> (r: &'static str)
        ensures
            r@ == mnemonic_of(self),
    {
        match self {
            Opcode::ADD => "ADD",
            Opcode::SUB => "SUB",
            Opcode::MULT => "MULT",
            Opcode::ADDI => "ADDI",
            Opcode::SUBI => "SUBI",
            Opcode::OR => "OR",
            Opcode::AND => "AND",
            Opcode::NOT => "NOT",
            Opcode::LI => "LI",
            Opcode::LD => "LD",
            Opcode::SD => "SD",
            Opcode::JR => "JR",
            Opcode::JEQ => "JEQ",
            Opcode::JLTV => "JLTV",
            Opcode::JGT => "JGT",
            Opcode::JETV => "JETV",
            Opcode::NOP => "NOP",
            Opcode::END => "END",
        }
    }

    pub fn code(self) -> (r: u8)
        ensures
            r == code_of(self),
    {
        match self {
            Opcode::ADD => 0b00001,
            Opcode::SUB => 0b00010,
            Opcode::MULT => 0b00011,
            Opcode::ADDI => 0b00100,
            Opcode::SUBI => 0b00101,
            Opcode::OR => 0b00110,
            Opcode::NOT => 0b00111,
            Opcode::AND => 0b10000,
            Opcode::LI => 0b01000,
            Opcode::LD => 0b01001,
            Opcode::SD => 0b01010,
            Opcode::JR => 0b01011,
            Opcode::JEQ => 0b01100,
            Opcode::JLTV => 0b01101,
            Opcode::JGT => 0b01110,
            Opcode::JETV => 0b01111,
            Opcode::NOP => 0b00000,
            Opcode::END => 0b11111,
        }
    }

    pub fn from_code(code: u8) -> (r: Option<Opcode>)
        ensures
            r == spec_opcode_from_code(code),
    {
        match code {
            0b00001 => Some(Opcode::ADD),
            0b00010 => Some(Opcode::SUB),
            0b00011 => Some(Opcode::MULT),
            0b00100 => Some(Opcode::ADDI),
            0b00101 => Some(Opcode::SUBI),
            0b00110 => Some(Opcode::OR),
            0b00111 => Some(Opcode::NOT),
            0b10000 => Some(Opcode::AND),
            0b01000 => Some(Opcode::LI),
            0b01001 => Some(Opcode::LD),
            0b01010 => Some(Opcode::SD),
            0b01011 => Some(Opcode::JR),
            0b01100 => Some(Opcode::JEQ),
            0b01101 => Some(Opcode::JLTV),
            0b01110 => Some(Opcode::JGT),
            0b01111 => Some(Opcode::JETV),
            0b00000 => Some(Opcode::NOP),
            0b11111 => Some(Opcode::END),
            _ => None,
        }
    }

    pub fn instruction_format(self) -> (r: InstrFormat)
        ensures
            r == format_of(self),
    {
        match self {
            Opcode::ADD | Opcode::SUB | Opcode::MULT | Opcode::OR | Opcode::AND => InstrFormat::R3,
            Opcode::NOT => InstrFormat::R2,
            Opcode::LI => InstrFormat::RI,
            Opcode::ADDI | Opcode::SUBI => InstrFormat::RRI,
            Opcode::LD | Opcode::SD => InstrFormat::R2,
            Opcode::JR => InstrFormat::I,
            Opcode::JLTV => InstrFormat::RII,
            Opcode::JEQ | Opcode::JGT => InstrFormat::RRI,
            Opcode::JETV => InstrFormat::RII,
            Opcode::NOP | Opcode::END => InstrFormat::NoOP,
        }
    }
}

/// The machine-code mapping is a bijection between the 18 opcodes and
/// their codes: decoding the code of any opcode yields that opcode back,
/// any code that decodes at all decodes to the opcode that carries it, and
/// a code held by no opcode decodes to `None`.
pub proof fn lemma_opcode_code_bijection()
    ensures
        forall|op: Opcode| #[trigger] spec_opcode_from_code(code_of(op)) == Some(op),
        forall|c: u8|
            (#[trigger] spec_opcode_from_code(c)) matches Some(op) ==> code_of(op) == c,
        forall|c: u8|
            spec_opcode_from_code(c) is None ==> forall|op: Opcode| #[trigger] code_of(op) != c,
{
}

/// Mnemonic round trip: looking up any opcode's own mnemonic yields that
/// opcode back.
pub proof fn lemma_mnemonic_roundtrip()
    ensures
        forall|op: Opcode| #[trigger] spec_opcode_from_mnemonic(mnemonic_of(op)) == Some(op),
{
    reveal_strlit("ADD");
    reveal_strlit("SUB");
    reveal_strlit("MULT");
    reveal_strlit("ADDI");
    reveal_strlit("SUBI");
    reveal_strlit("OR");
    reveal_strlit("AND");
    reveal_strlit("NOT");
    reveal_strlit("LI");
    reveal_strlit("LD");
    reveal_strlit("SD");
    reveal_strlit("JR");
    reveal_strlit("JEQ");
    reveal_strlit("JLTV");
    reveal_strlit("JGT");
    reveal_strlit("JETV");
    reveal_strlit("NOP");
    reveal_strlit("END");
    assert("ADD"@ =~= seq!['A', 'D', 'D']);
    assert("SUB"@ =~= seq!['S', 'U', 'B']);
    assert("MULT"@ =~= seq!['M', 'U', 'L', 'T']);
    assert("ADDI"@ =~= seq!['A', 'D', 'D', 'I']);
    assert("SUBI"@ =~= seq!['S', 'U', 'B', 'I']);
    assert("OR"@ =~= seq!['O', 'R']);
    assert("AND"@ =~= seq!['A', 'N', 'D']);
    assert("NOT"@ =~= seq!['N', 'O', 'T']);
    assert("LI"@ =~= seq!['L', 'I']);
    assert("LD"@ =~= seq!['L', 'D']);
    assert("SD"@ =~= seq!['S', 'D']);
    assert("JR"@ =~= seq!['J', 'R']);
    assert("JEQ"@ =~= seq!['J', 'E', 'Q']);
    assert("JLTV"@ =~= seq!['J', 'L', 'T', 'V']);
    assert("JGT"@ =~= seq!['J', 'G', 'T']);
    assert("JETV"@ =~= seq!['J', 'E', 'T', 'V']);
    assert("NOP"@ =~= seq!['N', 'O', 'P']);
    assert("END"@ =~= seq!['E', 'N', 'D']);
    assert forall|op: Opcode| #[trigger] spec_opcode_from_mnemonic(mnemonic_of(op)) == Some(
        op,
    ) by {
        match op {
            Opcode::ADD => assert(spec_opcode_from_mnemonic("ADD"@) == Some(Opcode::ADD)),
            Opcode::SUB => assert(spec_opcode_from_mnemonic("SUB"@) == Some(Opcode::SUB)),
            Opcode::MULT => assert(spec_opcode_from_mnemonic("MULT"@) == Some(Opcode::MULT)),
            Opcode::ADDI => assert(spec_opcode_from_mnemonic("ADDI"@) == Some(Opcode::ADDI)),
            Opcode::SUBI => assert(spec_opcode_from_mnemonic("SUBI"@) == Some(Opcode::SUBI)),
            Opcode::OR => assert(spec_opcode_from_mnemonic("OR"@) == Some(Opcode::OR)),
            Opcode::AND => assert(spec_opcode_from_mnemonic("AND"@) == Some(Opcode::AND)),
            Opcode::NOT => assert(spec_opcode_from_mnemonic("NOT"@) == Some(Opcode::NOT)),
            Opcode::LI => assert(spec_opcode_from_mnemonic("LI"@) == Some(Opcode::LI)),
            Opcode::LD => assert(spec_opcode_from_mnemonic("LD"@) == Some(Opcode::LD)),
            Opcode::SD => assert(spec_opcode_from_mnemonic("SD"@) == Some(Opcode::SD)),
            Opcode::JR => assert(spec_opcode_from_mnemonic("JR"@) == Some(Opcode::JR)),
            Opcode::JEQ => assert(spec_opcode_from_mnemonic("JEQ"@) == Some(Opcode::JEQ)),
            Opcode::JLTV => assert(spec_opcode_from_mnemonic("JLTV"@) == Some(Opcode::JLTV)),
            Opcode::JGT => assert(spec_opcode_from_mnemonic("JGT"@) == Some(Opcode::JGT)),
            Opcode::JETV => assert(spec_opcode_from_mnemonic("JETV"@) == Some(Opcode::JETV)),
            Opcode::NOP => assert(spec_opcode_from_mnemonic("NOP"@) == Some(Opcode::NOP)),
            Opcode::END => assert(spec_opcode_from_mnemonic("END"@) == Some(Opcode::END)),
        }
    }
}

/// The number of fields an instruction of this format occupies in a word,
/// the opcode included.
pub open spec fn spec_format_size(f: InstrFormat) -> usize {
    match f {
        InstrFormat::R2 => 3,
        InstrFormat::R3 => 4,
        InstrFormat::RI => 3,
        InstrFormat::RRI => 4,
        InstrFormat::RII => 4,
        InstrFormat::I => 2,
        InstrFormat::NoOP => 1,
    }
}

impl InstrFormat {
    pub fn size(&self) -> (r: usize)
        ensures
            r == spec_format_size(*self),
    {
        match self {
            InstrFormat::R2 => 3,
            InstrFormat::R3 => 4,
            InstrFormat::RI => 3,
            InstrFormat::RRI => 4,
            InstrFormat::RII => 4,
            InstrFormat::I => 2,
            InstrFormat::NoOP => 1,
        }
    }
}

/// The kind of operand a format position accepts.
#[derive(Debug, Clone, Copy, PartialEq, Eq, Structural)]
pub enum OperandType {
    Reg,
    Imm,
}

/// The ordered operand-kind pattern each format requires.
pub open spec fn spec_pattern(f: InstrFormat) -> Seq<OperandType> {
    match f {
        InstrFormat::R3 => seq![OperandType::Reg, OperandType::Reg, OperandType::Reg],
        InstrFormat::R2 => seq![OperandType::Reg, OperandType::Reg],
        InstrFormat::RI => seq![OperandType::Reg, OperandType::Imm],
        InstrFormat::RRI => seq![OperandType::Reg, OperandType::Reg, OperandType::Imm],
        InstrFormat::RII => seq![OperandType::Reg, OperandType::Imm, OperandType::Imm],
        InstrFormat::I => seq![OperandType::Imm],
        InstrFormat::NoOP => seq![],
    }
}

/// Whether one operand is of the kind a pattern position requires.
pub open spec fn operand_matches_type(op: UnresolvedOperand, t: OperandType) -> bool {
    match (op, t) {
        (UnresolvedOperand::Register(_), OperandType::Reg) => true,
        (UnresolvedOperand::Immediate(_), OperandType::Imm) => true,
        _ => false,
    }
}

/// Whether an operand sequence satisfies a format's arity and kind
/// pattern.
pub open spec fn operands_match_format(ops: Seq<Spanned<UnresolvedOperand>>, f: InstrFormat) -> bool {
    &&& ops.len() == spec_pattern(f).len()
    &&& forall|i: int|
        0 <= i < ops.len() ==> #[trigger] operand_matches_type(ops[i].item, spec_pattern(f)[i])
}

/// The first position whose operand kind does not match the pattern, or
/// the length when every position matches.
pub open spec fn first_kind_mismatch(
    ops: Seq<Spanned<UnresolvedOperand>>,
    f: InstrFormat,
    k: int,
) -> int
    decreases ops.len() - k,
{
    if !(0 <= k < ops.len()) {
        ops.len() as int
    } else if !operand_matches_type(ops[k].item, spec_pattern(f)[k]) {
        k
    } else {
        first_kind_mismatch(ops, f, k + 1)
    }
}

/// What validation returns: nothing to check for `NoOP`, which succeeds
/// whatever the operands; otherwise a count mismatch against the
/// instruction's span when the arity differs, else a kind mismatch
/// against the first offending operand's span, else success.
pub open spec fn spec_validate(
    f: InstrFormat,
    ops: Seq<Spanned<UnresolvedOperand>>,
    instr_span: Span,
) -> Result<(), ParseError> {
    if f is NoOP {
        Ok(())
    } else if ops.len() != spec_pattern(f).len() {
        Err(
            ParseError::OperandCountMismatch {
                expected: spec_pattern(f).len() as usize,
                found: ops.len() as usize,
                span: instr_span,
            },
        )
    } else {
        let k = first_kind_mismatch(ops, f, 0);
        if k < ops.len() {
            Err(ParseError::OperandTypeMismatch { span: ops[k].span })
        } else {
            Ok(())
        }
    }
}

fn validate_pattern(
    ops: &Vec<Spanned<UnresolvedOperand>>,
    instr_span: &Span,
    expected_count: usize,
    f: InstrFormat,
) -> (r: Result<(), ParseError>)
    requires
        expected_count == spec_pattern(f).len(),
        !(f is NoOP),
    ensures
        r == spec_validate(f, ops@, *instr_span),
        r is Ok <==> operands_match_format(ops@, f),
{
    if ops.len() != expected_count {
        return Err(ParseError::OperandCountMismatch {
            expected: expected_count,
            found: ops.len(),
            span: *instr_span,
        });
    }
    let mut i: usize = 0;
    while i < ops.len()
        invariant
            0 <= i <= ops@.len(),
            ops@.len() == spec_pattern(f).len(),
            first_kind_mismatch(ops@, f, 0) == first_kind_mismatch(ops@, f, i as int),
            forall|j: int|
                0 <= j < i ==> #[trigger] operand_matches_type(ops@[j].item, spec_pattern(f)[j]),
        decreases ops@.len() - i,
    {
        let ok = operand_matches(&ops[i].item, self_pattern_kind(f, i));
        if !ok {
            return Err(ParseError::OperandTypeMismatch { span: ops[i].span });
        }
        i = i + 1;
    }
    proof {
        assert(forall|j: int|
            0 <= j < ops@.len() ==> #[trigger] operand_matches_type(
                ops@[j].item,
                spec_pattern(f)[j],
            ));
    }
    Ok(())
}

/// Whether one operand is of the given kind.
fn operand_matches(op: &UnresolvedOperand, t: OperandType) -> (r: bool)
    ensures
        r == operand_matches_type(*op, t),
{
    match (op, t) {
        (UnresolvedOperand::Register(_), OperandType::Reg) => true,
        (UnresolvedOperand::Immediate(_), OperandType::Imm) => true,
        _ => false,
    }
}

/// The operand kind required at position `i` of format `f`.
fn self_pattern_kind(f: InstrFormat, i: usize) -> (r: OperandType)
    requires
        i < spec_pattern(f).len(),
    ensures
        r == spec_pattern(f)[i as int],
{
    match f {
        InstrFormat::R3 => OperandType::Reg,
        InstrFormat::R2 => OperandType::Reg,
        InstrFormat::RI => {
            if i == 0 {
                OperandType::Reg
            } else {
                OperandType::Imm
            }
        },
        InstrFormat::RRI => {
            if i < 2 {
                OperandType::Reg
            } else {
                OperandType::Imm
            }
        },
        InstrFormat::RII => {
            if i == 0 {
                OperandType::Reg
            } else {
                OperandType::Imm
            }
        },
        InstrFormat::I => OperandType::Imm,
        InstrFormat::NoOP => OperandType::Imm,
    }
}

impl InstrFormat {
    /// Check an operand sequence against this format's arity and ordered
    /// kind pattern, reporting a count mismatch against the whole
    /// instruction's span and a kind mismatch against the first offending
    /// operand's span. `NoOP` always succeeds trivially, whatever the
    /// operands.
    pub fn validate(&self, ops: &Vec<Spanned<UnresolvedOperand>>, span: &Span) -> (r: Result<
        (),
        ParseError,
    >)
        ensures
            r == spec_validate(*self, ops@, *span),
            r is Ok <==> (*self is NoOP || operands_match_format(ops@, *self)),
    {
        match self {
            InstrFormat::R3 => validate_pattern(ops, span, 3, InstrFormat::R3),
            InstrFormat::R2 => validate_pattern(ops, span, 2, InstrFormat::R2),
            InstrFormat::RI => validate_pattern(ops, span, 2, InstrFormat::RI),
            InstrFormat::RRI => validate_pattern(ops, span, 3, InstrFormat::RRI),
            InstrFormat::RII => validate_pattern(ops, span, 3, InstrFormat::RII),
            InstrFormat::I => validate_pattern(ops, span, 1, InstrFormat::I),
            InstrFormat::NoOP => Ok(()),
        }
    }
}

} // verus!

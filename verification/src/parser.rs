//! The parser: three ordered passes over the token stream. A label scan
//! maps each label name to the index of the next instruction, failing on a
//! duplicate; an instruction-building pass turns each opcode and the
//! operand tokens after it into an unresolved instruction; label
//! substitution replaces every label reference with its instruction index.
//! Validation against each opcode's format then yields resolved
//! instructions.

use vstd::prelude::*;

use crate::errors::ParseError;
use crate::isa::{
    format_of, spec_total_span, spec_validate, Operand, ResolvedInstruction, ResolvedInstrView,
    Spanned, UnresolvedInstruction, UnresolvedInstrView, UnresolvedOperand, REGISTER_LIMIT,
};
use crate::lexer::{Token, TokenKind};
use crate::traits::ToResolvedInstr;
use vstd::string::StringExecFns;

verus! {

/// The label map as a value: name-to-index pairs in definition order.
pub type LabelMap = Vec<(String, usize)>;

/// First-match lookup in the label map, searching from entry `i`.
pub open spec fn lookup_label_from(m: Seq<(String, usize)>, i: int, name: Seq<char>) -> Option<
    usize,
>
    decreases m.len() - i,
{
    if !(0 <= i < m.len()) {
        None
    } else if m[i].0@ == name {
        Some(m[i].1)
    } else {
        lookup_label_from(m, i + 1, name)
    }
}

/// The instruction index a label name maps to, if it is defined.
pub open spec fn lookup_label(m: Seq<(String, usize)>, name: Seq<char>) -> Option<usize> {
    lookup_label_from(m, 0, name)
}

/// The number of instructions (opcode tokens) strictly before token `i`.
pub open spec fn instr_count(tokens: Seq<Token>, i: int) -> nat
    decreases i,
{
    if i <= 0 {
        0
    } else {
        instr_count(tokens, i - 1) + if tokens[i - 1].kind is Opcode {
            1nat
        } else {
            0nat
        }
    }
}

/// The label scan from token `i` with the map built so far: on a label
/// definition, fail if the name is already mapped, else map it to the
/// count of opcode tokens seen; every other token only advances.
pub open spec fn spec_label_scan(
    tokens: Seq<Token>,
    i: int,
    m: Seq<(String, usize)>,
) -> Result<Seq<(String, usize)>, ParseError>
    decreases tokens.len() - i,
{
    if !(0 <= i < tokens.len()) {
        Ok(m)
    } else {
        match tokens[i].kind {
            TokenKind::LabelDef(name) => {
                if lookup_label(m, name@) is Some {
                    Err(ParseError::DuplicateLabel { label: name, span: tokens[i].span })
                } else {
                    spec_label_scan(
                        tokens,
                        i + 1,
                        m.push((name, instr_count(tokens, i) as usize)),
                    )
                }
            },
            _ => spec_label_scan(tokens, i + 1, m),
        }
    }
}

/// A token index bounds the count of opcode tokens before it.
proof fn lemma_instr_count_le(tokens: Seq<Token>, i: int)
    requires
        i >= 0,
    ensures
        instr_count(tokens, i) <= i,
    decreases i,
{
    if i > 0 {
        lemma_instr_count_le(tokens, i - 1);
    }
}

/// The map the whole label scan produces, or the first duplicate.
pub open spec fn spec_label_map(tokens: Seq<Token>) -> Result<Seq<(String, usize)>, ParseError> {
    spec_label_scan(tokens, 0, Seq::empty())
}

/// Whether the label definition at token `j` repeats an earlier one.
pub open spec fn duplicate_label_at(tokens: Seq<Token>, j: int) -> bool {
    &&& 0 <= j < tokens.len()
    &&& tokens[j].kind is LabelDef
    &&& exists|i: int|
        0 <= i < j && ((#[trigger] tokens[i].kind) matches TokenKind::LabelDef(n)
            && n@ == tokens[j].kind->LabelDef_0@)
}

/// Operand collection starting at token `i`: registers, immediates and
/// label references are appended (a register at or above the limit is
/// rejected on the spot), separators and comments are skipped, and the
/// next opcode or label definition ends the collection. Returns the
/// position collection stopped at and the collected operands or the
/// error.
pub open spec fn spec_collect_operands(tokens: Seq<Token>, i: int) -> (
    int,
    Result<Seq<Spanned<UnresolvedOperand>>, ParseError>,
)
    decreases tokens.len() - i,
{
    if !(0 <= i < tokens.len()) {
        (i, Ok(Seq::empty()))
    } else {
        match tokens[i].kind {
            TokenKind::Opcode(_) => (i, Ok(Seq::empty())),
            TokenKind::LabelDef(_) => (i, Ok(Seq::empty())),
            TokenKind::Register(n) => {
                if n >= REGISTER_LIMIT {
                    (i, Err(ParseError::InvalidRegister { span: tokens[i].span }))
                } else {
                    let (j, rest) = spec_collect_operands(tokens, i + 1);
                    match rest {
                        Ok(ops) => (
                            j,
                            Ok(
                                seq![
                                    Spanned {
                                        item: UnresolvedOperand::Register(n as u8),
                                        span: tokens[i].span,
                                    },
                                ] + ops,
                            ),
                        ),
                        Err(e) => (j, Err(e)),
                    }
                }
            },
            TokenKind::Immediate(v) => {
                let (j, rest) = spec_collect_operands(tokens, i + 1);
                match rest {
                    Ok(ops) => (
                        j,
                        Ok(
                            seq![
                                Spanned {
                                    item: UnresolvedOperand::Immediate(v),
                                    span: tokens[i].span,
                                },
                            ] + ops,
                        ),
                    ),
                    Err(e) => (j, Err(e)),
                }
            },
            TokenKind::LabelRef(l) => {
                let (j, rest) = spec_collect_operands(tokens, i + 1);
                match rest {
                    Ok(ops) => (
                        j,
                        Ok(
                            seq![
                                Spanned {
                                    item: UnresolvedOperand::LabelRef(l),
                                    span: tokens[i].span,
                                },
                            ] + ops,
                        ),
                    ),
                    Err(e) => (j, Err(e)),
                }
            },
            _ => spec_collect_operands(tokens, i + 1),
        }
    }
}

/// The instruction-building pass from token `i`: each opcode token starts
/// an instruction whose operands are collected after it; all other tokens
/// between instructions are ignored.
pub open spec fn spec_build_instrs(tokens: Seq<Token>, i: int) -> Result<
    Seq<UnresolvedInstrView>,
    ParseError,
>
    decreases tokens.len() - i,
{
    if !(0 <= i < tokens.len()) {
        Ok(Seq::empty())
    } else {
        match tokens[i].kind {
            TokenKind::Opcode(op) => {
                let (j, ops_r) = spec_collect_operands(tokens, i + 1);
                let next = if i + 1 < j && j <= tokens.len() {
                    j
                } else {
                    i + 1
                };
                match ops_r {
                    Err(e) => Err(e),
                    Ok(ops) => match spec_build_instrs(tokens, next) {
                        Err(e) => Err(e),
                        Ok(rest) => Ok(
                            seq![
                                UnresolvedInstrView {
                                    opcode: Spanned { item: op, span: tokens[i].span },
                                    operands: ops,
                                },
                            ] + rest,
                        ),
                    },
                }
            },
            _ => spec_build_instrs(tokens, i + 1),
        }
    }
}

/// Label substitution over one operand list, from position `k`: each
/// label reference becomes the immediate index its name maps to, or the
/// first unmapped name fails.
pub open spec fn spec_resolve_operands(
    m: Seq<(String, usize)>,
    ops: Seq<Spanned<UnresolvedOperand>>,
    k: int,
) -> Result<Seq<Spanned<UnresolvedOperand>>, ParseError>
    decreases ops.len() - k,
{
    if !(0 <= k < ops.len()) {
        Ok(Seq::empty())
    } else {
        match ops[k].item {
            UnresolvedOperand::LabelRef(l) => match lookup_label(m, l@) {
                Some(idx) => match spec_resolve_operands(m, ops, k + 1) {
                    Ok(rest) => Ok(
                        seq![
                            Spanned { item: UnresolvedOperand::Immediate(idx), span: ops[k].span },
                        ] + rest,
                    ),
                    Err(e) => Err(e),
                },
                None => Err(ParseError::UndefinedLabel { label: l, span: ops[k].span }),
            },
            _ => match spec_resolve_operands(m, ops, k + 1) {
                Ok(rest) => Ok(seq![ops[k]] + rest),
                Err(e) => Err(e),
            },
        }
    }
}

/// Label substitution over the whole instruction list, from `i`.
pub open spec fn spec_resolve_instrs(
    m: Seq<(String, usize)>,
    instrs: Seq<UnresolvedInstrView>,
    i: int,
) -> Result<Seq<UnresolvedInstrView>, ParseError>
    decreases instrs.len() - i,
{
    if !(0 <= i < instrs.len()) {
        Ok(Seq::empty())
    } else {
        match spec_resolve_operands(m, instrs[i].operands, 0) {
            Err(e) => Err(e),
            Ok(ops) => match spec_resolve_instrs(m, instrs, i + 1) {
                Err(e) => Err(e),
                Ok(rest) => Ok(
                    seq![UnresolvedInstrView { opcode: instrs[i].opcode, operands: ops }] + rest,
                ),
            },
        }
    }
}

/// Whether an operand list still holds an unresolved label reference.
pub open spec fn has_label_ref(ops: Seq<Spanned<UnresolvedOperand>>) -> bool {
    exists|k: int| 0 <= k < ops.len() && (#[trigger] ops[k].item) is LabelRef
}

/// The operand list of a resolved instruction; a surviving label
/// reference (excluded by the invalid-instruction check) projects to a
/// zero immediate.
pub open spec fn spec_convert_operands(ops: Seq<Spanned<UnresolvedOperand>>) -> Seq<Operand> {
    ops.map_values(
        |op: Spanned<UnresolvedOperand>|
            match op.item {
                UnresolvedOperand::Register(n) => Operand::Register(n),
                UnresolvedOperand::Immediate(v) => Operand::Immediate(v),
                UnresolvedOperand::LabelRef(_) => Operand::Immediate(0),
            },
    )
}

/// Validation and conversion from instruction `i` on: each instruction's
/// operands are checked against its opcode's format, an instruction that
/// still carries a label reference (possible only where the format checks
/// no kinds, as for `NoOP`) is an invalid instruction, and the first
/// failure aborts.
pub open spec fn spec_validate_instrs(instrs: Seq<UnresolvedInstrView>, i: int) -> Result<
    Seq<ResolvedInstrView>,
    ParseError,
>
    decreases instrs.len() - i,
{
    if !(0 <= i < instrs.len()) {
        Ok(Seq::empty())
    } else {
        match spec_validate(
            format_of(instrs[i].opcode.item),
            instrs[i].operands,
            spec_total_span(instrs[i]),
        ) {
            Err(e) => Err(e),
            Ok(_) => {
                if has_label_ref(instrs[i].operands) {
                    Err(ParseError::InvalidInstruction)
                } else {
                    match spec_validate_instrs(instrs, i + 1) {
                        Err(e) => Err(e),
                        Ok(rest) => Ok(
                            seq![
                                ResolvedInstrView {
                                    opcode: instrs[i].opcode.item,
                                    operands: spec_convert_operands(instrs[i].operands),
                                },
                            ] + rest,
                        ),
                    }
                }
            },
        }
    }
}

/// What parsing a token stream yields: the three parser passes and
/// validation, in order, stopping at the first error.
pub open spec fn spec_parse(tokens: Seq<Token>) -> Result<Seq<ResolvedInstrView>, ParseError> {
    match spec_label_map(tokens) {
        Err(e) => Err(e),
        Ok(m) => match spec_build_instrs(tokens, 0) {
            Err(e) => Err(e),
            Ok(instrs) => match spec_resolve_instrs(m, instrs, 0) {
                Err(e) => Err(e),
                Ok(resolved) => spec_validate_instrs(resolved, 0),
            },
        },
    }
}

/// The mathematical shape of a built instruction list.
pub open spec fn instr_views(instrs: Seq<UnresolvedInstruction>) -> Seq<UnresolvedInstrView> {
    instrs.map_values(|x: UnresolvedInstruction| x@)
}

/// The mathematical shape of a resolved instruction list.
pub open spec fn resolved_views(instrs: Seq<ResolvedInstruction>) -> Seq<ResolvedInstrView> {
    instrs.map_values(|x: ResolvedInstruction| x@)
}

/// Look a label name up in the map.
fn lookup(map: &LabelMap, name: &String) -> (r: Option<usize>)
    ensures
        r == lookup_label(map@, name@),
{
    let mut i: usize = 0;
    while i < map.len()
        invariant
            i <= map@.len(),
            lookup_label(map@, name@) == lookup_label_from(map@, i as int, name@),
        decreases map@.len() - i,
    {
        if map[i].0.eq(name) {
            return Some(map[i].1);
        }
        i = i + 1;
    }
    None
}

/// The parser's cursor over the token stream.
pub struct Parser {
    pub tokens: Vec<Token>,
    pub position: usize,
}

impl Parser {
    pub fn new(tokens: Vec<Token>) -> (r: Parser)
        ensures
            r.tokens@ == tokens@,
            r.position == 0,
    {
        Parser { tokens, position: 0 }
    }

    /// The token under the cursor, if any.
    pub fn peek(&self) -> (r: Option<&Token>)
        ensures
            match r {
                Some(t) => self.position < self.tokens@.len() && *t == self.tokens@[
                    self.position as int
                ],
                None => self.position >= self.tokens@.len(),
            },
    {
        if self.position < self.tokens.len() {
            Some(&self.tokens[self.position])
        } else {
            None
        }
    }

    /// Move the cursor to an absolute position.
    pub fn set_pos(&mut self, pos: usize)
        ensures
            final(self).tokens@ == old(self).tokens@,
            final(self).position == pos,
    {
        self.position = pos;
    }

    /// First pass: scan every token once, mapping each label definition
    /// to the index of the next instruction to be emitted, and failing
    /// with a duplicate-label error when a name is defined twice. The
    /// scan succeeds exactly when no label definition repeats an earlier
    /// name.
    pub fn generate_label_map(&mut self) -> (r: Result<LabelMap, ParseError>)
        ensures
            final(self).tokens@ == old(self).tokens@,
            final(self).position == old(self).position,
            match r {
                Ok(m) => spec_label_map(old(self).tokens@) == Ok::<_, ParseError>(m@),
                Err(e) => spec_label_map(old(self).tokens@) == Err::<Seq<(String, usize)>, _>(e),
            },
            r is Err <==> exists|j: int| #[trigger] duplicate_label_at(old(self).tokens@, j),
            r matches Err(e) ==> e is DuplicateLabel,
    {
        let ghost toks = self.tokens@;
        let mut label_map: LabelMap = Vec::new();
        let mut row_index: usize = 0;
        let mut i: usize = 0;
        while i < self.tokens.len()
            invariant
                self.tokens@ == toks,
                i <= toks.len(),
                row_index == instr_count(toks, i as int),
                spec_label_scan(toks, 0, Seq::empty()) == spec_label_scan(
                    toks,
                    i as int,
                    label_map@,
                ),
                forall|j: int| 0 <= j < i ==> !(#[trigger] duplicate_label_at(toks, j)),
                forall|j: int|
                    0 <= j < i ==> ((#[trigger] toks[j].kind) matches TokenKind::LabelDef(n)
                        ==> lookup_label(label_map@, n@) is Some),
                forall|k: int|
                    #![trigger label_map@[k]]
                    0 <= k < label_map@.len() ==> exists|j: int|
                        0 <= j < i && ((#[trigger] toks[j].kind) matches TokenKind::LabelDef(n)
                            && n@ == label_map@[k].0@),
            decreases toks.len() - i,
        {
            let ghost map_before = label_map@;
            match &self.tokens[i].kind {
                TokenKind::LabelDef(name) => {
                    match lookup(&label_map, name) {
                        Some(_) => {
                            proof {
                                lemma_lookup_some_means_member(map_before, name@);
                                let k = choose|k: int|
                                    0 <= k < map_before.len() && #[trigger] map_before[k].0@
                                        == name@;
                                let j = choose|j: int|
                                    0 <= j < i && ((#[trigger] toks[j].kind)
                                        matches TokenKind::LabelDef(n) && n@
                                        == map_before[k].0@);
                                assert(duplicate_label_at(toks, i as int));
                            }
                            return Err(
                                ParseError::DuplicateLabel {
                                    label: name.clone(),
                                    span: self.tokens[i].span,
                                },
                            );
                        },
                        None => {
                            label_map.push((name.clone(), row_index));
                            proof {
                                let entry = (toks[i as int].kind->LabelDef_0, row_index);
                                assert(label_map@ =~= map_before.push(entry));
                                assert(!duplicate_label_at(toks, i as int));
                                assert forall|n2: Seq<char>|
                                    true implies #[trigger] lookup_label(
                                    label_map@,
                                    n2,
                                ) == (if lookup_label(map_before, n2) is Some {
                                    lookup_label(map_before, n2)
                                } else if entry.0@ == n2 {
                                    Some(entry.1)
                                } else {
                                    None
                                }) by {
                                    lemma_lookup_push(map_before, entry, n2);
                                }
                            }
                        },
                    }
                },
                TokenKind::Opcode(_) => {
                    proof {
                        lemma_instr_count_le(toks, i as int);
                    }
                    row_index = row_index + 1;
                },
                _ => {},
            }
            i = i + 1;
        }
        proof {
            if exists|j: int| #[trigger] duplicate_label_at(toks, j) {
                let j = choose|j: int| #[trigger] duplicate_label_at(toks, j);
                assert(0 <= j < toks.len());
                assert(!duplicate_label_at(toks, j));
            }
        }
        Ok(label_map)
    }
}

/// How lookup behaves on a map extended at the end: an existing binding
/// wins, else the new entry is found by its name.
proof fn lemma_lookup_push(m: Seq<(String, usize)>, entry: (String, usize), name: Seq<char>)
    ensures
        lookup_label(m.push(entry), name) == (if lookup_label(m, name) is Some {
            lookup_label(m, name)
        } else if entry.0@ == name {
            Some(entry.1)
        } else {
            None
        }),
{
    lemma_lookup_from_push(m, entry, 0, name);
}

proof fn lemma_lookup_from_push(
    m: Seq<(String, usize)>,
    entry: (String, usize),
    i: int,
    name: Seq<char>,
)
    requires
        0 <= i <= m.len(),
    ensures
        lookup_label_from(m.push(entry), i, name) == (if lookup_label_from(m, i, name) is Some {
            lookup_label_from(m, i, name)
        } else if entry.0@ == name {
            Some(entry.1)
        } else {
            None
        }),
    decreases m.len() - i,
{
    let mp = m.push(entry);
    if i < m.len() {
        assert(mp[i] == m[i]);
        lemma_lookup_from_push(m, entry, i + 1, name);
    } else {
        assert(mp[i] == entry);
        assert(lookup_label_from(mp, i + 1, name) is None);
    }
}

/// A successful lookup names an entry of the map.
proof fn lemma_lookup_some_means_member(m: Seq<(String, usize)>, name: Seq<char>)
    requires
        lookup_label(m, name) is Some,
    ensures
        exists|k: int| 0 <= k < m.len() && #[trigger] m[k].0@ == name,
{
    lemma_lookup_from_some_means_member(m, 0, name);
}

proof fn lemma_lookup_from_some_means_member(m: Seq<(String, usize)>, i: int, name: Seq<char>)
    requires
        lookup_label_from(m, i, name) is Some,
    ensures
        exists|k: int| i <= k < m.len() && #[trigger] m[k].0@ == name,
    decreases m.len() - i,
{
    if 0 <= i < m.len() {
        if m[i].0@ == name {
        } else {
            lemma_lookup_from_some_means_member(m, i + 1, name);
        }
    }
}

/// Copy one token kind; label and comment text is duplicated.
fn clone_kind(k: &TokenKind) -> (r: TokenKind)
    ensures
        r == *k,
{
    match k {
        TokenKind::Opcode(op) => TokenKind::Opcode(*op),
        TokenKind::Register(n) => TokenKind::Register(*n),
        TokenKind::Immediate(v) => TokenKind::Immediate(*v),
        TokenKind::LabelDef(s) => TokenKind::LabelDef(s.clone()),
        TokenKind::LabelRef(s) => TokenKind::LabelRef(s.clone()),
        TokenKind::Comma => TokenKind::Comma,
        TokenKind::Comment(s) => TokenKind::Comment(s.clone()),
        TokenKind::Terminator => TokenKind::Terminator,
    }
}

/// Whether two token kinds are the same token, text included.
fn kind_eq(a: &TokenKind, b: &TokenKind) -> (r: bool)
    ensures
        r == (a@ == b@),
{
    match (a, b) {
        (TokenKind::Opcode(x), TokenKind::Opcode(y)) => x == y,
        (TokenKind::Register(x), TokenKind::Register(y)) => x == y,
        (TokenKind::Immediate(x), TokenKind::Immediate(y)) => x == y,
        (TokenKind::LabelDef(x), TokenKind::LabelDef(y)) => x.eq(y),
        (TokenKind::LabelRef(x), TokenKind::LabelRef(y)) => x.eq(y),
        (TokenKind::Comment(x), TokenKind::Comment(y)) => x.eq(y),
        (TokenKind::Comma, TokenKind::Comma) => true,
        (TokenKind::Terminator, TokenKind::Terminator) => true,
        _ => false,
    }
}

/// The display name of a token kind, used in expectation errors.
pub open spec fn token_kind_label(k: TokenKind) -> Seq<char> {
    match k {
        TokenKind::Opcode(_) => "Opcode"@,
        TokenKind::Register(_) => "Register"@,
        TokenKind::Immediate(_) => "Immediate"@,
        TokenKind::LabelDef(_) => "LabelDef"@,
        TokenKind::LabelRef(_) => "LabelRef"@,
        TokenKind::Comma => "Comma"@,
        TokenKind::Comment(_) => "Comment"@,
        TokenKind::Terminator => "Terminator"@,
    }
}

fn token_kind_name(k: &TokenKind) -> (r: String)
    ensures
        r@ == token_kind_label(*k),
{
    match k {
        TokenKind::Opcode(_) => String::from_str("Opcode"),
        TokenKind::Register(_) => String::from_str("Register"),
        TokenKind::Immediate(_) => String::from_str("Immediate"),
        TokenKind::LabelDef(_) => String::from_str("LabelDef"),
        TokenKind::LabelRef(_) => String::from_str("LabelRef"),
        TokenKind::Comma => String::from_str("Comma"),
        TokenKind::Comment(_) => String::from_str("Comment"),
        TokenKind::Terminator => String::from_str("Terminator"),
    }
}

impl Parser {
    /// Take the token under the cursor and advance past it.
    pub fn next(&mut self) -> (r: Option<Token>)
        ensures
            final(self).tokens@ == old(self).tokens@,
            match r {
                Some(t) => old(self).position < old(self).tokens@.len() && t == old(
                    self,
                ).tokens@[old(self).position as int] && final(self).position == old(self).position
                    + 1,
                None => old(self).position >= old(self).tokens@.len() && final(self).position
                    == old(self).position,
            },
    {
        if self.position < self.tokens.len() {
            let t = &self.tokens[self.position];
            let out = Token { kind: clone_kind(&t.kind), span: t.span };
            self.position = self.position + 1;
            Some(out)
        } else {
            None
        }
    }

    /// Take the next token, demanding a particular kind; a different kind
    /// is an unexpected-token error naming what was expected and found,
    /// and exhausted input is an end-of-input error.
    pub fn expect(&mut self, kind: TokenKind) -> (r: Result<Token, ParseError>)
        ensures
            final(self).tokens@ == old(self).tokens@,
            match r {
                Ok(t) => {
                    &&& old(self).position < old(self).tokens@.len()
                    &&& t == old(self).tokens@[old(self).position as int]
                    &&& t.kind@ == kind@
                    &&& final(self).position == old(self).position + 1
                },
                Err(e) => match e {
                    ParseError::UnexpectedToken { expected, found, span } => {
                        &&& old(self).position < old(self).tokens@.len()
                        &&& old(self).tokens@[old(self).position as int].kind@ != kind@
                        &&& expected@ == token_kind_label(kind)
                        &&& found@ == token_kind_label(
                            old(self).tokens@[old(self).position as int].kind,
                        )
                        &&& span == old(self).tokens@[old(self).position as int].span
                        &&& final(self).position == old(self).position + 1
                    },
                    ParseError::UnexpectedEndOfInput => {
                        &&& old(self).position >= old(self).tokens@.len()
                        &&& final(self).position == old(self).position
                    },
                    _ => false,
                },
            },
    {
        match self.next() {
            Some(tok) => {
                if kind_eq(&tok.kind, &kind) {
                    Ok(tok)
                } else {
                    Err(
                        ParseError::UnexpectedToken {
                            expected: token_kind_name(&kind),
                            found: token_kind_name(&tok.kind),
                            span: tok.span,
                        },
                    )
                }
            },
            None => Err(ParseError::UnexpectedEndOfInput),
        }
    }

    /// Collect the operands after an opcode: registers, immediates and
    /// label references, with separators and comments skipped, until the
    /// next opcode or label definition. A register outside `0..REGISTER_LIMIT`
    /// is rejected on the spot.
    pub fn parse_operands(&mut self) -> (r: Result<Vec<Spanned<UnresolvedOperand>>, ParseError>)
        requires
            old(self).position <= old(self).tokens@.len(),
        ensures
            final(self).tokens@ == old(self).tokens@,
            final(self).position >= old(self).position,
            final(self).position <= final(self).tokens@.len(),
            ({
                let c = spec_collect_operands(old(self).tokens@, old(self).position as int);
                match c.1 {
                    Ok(s) => r matches Ok(v) && v@ == s && final(self).position == c.0,
                    Err(e) => r == Err::<Vec<Spanned<UnresolvedOperand>>, ParseError>(e),
                }
            }),
    {
        let ghost toks = self.tokens@;
        let ghost p0 = old(self).position as int;
        let mut operands: Vec<Spanned<UnresolvedOperand>> = Vec::new();
        loop
            invariant
                self.tokens@ == toks,
                p0 <= self.position <= toks.len(),
                ({
                    let c0 = spec_collect_operands(toks, p0);
                    let c1 = spec_collect_operands(toks, self.position as int);
                    match c1.1 {
                        Ok(s1) => c0 == (c1.0, Ok::<_, ParseError>(operands@ + s1)),
                        Err(e) => c0 == (
                            c1.0,
                            Err::<Seq<Spanned<UnresolvedOperand>>, ParseError>(e),
                        ),
                    }
                }),
            decreases toks.len() - self.position,
        {
            let ghost ops_before = operands@;
            if self.position >= self.tokens.len() {
                proof {
                    assert(operands@ + Seq::<Spanned<UnresolvedOperand>>::empty() =~= operands@);
                }
                return Ok(operands);
            }
            let span = self.tokens[self.position].span;
            match &self.tokens[self.position].kind {
                TokenKind::Opcode(_) => {
                    proof {
                        assert(operands@ + Seq::<Spanned<UnresolvedOperand>>::empty()
                            =~= operands@);
                    }
                    return Ok(operands);
                },
                TokenKind::LabelDef(_) => {
                    proof {
                        assert(operands@ + Seq::<Spanned<UnresolvedOperand>>::empty()
                            =~= operands@);
                    }
                    return Ok(operands);
                },
                TokenKind::Register(n) => {
                    if *n >= REGISTER_LIMIT {
                        return Err(ParseError::InvalidRegister { span });
                    }
                    let sp = Spanned::new(UnresolvedOperand::Register(*n as u8), span);
                    operands.push(sp);
                    self.position = self.position + 1;
                    proof {
                        lemma_collect_push(toks, ops_before, sp, self.position as int);
                    }
                },
                TokenKind::Immediate(v) => {
                    let sp = Spanned::new(UnresolvedOperand::Immediate(*v), span);
                    operands.push(sp);
                    self.position = self.position + 1;
                    proof {
                        lemma_collect_push(toks, ops_before, sp, self.position as int);
                    }
                },
                TokenKind::LabelRef(l) => {
                    let sp = Spanned::new(UnresolvedOperand::LabelRef(l.clone()), span);
                    operands.push(sp);
                    self.position = self.position + 1;
                    proof {
                        lemma_collect_push(toks, ops_before, sp, self.position as int);
                    }
                },
                _ => {
                    self.position = self.position + 1;
                },
            }
        }
    }

    /// Run the whole parse: the label scan, the instruction build, label
    /// substitution and validation, in order, surfacing the first error.
    pub fn parse_instructions(&mut self) -> (r: Result<Vec<ResolvedInstruction>, ParseError>)
        ensures
            final(self).tokens@ == old(self).tokens@,
            r matches Ok(v) ==> spec_parse(old(self).tokens@) == Ok::<_, ParseError>(
                resolved_views(v@),
            ),
            r matches Err(e) ==> spec_parse(old(self).tokens@) == Err::<Seq<ResolvedInstrView>,
                _,
            >(e),
    {
        let ghost toks = self.tokens@;
        let label_map = match self.generate_label_map() {
            Ok(m) => m,
            Err(e) => {
                return Err(e);
            },
        };
        self.set_pos(0);
        let mut instructions: Vec<UnresolvedInstruction> = Vec::new();
        while self.position < self.tokens.len()
            invariant
                self.tokens@ == toks,
                self.position <= toks.len(),
                ({
                    match spec_build_instrs(toks, self.position as int) {
                        Ok(rest) => spec_build_instrs(toks, 0) == Ok::<_, ParseError>(
                            instr_views(instructions@) + rest,
                        ),
                        Err(e) => spec_build_instrs(toks, 0) == Err::<
                            Seq<UnresolvedInstrView>,
                            ParseError,
                        >(e),
                    }
                }),
            decreases toks.len() - self.position,
        {
            let ghost pos_entry = self.position as int;
            let ghost instrs_before = instructions@;
            let span = self.tokens[self.position].span;
            match &self.tokens[self.position].kind {
                TokenKind::Opcode(op) => {
                    let op = *op;
                    self.position = self.position + 1;
                    match self.parse_operands() {
                        Err(e) => {
                            return Err(e);
                        },
                        Ok(operands) => {
                            instructions.push(
                                UnresolvedInstruction { opcode: Spanned::new(op, span), operands },
                            );
                            proof {
                                let iv = UnresolvedInstrView {
                                    opcode: Spanned { item: op, span },
                                    operands: instructions@.last().operands@,
                                };
                                assert(instr_views(instructions@) =~= instr_views(
                                    instrs_before,
                                ).push(instructions@.last()@));
                                if spec_build_instrs(toks, self.position as int) is Ok {
                                    let rest = spec_build_instrs(
                                        toks,
                                        self.position as int,
                                    )->Ok_0;
                                    assert(instr_views(instrs_before) + (seq![
                                        instructions@.last()@,
                                    ] + rest) =~= instr_views(instructions@) + rest);
                                }
                            }
                        },
                    }
                },
                _ => {
                    self.position = self.position + 1;
                },
            }
        }
        proof {
            assert(instr_views(instructions@) + Seq::<UnresolvedInstrView>::empty() =~= instr_views(
                instructions@,
            ));
        }
        match resolve_labels(&mut instructions, &label_map) {
            Err(e) => {
                return Err(e);
            },
            Ok(_) => {},
        }
        match validate_instructions(&instructions) {
            Err(e) => Err(e),
            Ok(resolved) => Ok(resolved),
        }
    }
}

/// One collection step: appending the operand the spec prepends keeps the
/// collected-so-far plus remainder decomposition intact.
proof fn lemma_collect_push(
    toks: Seq<Token>,
    ops_before: Seq<Spanned<UnresolvedOperand>>,
    x: Spanned<UnresolvedOperand>,
    pos: int,
)
    ensures
        ({
            match spec_collect_operands(toks, pos).1 {
                Ok(s1) => ops_before + (seq![x] + s1) =~= ops_before.push(x) + s1,
                Err(_) => true,
            }
        }),
{
    match spec_collect_operands(toks, pos).1 {
        Ok(s1) => {
            assert(ops_before + (seq![x] + s1) =~= ops_before.push(x) + s1);
        },
        Err(_) => {},
    }
}

/// Third pass: substitute every label reference with the immediate index
/// its name maps to, keeping all other operands; the first reference to
/// an unmapped name fails with an undefined-label error carrying that
/// operand's span.
pub fn resolve_labels(
    instructions: &mut Vec<UnresolvedInstruction>,
    labels: &LabelMap,
) -> (r: Result<(), ParseError>)
    ensures
        match spec_resolve_instrs(labels@, instr_views(old(instructions)@), 0) {
            Ok(s) => r is Ok && instr_views(final(instructions)@) == s,
            Err(e) => r == Err::<(), ParseError>(e) && final(instructions)@ == old(
                instructions,
            )@,
        },
{
    let ghost views0 = instr_views(instructions@);
    let mut out: Vec<UnresolvedInstruction> = Vec::new();
    let mut i: usize = 0;
    while i < instructions.len()
        invariant
            instructions@ == old(instructions)@,
            i <= views0.len(),
            views0 == instr_views(instructions@),
            ({
                match spec_resolve_instrs(labels@, views0, i as int) {
                    Ok(rest) => spec_resolve_instrs(labels@, views0, 0) == Ok::<_, ParseError>(
                        instr_views(out@) + rest,
                    ),
                    Err(e) => spec_resolve_instrs(labels@, views0, 0) == Err::<
                        Seq<UnresolvedInstrView>,
                        ParseError,
                    >(e),
                }
            }),
        decreases views0.len() - i,
    {
        let ghost out_before = out@;
        let inst = &instructions[i];
        let ghost ops0 = inst.operands@;
        let mut new_ops: Vec<Spanned<UnresolvedOperand>> = Vec::new();
        let mut k: usize = 0;
        while k < inst.operands.len()
            invariant
                k <= ops0.len(),
                ops0 == inst.operands@,
                inst == &instructions@[i as int],
                0 <= i < instructions@.len(),
                ({
                    match spec_resolve_operands(labels@, ops0, k as int) {
                        Ok(rest) => spec_resolve_operands(labels@, ops0, 0) == Ok::<_, ParseError>(
                            new_ops@ + rest,
                        ),
                        Err(e) => spec_resolve_operands(labels@, ops0, 0) == Err::<
                            Seq<Spanned<UnresolvedOperand>>,
                            ParseError,
                        >(e),
                    }
                }),
            decreases ops0.len() - k,
        {
            let ghost new_ops_before = new_ops@;
            let span = inst.operands[k].span;
            match &inst.operands[k].item {
                UnresolvedOperand::LabelRef(l) => {
                    match lookup(labels, l) {
                        Some(idx) => {
                            new_ops.push(Spanned::new(UnresolvedOperand::Immediate(idx), span));
                        },
                        None => {
                            return Err(ParseError::UndefinedLabel { label: l.clone(), span });
                        },
                    }
                },
                UnresolvedOperand::Register(n) => {
                    new_ops.push(Spanned::new(UnresolvedOperand::Register(*n), span));
                },
                UnresolvedOperand::Immediate(v) => {
                    new_ops.push(Spanned::new(UnresolvedOperand::Immediate(*v), span));
                },
            }
            proof {
                match spec_resolve_operands(labels@, ops0, k + 1) {
                    Ok(rest) => {
                        assert(new_ops_before + (seq![new_ops@.last()] + rest) =~= new_ops@
                            + rest);
                    },
                    Err(_) => {},
                }
            }
            k = k + 1;
        }
        proof {
            assert(new_ops@ + Seq::<Spanned<UnresolvedOperand>>::empty() =~= new_ops@);
        }
        out.push(UnresolvedInstruction { opcode: inst.opcode, operands: new_ops });
        proof {
            assert(instr_views(out@) =~= instr_views(out_before).push(out@.last()@));
            match spec_resolve_instrs(labels@, views0, i + 1) {
                Ok(rest) => {
                    assert(instr_views(out_before) + (seq![out@.last()@] + rest) =~= instr_views(
                        out@,
                    ) + rest);
                },
                Err(_) => {},
            }
        }
        i = i + 1;
    }
    proof {
        assert(instr_views(out@) + Seq::<UnresolvedInstrView>::empty() =~= instr_views(out@));
    }
    *instructions = out;
    Ok(())
}

/// Final pass: check every instruction's operands against its opcode's
/// format and project the survivors onto the codec's plain shape; the
/// first mismatch aborts with its located error, and an instruction that
/// still carries an unresolved label reference is invalid.
pub fn validate_instructions(
    instructions: &Vec<UnresolvedInstruction>,
) -> (r: Result<Vec<ResolvedInstruction>, ParseError>)
    ensures
        match spec_validate_instrs(instr_views(instructions@), 0) {
            Ok(s) => r matches Ok(v) && resolved_views(v@) == s,
            Err(e) => r == Err::<Vec<ResolvedInstruction>, ParseError>(e),
        },
{
    let ghost views = instr_views(instructions@);
    let mut res: Vec<ResolvedInstruction> = Vec::new();
    let mut i: usize = 0;
    while i < instructions.len()
        invariant
            i <= views.len(),
            views == instr_views(instructions@),
            ({
                match spec_validate_instrs(views, i as int) {
                    Ok(rest) => spec_validate_instrs(views, 0) == Ok::<_, ParseError>(
                        resolved_views(res@) + rest,
                    ),
                    Err(e) => spec_validate_instrs(views, 0) == Err::<
                        Seq<ResolvedInstrView>,
                        ParseError,
                    >(e),
                }
            }),
        decreases views.len() - i,
    {
        let ghost res_before = res@;
        let inst = &instructions[i];
        let span = inst.get_total_span();
        let fmt = inst.opcode.item.instruction_format();
        match fmt.validate(&inst.operands, &span) {
            Err(e) => {
                return Err(e);
            },
            Ok(_) => {},
        }
        match inst.to_resolved() {
            Some(ri) => {
                proof {
                    assert(!has_label_ref(inst.operands@));
                }
                res.push(ri);
                proof {
                    assert(resolved_views(res@) =~= resolved_views(res_before).push(
                        res@.last()@,
                    ));
                    match spec_validate_instrs(views, i + 1) {
                        Ok(rest) => {
                            assert(resolved_views(res_before) + (seq![res@.last()@] + rest)
                                =~= resolved_views(res@) + rest);
                        },
                        Err(_) => {},
                    }
                }
            },
            None => {
                proof {
                    assert(has_label_ref(inst.operands@));
                }
                return Err(ParseError::InvalidInstruction);
            },
        }
        i = i + 1;
    }
    proof {
        assert(resolved_views(res@) + Seq::<ResolvedInstrView>::empty() =~= resolved_views(res@));
    }
    Ok(res)
}

} // verus!

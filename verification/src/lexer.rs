//! Lexical analysis: raw source text to a flat token stream. Lexing is
//! total and never fails; unrecognized characters are silently skipped.
//!
//! Positions, spans and line numbers count characters, with lines numbered
//! from zero; on all-ASCII sources character offsets coincide with byte
//! offsets.

use vstd::prelude::*;

use crate::isa::Opcode;

verus! {

/// A source location: the character offsets a token covers and the line it
/// began on.
#[derive(Debug, Clone, Copy, PartialEq, Eq, Structural)]
pub struct Span {
    pub start: usize,
    pub end: usize,
    pub line: usize,
}

/// One lexical unit of the assembly language.
#[derive(Debug, Clone, PartialEq)]
pub enum TokenKind {
    Opcode(Opcode),
    Register(usize),
    Immediate(usize),
    LabelDef(String),
    LabelRef(String),
    Comma,
    Comment(String),
    Terminator,
}

/// A token instance with its kind and position in the input.
#[derive(Debug, Clone, PartialEq)]
pub struct Token {
    pub kind: TokenKind,
    pub span: Span,
}

/// The mathematical shape of a token kind: label and comment text as
/// plain character sequences.
#[verifier::ext_equal]
pub enum LexTokenKind {
    Opcode(Opcode),
    Register(usize),
    Immediate(usize),
    LabelDef(Seq<char>),
    LabelRef(Seq<char>),
    Comma,
    Comment(Seq<char>),
    Terminator,
}

/// The mathematical shape of a token.
#[verifier::ext_equal]
pub struct LexToken {
    pub kind: LexTokenKind,
    pub span: Span,
}

impl View for TokenKind {
    type V = LexTokenKind;

    open spec fn view(&self) -> LexTokenKind {
        match self {
            TokenKind::Opcode(op) => LexTokenKind::Opcode(*op),
            TokenKind::Register(n) => LexTokenKind::Register(*n),
            TokenKind::Immediate(n) => LexTokenKind::Immediate(*n),
            TokenKind::LabelDef(s) => LexTokenKind::LabelDef(s@),
            TokenKind::LabelRef(s) => LexTokenKind::LabelRef(s@),
            TokenKind::Comma => LexTokenKind::Comma,
            TokenKind::Comment(s) => LexTokenKind::Comment(s@),
            TokenKind::Terminator => LexTokenKind::Terminator,
        }
    }
}

impl View for Token {
    type V = LexToken;

    open spec fn view(&self) -> LexToken {
        LexToken { kind: self.kind@, span: self.span }
    }
}

/// The whitespace characters the lexer skips.
pub open spec fn is_space_char(c: char) -> bool {
    c == ' ' || c == '\t' || c == '\r' || c == '\n'
}

/// ASCII decimal digits.
pub open spec fn is_digit_char(c: char) -> bool {
    48 <= (c as u32) <= 57
}

/// ASCII letters; an identifier starts with one.
pub open spec fn is_alpha_char(c: char) -> bool {
    (65 <= (c as u32) <= 90) || (97 <= (c as u32) <= 122)
}

/// The characters an identifier may continue with.
pub open spec fn is_ident_char(c: char) -> bool {
    is_alpha_char(c) || is_digit_char(c) || c == '_' || c == ':'
}

/// The numeric value of a decimal digit character.
pub open spec fn digit_val(c: char) -> nat
    recommends
        is_digit_char(c),
{
    ((c as u32) - 48) as nat
}

/// Zero-based line number of position `p`: the count of newlines strictly
/// before it.
pub open spec fn line_of(s: Seq<char>, p: int) -> nat
    decreases p,
{
    if p <= 0 {
        0
    } else {
        line_of(s, p - 1) + if s[p - 1] == '\n' {
            1nat
        } else {
            0nat
        }
    }
}

/// End of the maximal digit run starting at `i`.
pub open spec fn digit_run_end(s: Seq<char>, i: int) -> int
    decreases s.len() - i,
{
    if 0 <= i < s.len() && is_digit_char(s[i]) {
        digit_run_end(s, i + 1)
    } else {
        i
    }
}

/// End of the maximal identifier-character run starting at `i`.
pub open spec fn ident_run_end(s: Seq<char>, i: int) -> int
    decreases s.len() - i,
{
    if 0 <= i < s.len() && is_ident_char(s[i]) {
        ident_run_end(s, i + 1)
    } else {
        i
    }
}

/// End of a comment's text: the next newline at or after `i`, or the end
/// of the input.
pub open spec fn comment_end(s: Seq<char>, i: int) -> int
    decreases s.len() - i,
{
    if 0 <= i < s.len() && s[i] != '\n' {
        comment_end(s, i + 1)
    } else {
        i
    }
}

/// The decimal value of the digit run `s[i..j]`, most significant digit
/// first.
pub open spec fn digits_value(s: Seq<char>, i: int, j: int) -> nat
    decreases j - i,
{
    if i < j {
        digits_value(s, i, j - 1) * 10 + digit_val(s[j - 1])
    } else {
        0
    }
}

/// A digit run's value clamped to what a machine word holds; an immense
/// literal saturates rather than wrapping, so it still fails encoding
/// later instead of silently becoming a small number.
pub open spec fn clamped_digits_value(s: Seq<char>, i: int, j: int) -> usize {
    if digits_value(s, i, j) > usize::MAX {
        usize::MAX
    } else {
        digits_value(s, i, j) as usize
    }
}

/// Strip trailing colons from `s[i..j]`: the end of the run once every
/// trailing `:` is removed.
pub open spec fn trim_colons_end(s: Seq<char>, i: int, j: int) -> int
    decreases j - i,
{
    if i < j && s[j - 1] == ':' {
        trim_colons_end(s, i, j - 1)
    } else {
        j
    }
}

/// The classification of one identifier run `s[i..j]`: a label definition
/// when it ends with a colon, else an opcode when it matches a mnemonic,
/// else a label reference.
pub open spec fn ident_token_kind(s: Seq<char>, i: int, j: int) -> LexTokenKind {
    if i < j && s[j - 1] == ':' {
        LexTokenKind::LabelDef(s.subrange(i, trim_colons_end(s, i, j)))
    } else {
        match crate::isa::spec_opcode_from_mnemonic(s.subrange(i, j)) {
            Some(op) => LexTokenKind::Opcode(op),
            None => LexTokenKind::LabelRef(s.subrange(i, j)),
        }
    }
}

/// The token stream from position `pos` to the end of the input: the
/// lexing rules of the grammar, applied greedily at the cursor. Lexing is
/// total; whitespace and unrecognized characters yield no token.
pub open spec fn spec_lex_from(s: Seq<char>, pos: int) -> Seq<LexToken>
    decreases s.len() - pos,
{
    if !(0 <= pos < s.len()) {
        Seq::empty()
    } else {
        let c = s[pos];
        let line = line_of(s, pos) as usize;
        if is_space_char(c) {
            spec_lex_from(s, pos + 1)
        } else if c == '#' {
            let end = comment_end(s, pos + 1);
            let next = if pos + 1 < end && end <= s.len() {
                end
            } else {
                pos + 1
            };
            seq![
                LexToken {
                    kind: LexTokenKind::Comment(s.subrange(pos + 1, next)),
                    span: Span {
                        start: pos as usize,
                        end: (pos + (next - pos - 1)) as usize,
                        line,
                    },
                },
            ] + spec_lex_from(s, next)
        } else if c == ',' {
            seq![
                LexToken {
                    kind: LexTokenKind::Comma,
                    span: Span { start: pos as usize, end: (pos + 1) as usize, line },
                },
            ] + spec_lex_from(s, pos + 1)
        } else if c == ';' {
            seq![
                LexToken {
                    kind: LexTokenKind::Terminator,
                    span: Span { start: pos as usize, end: (pos + 1) as usize, line },
                },
            ] + spec_lex_from(s, pos + 1)
        } else if is_digit_char(c) || (c == '-' && pos + 1 < s.len() && is_digit_char(
            s[pos + 1],
        )) {
            let dstart = if c == '-' {
                pos + 1
            } else {
                pos
            };
            let end = digit_run_end(s, dstart);
            let next = if pos + 1 < end && end <= s.len() {
                end
            } else {
                pos + 1
            };
            seq![
                LexToken {
                    kind: LexTokenKind::Immediate(clamped_digits_value(s, dstart, next)),
                    span: Span { start: pos as usize, end: next as usize, line },
                },
            ] + spec_lex_from(s, next)
        } else if c == 'R' && pos + 1 < s.len() && is_digit_char(s[pos + 1]) {
            let end = digit_run_end(s, pos + 1);
            let next = if pos + 1 < end && end <= s.len() {
                end
            } else {
                pos + 1
            };
            seq![
                LexToken {
                    kind: LexTokenKind::Register(clamped_digits_value(s, pos + 1, next)),
                    span: Span { start: pos as usize, end: next as usize, line },
                },
            ] + spec_lex_from(s, next)
        } else if is_alpha_char(c) {
            let end = ident_run_end(s, pos + 1);
            let next = if pos + 1 < end && end <= s.len() {
                end
            } else {
                pos + 1
            };
            seq![
                LexToken {
                    kind: ident_token_kind(s, pos, next),
                    span: Span { start: pos as usize, end: next as usize, line },
                },
            ] + spec_lex_from(s, next)
        } else {
            spec_lex_from(s, pos + 1)
        }
    }
}

/// The token stream of a whole source text.
pub open spec fn spec_lex(s: Seq<char>) -> Seq<LexToken> {
    spec_lex_from(s, 0)
}

/// The mathematical shape of a produced token vector.
pub open spec fn token_views(ts: Seq<Token>) -> Seq<LexToken> {
    ts.map_values(|t: Token| t@)
}

/// A line number never exceeds the position it is taken at.
pub(crate) proof fn lemma_line_of_le(s: Seq<char>, p: int)
    requires
        p >= 0,
    ensures
        line_of(s, p) <= p,
    decreases p,
{
    if p > 0 {
        lemma_line_of_le(s, p - 1);
    }
}

/// Positions separated only by non-newline characters lie on one line.
proof fn lemma_line_of_run(s: Seq<char>, a: int, b: int)
    requires
        0 <= a <= b,
        forall|k: int| a <= k < b ==> s[k] != '\n',
    ensures
        line_of(s, b) == line_of(s, a),
    decreases b - a,
{
    if a < b {
        lemma_line_of_run(s, a, b - 1);
    }
}

fn is_space(c: char) -> (b: bool)
    ensures
        b == is_space_char(c),
{
    c == ' ' || c == '\t' || c == '\r' || c == '\n'
}

fn is_digit(c: char) -> (b: bool)
    ensures
        b == is_digit_char(c),
{
    let v = c as u32;
    48 <= v && v <= 57
}

fn is_alpha(c: char) -> (b: bool)
    ensures
        b == is_alpha_char(c),
{
    let v = c as u32;
    (65 <= v && v <= 90) || (97 <= v && v <= 122)
}

fn is_ident(c: char) -> (b: bool)
    ensures
        b == is_ident_char(c),
{
    is_alpha(c) || is_digit(c) || c == '_' || c == ':'
}

/// Relies on String's `FromIterator` over `char`: collecting a vector of
/// characters yields the string of exactly those characters in order.
#[verifier::external_body]
pub(crate) fn collect_string(v: Vec<char>) -> (r: String)
    ensures
        r@ == v@,
{
    v.into_iter().collect()
}

/// The characters of a string slice, in order.
pub(crate) fn collect_chars(input: &str) -> (r: Vec<char>)
    ensures
        r@ == input@,
        r@.len() <= usize::MAX,
{
    let n = input.unicode_len();
    let mut v: Vec<char> = Vec::new();
    let mut i: usize = 0;
    while i < n
        invariant
            i <= n,
            n == input@.len(),
            v@ == input@.subrange(0, i as int),
        decreases n - i,
    {
        v.push(input.get_char(i));
        proof {
            assert(v@ =~= input@.subrange(0, i + 1));
        }
        i = i + 1;
    }
    proof {
        assert(v@ =~= input@);
    }
    v
}

/// Copy `chars[from..to]` into an owned string.
pub(crate) fn chars_to_string(chars: &Vec<char>, from: usize, to: usize) -> (r: String)
    requires
        from <= to <= chars@.len(),
    ensures
        r@ == chars@.subrange(from as int, to as int),
{
    let mut v: Vec<char> = Vec::new();
    let mut k: usize = from;
    while k < to
        invariant
            from <= k <= to <= chars@.len(),
            v@ == chars@.subrange(from as int, k as int),
        decreases to - k,
    {
        v.push(chars[k]);
        proof {
            assert(v@ =~= chars@.subrange(from as int, k + 1));
        }
        k = k + 1;
    }
    collect_string(v)
}

/// Advance over the maximal digit run starting at `from`.
fn scan_digits(chars: &Vec<char>, from: usize) -> (end: usize)
    requires
        from <= chars@.len(),
    ensures
        end == digit_run_end(chars@, from as int),
        from <= end <= chars@.len(),
        from < chars@.len() && is_digit_char(chars@[from as int]) ==> end > from,
        forall|k: int| from <= k < end ==> is_digit_char(#[trigger] chars@[k]),
{
    let mut j: usize = from;
    while j < chars.len() && is_digit(chars[j])
        invariant
            from <= j <= chars@.len(),
            digit_run_end(chars@, from as int) == digit_run_end(chars@, j as int),
            forall|k: int| from <= k < j ==> is_digit_char(#[trigger] chars@[k]),
        decreases chars@.len() - j,
    {
        j = j + 1;
    }
    j
}

/// Advance over the maximal identifier-character run starting at `from`.
fn scan_ident(chars: &Vec<char>, from: usize) -> (end: usize)
    requires
        from <= chars@.len(),
    ensures
        end == ident_run_end(chars@, from as int),
        from <= end <= chars@.len(),
        from < chars@.len() && is_ident_char(chars@[from as int]) ==> end > from,
        forall|k: int| from <= k < end ==> is_ident_char(#[trigger] chars@[k]),
{
    let mut j: usize = from;
    while j < chars.len() && is_ident(chars[j])
        invariant
            from <= j <= chars@.len(),
            ident_run_end(chars@, from as int) == ident_run_end(chars@, j as int),
            forall|k: int| from <= k < j ==> is_ident_char(#[trigger] chars@[k]),
        decreases chars@.len() - j,
    {
        j = j + 1;
    }
    j
}

/// Advance to the end of a comment's text: the next newline or the end of
/// the input.
pub(crate) fn scan_comment(chars: &Vec<char>, from: usize) -> (end: usize)
    requires
        from <= chars@.len(),
    ensures
        end == comment_end(chars@, from as int),
        from <= end <= chars@.len(),
        forall|k: int| from <= k < end ==> #[trigger] chars@[k] != '\n',
{
    let mut j: usize = from;
    while j < chars.len() && chars[j] != '\n'
        invariant
            from <= j <= chars@.len(),
            comment_end(chars@, from as int) == comment_end(chars@, j as int),
            forall|k: int| from <= k < j ==> #[trigger] chars@[k] != '\n',
        decreases chars@.len() - j,
    {
        j = j + 1;
    }
    j
}

/// The decimal value of the digit run `chars[from..to]`, saturating at
/// the largest machine value.
fn digits_to_value(chars: &Vec<char>, from: usize, to: usize) -> (r: usize)
    requires
        from <= to <= chars@.len(),
        forall|k: int| from <= k < to ==> is_digit_char(#[trigger] chars@[k]),
    ensures
        r == clamped_digits_value(chars@, from as int, to as int),
{
    let mut acc: usize = 0;
    let mut j: usize = from;
    while j < to
        invariant
            from <= j <= to <= chars@.len(),
            forall|k: int| from <= k < to ==> is_digit_char(#[trigger] chars@[k]),
            acc == clamped_digits_value(chars@, from as int, j as int),
        decreases to - j,
    {
        let ghost g = digits_value(chars@, from as int, j as int);
        let ghost gnew = digits_value(chars@, from as int, j + 1);
        let d: u32 = (chars[j] as u32) - 48;
        let du: usize = d as usize;
        proof {
            assert(gnew == g * 10 + du);
        }
        if acc > (usize::MAX - du) / 10 {
            proof {
                assert(g * 10 + du > usize::MAX) by (nonlinear_arith)
                    requires
                        g >= acc,
                        acc > (usize::MAX - du) / 10,
                        du <= usize::MAX,
                        g >= 0,
                ;
            }
            acc = usize::MAX;
        } else {
            proof {
                assert(acc * 10 + du <= usize::MAX) by (nonlinear_arith)
                    requires
                        acc <= (usize::MAX - du) / 10,
                        du <= usize::MAX,
                ;
                assert(g == acc) by {
                    if g > usize::MAX {
                        assert((usize::MAX - du) / 10 < usize::MAX) by (nonlinear_arith)
                            requires
                                du <= usize::MAX,
                        ;
                    }
                }
            }
            acc = acc * 10 + du;
        }
        j = j + 1;
    }
    acc
}

/// The lexer's cursor state: the input as characters, the current
/// position, and the line that position lies on.
pub struct Lexer {
    pub chars: Vec<char>,
    pub position: usize,
    pub line: usize,
}

impl Lexer {
    /// The cursor is inside the input and the line counter matches the
    /// position.
    pub open spec fn wf(self) -> bool {
        &&& self.chars@.len() <= usize::MAX
        &&& self.position <= self.chars@.len()
        &&& self.line == line_of(self.chars@, self.position as int)
    }

    pub fn new(input: &str) -> (r: Lexer)
        ensures
            r.chars@ == input@,
            r.position == 0,
            r.line == 0,
            r.wf(),
    {
        Lexer { chars: collect_chars(input), position: 0, line: 0 }
    }

    /// Lex from the cursor to the end of the input: every remaining token
    /// of the grammar, in input order. On a fresh lexer this is the whole
    /// token stream of the source.
    pub fn lex(self) -> (r: Vec<Token>)
        requires
            self.wf(),
        ensures
            token_views(r@) == spec_lex_from(self.chars@, self.position as int),
            self.position == 0 ==> token_views(r@) == spec_lex(self.chars@),
    {
        let ghost s = self.chars@;
        let ghost p0 = self.position as int;
        let mut lx = self;
        let mut tokens: Vec<Token> = Vec::new();
        loop
            invariant
                lx.wf(),
                lx.chars@ == s,
                token_views(tokens@) + spec_lex_from(s, lx.position as int) == spec_lex_from(
                    s,
                    p0,
                ),
            decreases s.len() - lx.position,
        {
            let ghost toks_before = tokens@;
            match lx.next_token() {
                Some(tok) => {
                    let ghost tv = tok@;
                    tokens.push(tok);
                    proof {
                        assert(token_views(tokens@) =~= token_views(toks_before).push(tv));
                        assert(token_views(tokens@) + spec_lex_from(s, lx.position as int)
                            =~= token_views(toks_before) + (seq![tv] + spec_lex_from(
                            s,
                            lx.position as int,
                        )));
                    }
                },
                None => {
                    proof {
                        assert(token_views(tokens@) + spec_lex_from(s, lx.position as int)
                            =~= token_views(tokens@));
                    }
                    return tokens;
                },
            }
        }
    }

    /// Skip whitespace and unrecognized characters, then produce the next
    /// token, or `None` at the end of the input.
    fn next_token(&mut self) -> (r: Option<Token>)
        requires
            old(self).wf(),
        ensures
            final(self).wf(),
            final(self).chars@ == old(self).chars@,
            match r {
                Some(t) => spec_lex_from(old(self).chars@, old(self).position as int) == seq![t@]
                    + spec_lex_from(final(self).chars@, final(self).position as int)
                    && final(self).position > old(self).position,
                None => spec_lex_from(old(self).chars@, old(self).position as int)
                    == Seq::<LexToken>::empty() && final(self).position == old(self).chars@.len(),
            },
    {
        let ghost s = old(self).chars@;
        let ghost p0 = old(self).position as int;
        loop
            invariant
                self.wf(),
                self.chars@ == s,
                self.position >= p0,
                spec_lex_from(s, p0) == spec_lex_from(s, self.position as int),
            decreases s.len() - self.position,
        {
            if self.position >= self.chars.len() {
                return None;
            }
            let c = self.chars[self.position];
            if is_space(c) {
                proof {
                    lemma_line_of_le(s, self.position + 1);
                }
                if c == '\n' {
                    self.line = self.line + 1;
                }
                self.position = self.position + 1;
            } else if c == '#' {
                return Some(self.parse_comment());
            } else if c == ',' {
                let tok = Token {
                    kind: TokenKind::Comma,
                    span: Span {
                        start: self.position,
                        end: self.position + 1,
                        line: self.line,
                    },
                };
                self.position = self.position + 1;
                return Some(tok);
            } else if c == ';' {
                let tok = Token {
                    kind: TokenKind::Terminator,
                    span: Span {
                        start: self.position,
                        end: self.position + 1,
                        line: self.line,
                    },
                };
                self.position = self.position + 1;
                return Some(tok);
            } else if is_digit(c) {
                return Some(self.parse_number());
            } else if c == '-' {
                if self.position + 1 < self.chars.len() && is_digit(
                    self.chars[self.position + 1],
                ) {
                    return Some(self.parse_number());
                }
                self.position = self.position + 1;
            } else if is_alpha(c) {
                return Some(self.branch_identifier());
            } else {
                self.position = self.position + 1;
            }
        }
    }

    /// Lex one comment: everything from `#` up to (not including) the
    /// next newline.
    fn parse_comment(&mut self) -> (r: Token)
        requires
            old(self).wf(),
            old(self).position < old(self).chars@.len(),
            old(self).chars@[old(self).position as int] == '#',
        ensures
            final(self).wf(),
            final(self).chars@ == old(self).chars@,
            final(self).position > old(self).position,
            spec_lex_from(old(self).chars@, old(self).position as int) == seq![r@]
                + spec_lex_from(final(self).chars@, final(self).position as int),
    {
        let ghost s = old(self).chars@;
        let start = self.position;
        let j = scan_comment(&self.chars, start + 1);
        let text = chars_to_string(&self.chars, start + 1, j);
        let tok = Token {
            kind: TokenKind::Comment(text),
            span: Span { start, end: j - 1, line: self.line },
        };
        proof {
            lemma_line_of_run(s, start as int, j as int);
        }
        self.position = j;
        proof {
            assert(spec_lex_from(s, start as int) =~= seq![tok@] + spec_lex_from(s, j as int));
        }
        tok
    }

    /// Lex one number: an optional minus sign (recorded only in the span)
    /// followed by a maximal digit run, valued by its magnitude.
    fn parse_number(&mut self) -> (r: Token)
        requires
            old(self).wf(),
            old(self).position < old(self).chars@.len(),
            is_digit_char(old(self).chars@[old(self).position as int]) || (old(
                self,
            ).chars@[old(self).position as int] == '-' && old(self).position + 1 < old(
                self,
            ).chars@.len() && is_digit_char(old(self).chars@[old(self).position + 1])),
        ensures
            final(self).wf(),
            final(self).chars@ == old(self).chars@,
            final(self).position > old(self).position,
            spec_lex_from(old(self).chars@, old(self).position as int) == seq![r@]
                + spec_lex_from(final(self).chars@, final(self).position as int),
    {
        let ghost s = old(self).chars@;
        let start = self.position;
        let dstart = if self.chars[start] == '-' {
            start + 1
        } else {
            start
        };
        let j = scan_digits(&self.chars, dstart);
        let value = digits_to_value(&self.chars, dstart, j);
        let tok = Token {
            kind: TokenKind::Immediate(value),
            span: Span { start, end: j, line: self.line },
        };
        proof {
            lemma_line_of_run(s, start as int, j as int);
        }
        self.position = j;
        proof {
            assert(spec_lex_from(s, start as int) =~= seq![tok@] + spec_lex_from(s, j as int));
        }
        tok
    }

    /// Lex one register: `R` followed by a maximal digit run.
    fn parse_register(&mut self) -> (r: Token)
        requires
            old(self).wf(),
            old(self).position < old(self).chars@.len(),
            old(self).chars@[old(self).position as int] == 'R',
            old(self).position + 1 < old(self).chars@.len(),
            is_digit_char(old(self).chars@[old(self).position + 1]),
        ensures
            final(self).wf(),
            final(self).chars@ == old(self).chars@,
            final(self).position > old(self).position,
            spec_lex_from(old(self).chars@, old(self).position as int) == seq![r@]
                + spec_lex_from(final(self).chars@, final(self).position as int),
    {
        let ghost s = old(self).chars@;
        let start = self.position;
        let j = scan_digits(&self.chars, start + 1);
        let value = digits_to_value(&self.chars, start + 1, j);
        let tok = Token {
            kind: TokenKind::Register(value),
            span: Span { start, end: j, line: self.line },
        };
        proof {
            lemma_line_of_run(s, start as int, j as int);
        }
        self.position = j;
        proof {
            assert(spec_lex_from(s, start as int) =~= seq![tok@] + spec_lex_from(s, j as int));
        }
        tok
    }

    /// Decide whether an alphabetic start is a register or an
    /// identifier, and lex it.
    fn branch_identifier(&mut self) -> (r: Token)
        requires
            old(self).wf(),
            old(self).position < old(self).chars@.len(),
            is_alpha_char(old(self).chars@[old(self).position as int]),
        ensures
            final(self).wf(),
            final(self).chars@ == old(self).chars@,
            final(self).position > old(self).position,
            spec_lex_from(old(self).chars@, old(self).position as int) == seq![r@]
                + spec_lex_from(final(self).chars@, final(self).position as int),
    {
        let c = self.chars[self.position];
        if c == 'R' && self.position + 1 < self.chars.len() && is_digit(
            self.chars[self.position + 1],
        ) {
            self.parse_register()
        } else {
            self.parse_identifier()
        }
    }

    /// Lex one identifier: an opcode mnemonic, a label definition (when
    /// it ends with a colon), or a label reference.
    fn parse_identifier(&mut self) -> (r: Token)
        requires
            old(self).wf(),
            old(self).position < old(self).chars@.len(),
            is_alpha_char(old(self).chars@[old(self).position as int]),
            !(old(self).chars@[old(self).position as int] == 'R' && old(self).position + 1 < old(
                self,
            ).chars@.len() && is_digit_char(old(self).chars@[old(self).position + 1])),
        ensures
            final(self).wf(),
            final(self).chars@ == old(self).chars@,
            final(self).position > old(self).position,
            spec_lex_from(old(self).chars@, old(self).position as int) == seq![r@]
                + spec_lex_from(final(self).chars@, final(self).position as int),
    {
        let ghost s = old(self).chars@;
        let start = self.position;
        let j = scan_ident(&self.chars, start + 1);
        let kind: TokenKind = if self.chars[j - 1] == ':' {
            let mut t: usize = j;
            while t > start && self.chars[t - 1] == ':'
                invariant
                    start <= t <= j <= self.chars@.len(),
                    self.chars@ == s,
                    trim_colons_end(s, start as int, j as int) == trim_colons_end(
                        s,
                        start as int,
                        t as int,
                    ),
                decreases t,
            {
                t = t - 1;
            }
            TokenKind::LabelDef(chars_to_string(&self.chars, start, t))
        } else {
            let text = chars_to_string(&self.chars, start, j);
            match Opcode::from_str(text.as_str()) {
                Some(op) => TokenKind::Opcode(op),
                None => TokenKind::LabelRef(text),
            }
        };
        let tok = Token { kind, span: Span { start, end: j, line: self.line } };
        proof {
            lemma_line_of_run(s, start as int, j as int);
        }
        self.position = j;
        proof {
            assert(spec_lex_from(s, start as int) =~= seq![tok@] + spec_lex_from(s, j as int));
        }
        tok
    }
}

} // verus!

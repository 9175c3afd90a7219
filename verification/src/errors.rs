//! Parse-time errors. Every variant carries exactly the structured context
//! needed to render a located message; no stage recovers after a fault.
//!
//! Rendering shows the offending source line with a column-aligned caret
//! span and a short message.

use vstd::prelude::*;
use vstd::string::StringExecFns;

use crate::lexer::{
    collect_chars, collect_string, comment_end, line_of, scan_comment, Span,
};

verus! {

#[derive(Debug, Clone, PartialEq)]
pub enum ParseError {
    UnexpectedToken { expected: String, found: String, span: Span },
    UnexpectedEndOfInput,
    DuplicateLabel { label: String, span: Span },
    UndefinedLabel { label: String, span: Span },
    OperandCountMismatch { expected: usize, found: usize, span: Span },
    OperandTypeMismatch { span: Span },
    InvalidRegister { span: Span },
    InvalidInstruction,
}

/// The decimal digit character for one digit value.
pub open spec fn dec_digit_char(d: nat) -> char {
    ((48 + d) as u8) as char
}

/// The decimal rendering of a number, most significant digit first.
pub open spec fn dec_digits(n: nat) -> Seq<char>
    decreases n,
{
    if n < 10 {
        seq![dec_digit_char(n)]
    } else {
        dec_digits(n / 10) + seq![dec_digit_char(n % 10)]
    }
}

/// A run of spaces.
pub open spec fn spaces(n: nat) -> Seq<char> {
    Seq::new(n, |i: int| ' ')
}

/// A run of carets.
pub open spec fn carets(n: nat) -> Seq<char> {
    Seq::new(n, |i: int| '^')
}

/// The one-based line number shown for a zero-based line, saturating at
/// the machine maximum.
pub open spec fn line_display(l: usize) -> nat {
    if l == usize::MAX {
        usize::MAX as nat
    } else {
        (l + 1) as nat
    }
}

/// How many lines the source has, counting a trailing partial line and
/// not counting a trailing newline as opening one more.
pub open spec fn spec_line_count(s: Seq<char>) -> nat {
    if s.len() == 0 {
        0
    } else if s[s.len() - 1] == '\n' {
        line_of(s, s.len() as int)
    } else {
        line_of(s, s.len() as int) + 1
    }
}

/// The character position at which line `l` starts.
pub open spec fn line_start_pos(s: Seq<char>, l: nat) -> int
    decreases l,
{
    if l == 0 {
        0
    } else {
        let e = comment_end(s, line_start_pos(s, (l - 1) as nat));
        if e < s.len() {
            e + 1
        } else {
            e
        }
    }
}

/// The located part of a rendered error: the source line under a line
/// number gutter, with carets under the span and a short message, or a
/// bare line reference when the span's line is outside the source.
pub open spec fn spec_render_location(source: Seq<char>, span: Span, message: Seq<char>) -> Seq<
    char,
> {
    if span.line >= spec_line_count(source) {
        "  at line "@ + dec_digits(line_display(span.line))
    } else {
        let lstart = line_start_pos(source, span.line as nat);
        let lend = comment_end(source, lstart);
        let num = dec_digits(line_display(span.line));
        let width = num.len();
        let col_start: int = if span.start >= lstart {
            span.start - lstart
        } else {
            0
        };
        let col_end: int = if span.end >= lstart {
            span.end - lstart
        } else {
            0
        };
        let ncarets: int = if col_end > col_start {
            col_end - col_start
        } else {
            1
        };
        spaces(width) + " |\n"@ + num + " | "@ + source.subrange(lstart, lend) + "\n"@ + spaces(
            width,
        ) + " | "@ + spaces(col_start as nat) + carets(ncarets as nat) + " "@ + message
    }
}

/// The full rendered message of each error, with its source context.
pub open spec fn spec_display_with_source(e: &ParseError, source: Seq<char>) -> Seq<char> {
    match e {
        ParseError::UnexpectedToken { expected, found, span } => "Parse Error: Expected "@
            + expected@ + ", found "@ + found@ + "\n"@ + spec_render_location(
            source,
            *span,
            "unexpected token here"@,
        ),
        ParseError::UnexpectedEndOfInput => "Parse Error: Unexpected end of input"@,
        ParseError::DuplicateLabel { label, span } => "Parse Error: Duplicate label '"@ + label@
            + "'\n"@ + spec_render_location(source, *span, "label already defined"@),
        ParseError::UndefinedLabel { label, span } => "Parse Error: Undefined label '"@ + label@
            + "'\n"@ + spec_render_location(source, *span, "label not found"@),
        ParseError::OperandCountMismatch { expected, found, span } => {
            "Parse Error: Operand count mismatch, expected "@ + dec_digits(*expected as nat)
                + ", found "@ + dec_digits(*found as nat) + "\n"@ + spec_render_location(
                source,
                *span,
                "wrong number of operands"@,
            )
        },
        ParseError::OperandTypeMismatch { span } => "Parse Error: Operand type mismatch\n"@
            + spec_render_location(source, *span, "incorrect operand type"@),
        ParseError::InvalidRegister { span } => "Parse Error: Invalid register\n"@
            + spec_render_location(source, *span, "register out of range"@),
        ParseError::InvalidInstruction => "Parse Error: Invalid instruction"@,
    }
}

/// The decimal digits of a number, as characters.
fn digits_vec(n: usize) -> (v: Vec<char>)
    ensures
        v@ == dec_digits(n as nat),
    decreases n,
{
    if n < 10 {
        let c = (48 + (n as u8)) as char;
        vec![c]
    } else {
        let mut v = digits_vec(n / 10);
        let c = (48 + ((n % 10) as u8)) as char;
        v.push(c);
        proof {
            assert(v@ =~= dec_digits(n as nat));
        }
        v
    }
}

/// Render a number in decimal.
fn usize_to_string(n: usize) -> (r: String)
    ensures
        r@ == dec_digits(n as nat),
{
    collect_string(digits_vec(n))
}

/// A string of `n` copies of one character.
fn repeat_char(c: char, n: usize) -> (r: String)
    ensures
        r@ == Seq::new(n as nat, |i: int| c),
{
    let mut v: Vec<char> = Vec::new();
    let mut i: usize = 0;
    while i < n
        invariant
            i <= n,
            v@ == Seq::new(i as nat, |k: int| c),
        decreases n - i,
    {
        v.push(c);
        proof {
            assert(v@ =~= Seq::new((i + 1) as nat, |k: int| c));
        }
        i = i + 1;
    }
    collect_string(v)
}

/// Count the source's lines.
fn line_count(chars: &Vec<char>) -> (r: usize)
    ensures
        r == spec_line_count(chars@),
{
    let mut newlines: usize = 0;
    let mut i: usize = 0;
    while i < chars.len()
        invariant
            i <= chars@.len(),
            newlines <= i,
            newlines == line_of(chars@, i as int),
        decreases chars@.len() - i,
    {
        if chars[i] == '\n' {
            newlines = newlines + 1;
        }
        i = i + 1;
    }
    if chars.len() == 0 {
        0
    } else if chars[chars.len() - 1] == '\n' {
        newlines
    } else {
        proof {
            crate::lexer::lemma_line_of_le(chars@, chars@.len() - 1);
        }
        newlines + 1
    }
}

/// Find the character position at which line `l` starts.
fn find_line_start(chars: &Vec<char>, l: usize) -> (r: usize)
    ensures
        r == line_start_pos(chars@, l as nat),
        r <= chars@.len(),
{
    let mut p: usize = 0;
    let mut k: usize = 0;
    while k < l
        invariant
            k <= l,
            p <= chars@.len(),
            p == line_start_pos(chars@, k as nat),
        decreases l - k,
    {
        let e = scan_comment(chars, p);
        p = if e < chars.len() {
            e + 1
        } else {
            e
        };
        k = k + 1;
    }
    p
}

/// Format an error's source context: the offending line with a
/// column-aligned caret span and a short message.
fn format_error_location(source: &str, span: &Span, message: &str) -> (r: String)
    ensures
        r@ == spec_render_location(source@, *span, message@),
{
    let chars = collect_chars(source);
    let n_lines = line_count(&chars);
    let line1: usize = if span.line == usize::MAX {
        usize::MAX
    } else {
        span.line + 1
    };
    let digits = digits_vec(line1);
    let width = digits.len();
    let num = collect_string(digits);
    if span.line >= n_lines {
        let mut out = String::from_str("  at line ");
        out.append(num.as_str());
        return out;
    }
    let lstart = find_line_start(&chars, span.line);
    let lend = scan_comment(&chars, lstart);
    let line_text = crate::lexer::chars_to_string(&chars, lstart, lend);
    let col_start: usize = if span.start >= lstart {
        span.start - lstart
    } else {
        0
    };
    let col_end: usize = if span.end >= lstart {
        span.end - lstart
    } else {
        0
    };
    let ncarets: usize = if col_end > col_start {
        col_end - col_start
    } else {
        1
    };
    let gutter = repeat_char(' ', width);
    let indent = repeat_char(' ', col_start);
    let caret_run = repeat_char('^', ncarets);
    let mut out = String::new();
    out.append(gutter.as_str());
    out.append(" |\n");
    out.append(num.as_str());
    out.append(" | ");
    out.append(line_text.as_str());
    out.append("\n");
    out.append(gutter.as_str());
    out.append(" | ");
    out.append(indent.as_str());
    out.append(caret_run.as_str());
    out.append(" ");
    out.append(message);
    proof {
        assert(out@ =~= spec_render_location(source@, *span, message@));
    }
    out
}

impl ParseError {
    /// Render this error with the source line it points into, a
    /// column-aligned caret span and a short message.
    pub fn display_with_source(&self, source: &str) -> (r: String)
        ensures
            r@ == spec_display_with_source(self, source@),
    {
        match self {
            ParseError::UnexpectedToken { expected, found, span } => {
                let mut out = String::from_str("Parse Error: Expected ");
                out.append(expected.as_str());
                out.append(", found ");
                out.append(found.as_str());
                out.append("\n");
                let loc = format_error_location(source, span, "unexpected token here");
                out.append(loc.as_str());
                proof {
                    assert(out@ =~= spec_display_with_source(self, source@));
                }
                out
            },
            ParseError::UnexpectedEndOfInput => String::from_str(
                "Parse Error: Unexpected end of input",
            ),
            ParseError::DuplicateLabel { label, span } => {
                let mut out = String::from_str("Parse Error: Duplicate label '");
                out.append(label.as_str());
                out.append("'\n");
                let loc = format_error_location(source, span, "label already defined");
                out.append(loc.as_str());
                proof {
                    assert(out@ =~= spec_display_with_source(self, source@));
                }
                out
            },
            ParseError::UndefinedLabel { label, span } => {
                let mut out = String::from_str("Parse Error: Undefined label '");
                out.append(label.as_str());
                out.append("'\n");
                let loc = format_error_location(source, span, "label not found");
                out.append(loc.as_str());
                proof {
                    assert(out@ =~= spec_display_with_source(self, source@));
                }
                out
            },
            ParseError::OperandCountMismatch { expected, found, span } => {
                let mut out = String::from_str("Parse Error: Operand count mismatch, expected ");
                let e_str = usize_to_string(*expected);
                out.append(e_str.as_str());
                out.append(", found ");
                let f_str = usize_to_string(*found);
                out.append(f_str.as_str());
                out.append("\n");
                let loc = format_error_location(source, span, "wrong number of operands");
                out.append(loc.as_str());
                proof {
                    assert(out@ =~= spec_display_with_source(self, source@));
                }
                out
            },
            ParseError::OperandTypeMismatch { span } => {
                let mut out = String::from_str("Parse Error: Operand type mismatch\n");
                let loc = format_error_location(source, span, "incorrect operand type");
                out.append(loc.as_str());
                proof {
                    assert(out@ =~= spec_display_with_source(self, source@));
                }
                out
            },
            ParseError::InvalidRegister { span } => {
                let mut out = String::from_str("Parse Error: Invalid register\n");
                let loc = format_error_location(source, span, "register out of range");
                out.append(loc.as_str());
                proof {
                    assert(out@ =~= spec_display_with_source(self, source@));
                }
                out
            },
            ParseError::InvalidInstruction => String::from_str("Parse Error: Invalid instruction"),
        }
    }
}

} // verus!

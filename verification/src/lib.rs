//! An assembler for a custom 32-bit fixed-width instruction set, plus the
//! inverse decoder.
//!
//! The pipeline runs in strict stages: source text is lexed into tokens,
//! parsed in two passes (a label scan followed by instruction building),
//! label references are substituted with instruction indices, operand
//! patterns are validated against each opcode's format, and finally each
//! instruction is packed bit-exactly into a 32-bit word. Decoding inverts
//! the last stage only.

#![verifier::loop_isolation(false)]

use vstd::prelude::*;

pub mod bits;
pub mod codec;
pub mod encoder;
pub mod errors;
pub mod isa;
pub mod lexer;
pub mod parser;
pub mod traits;

use crate::errors::{spec_display_with_source, ParseError};
use crate::isa::Instruction;
use crate::lexer::{spec_lex, token_views, Lexer, Token};
use crate::parser::{resolved_views, spec_parse, Parser};

verus! {

/// Run the pipeline's front half on source text: lex it, then parse the
/// tokens through all three parser passes and validation. A failure is
/// rendered with its source context.
pub fn parse_source(source: &str) -> (r: Result<Vec<Instruction>, String>)
    ensures
        exists|tokens: Seq<Token>|
            #[trigger] token_views(tokens) == spec_lex(source@) && match r {
                Ok(v) => spec_parse(tokens) == Ok::<_, ParseError>(resolved_views(v@)),
                Err(s) => exists|e: ParseError|
                    spec_parse(tokens) == Err::<Seq<crate::isa::ResolvedInstrView>, _>(e) && s@
                        == spec_display_with_source(&e, source@),
            },
{
    let lexer = Lexer::new(source);
    let tokens = lexer.lex();
    let ghost toks = tokens@;
    let mut parser = Parser::new(tokens);
    match parser.parse_instructions() {
        Ok(instructions) => {
            proof {
                assert(token_views(toks) == spec_lex(source@));
            }
            Ok(instructions)
        },
        Err(e) => {
            let rendered = e.display_with_source(source);
            proof {
                assert(token_views(toks) == spec_lex(source@));
                assert(spec_parse(toks) == Err::<Seq<crate::isa::ResolvedInstrView>, _>(e));
            }
            Err(rendered)
        },
    }
}

} // verus!

//! Conversion and codec traits shared by the assembler's stages.

use vstd::prelude::*;

use crate::encoder::{encode_instruction, EncodeError};
use crate::isa::{Operand, ResolvedInstruction, UnresolvedInstruction, UnresolvedOperand};
use crate::parser::spec_convert_operands;

verus! {

/// Projection of a span-carrying instruction onto the codec's plain
/// shape; fails while a label reference is still unresolved.
pub trait ToResolvedInstr {
    fn to_resolved(&self) -> Option<ResolvedInstruction>;
}

/// Encoding into a 32-bit word with a located error. An implementor
/// states what it encodes to as `encode_spec`, and its `encode` returns
/// exactly that.
pub trait Encodable {
    type EncodingError;

    spec fn encode_spec(&self) -> Result<u32, Self::EncodingError>;

    fn encode(&self) -> (r: Result<u32, Self::EncodingError>)
        ensures
            r == self.encode_spec(),
    ;
}

impl ToResolvedInstr for UnresolvedInstruction {
    /// Drop the spans and keep the operands; succeeds exactly when no
    /// label reference survives.
    fn to_resolved(&self) -> (r: Option<ResolvedInstruction>)
        ensures
            r is Some <==> (forall|k: int|
                0 <= k < self.operands@.len() ==> !(#[trigger] self.operands@[k].item is LabelRef)),
            r matches Some(ri) ==> ri.opcode == self.opcode.item && ri.operands@
                == spec_convert_operands(self.operands@),
    {
        let mut resolved_ops: Vec<Operand> = Vec::new();
        let mut k: usize = 0;
        while k < self.operands.len()
            invariant
                k <= self.operands@.len(),
                resolved_ops@.len() == k,
                forall|j: int| 0 <= j < k ==> !(#[trigger] self.operands@[j].item is LabelRef),
                forall|j: int|
                    0 <= j < k ==> resolved_ops@[j] == spec_convert_operands(self.operands@)[j],
            decreases self.operands@.len() - k,
        {
            match &self.operands[k].item {
                UnresolvedOperand::Register(n) => {
                    resolved_ops.push(Operand::Register(*n));
                },
                UnresolvedOperand::Immediate(v) => {
                    resolved_ops.push(Operand::Immediate(*v));
                },
                UnresolvedOperand::LabelRef(_) => {
                    return None;
                },
            }
            k = k + 1;
        }
        proof {
            assert(resolved_ops@ =~= spec_convert_operands(self.operands@));
        }
        Some(ResolvedInstruction { opcode: self.opcode.item, operands: resolved_ops })
    }
}

impl Encodable for ResolvedInstruction {
    type EncodingError = EncodeError;

    /// What this instruction encodes to: the instruction encoder's exact
    /// word, or its exact error in check order.
    open spec fn encode_spec(&self) -> Result<u32, EncodeError> {
        crate::encoder::spec_encode_instruction(self)
    }

    /// Encode through the instruction encoder.
    fn encode(&self) -> Result<u32, EncodeError> {
        encode_instruction(self)
    }
}

} // verus!

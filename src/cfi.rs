use vstd::prelude::*;

use crate::error::FrameError;
use crate::leb128::{sleb128, uleb128, write_sleb128, write_uleb128};

verus! {

/// A DWARF register number.
pub type Register = u16;

/// One call frame instruction, as written in an entry's instruction stream.
#[derive(Debug, Clone, Copy, PartialEq, Eq, Structural)]
pub enum CallFrameInstruction {
    /// Move the location forward by this many code units.
    AdvanceLoc(u32),
    /// The CFA is now this register plus this offset.
    DefCfa(Register, u32),
    /// The CFA is now this register, with the offset unchanged.
    DefCfaRegister(Register),
    /// The CFA is now this offset from the same register.
    DefCfaOffset(u32),
    /// The register is saved at CFA plus this factored offset times the data
    /// alignment factor.
    Offset(Register, i32),
}

pub const DW_CFA_ADVANCE_LOC: u8 = 0x40;
pub const DW_CFA_OFFSET: u8 = 0x80;
pub const DW_CFA_OFFSET_EXTENDED: u8 = 0x05;
pub const DW_CFA_DEF_CFA: u8 = 0x0c;
pub const DW_CFA_DEF_CFA_REGISTER: u8 = 0x0d;
pub const DW_CFA_DEF_CFA_OFFSET: u8 = 0x0e;
pub const DW_CFA_OFFSET_EXTENDED_SF: u8 = 0x11;

/// Whether the instruction has an encoding: an advance must fit the six bits
/// of the one-byte form.
pub open spec fn encodable(i: CallFrameInstruction) -> bool {
    match i {
        CallFrameInstruction::AdvanceLoc(delta) => delta < 64,
        _ => true,
    }
}

/// Whether every instruction of `s` has an encoding.
pub open spec fn all_encodable(s: Seq<CallFrameInstruction>) -> bool {
    forall|k: int| 0 <= k < s.len() ==> encodable(#[trigger] s[k])
}

/// The bytes of one instruction.
pub open spec fn encode_instruction(i: CallFrameInstruction) -> Seq<u8> {
    match i {
        CallFrameInstruction::AdvanceLoc(delta) => seq![(DW_CFA_ADVANCE_LOC + delta) as u8],
        CallFrameInstruction::DefCfa(reg, offset) => seq![DW_CFA_DEF_CFA] + uleb128(reg as nat)
            + uleb128(offset as nat),
        CallFrameInstruction::DefCfaRegister(reg) => seq![DW_CFA_DEF_CFA_REGISTER] + uleb128(
            reg as nat,
        ),
        CallFrameInstruction::DefCfaOffset(offset) => seq![DW_CFA_DEF_CFA_OFFSET] + uleb128(
            offset as nat,
        ),
        CallFrameInstruction::Offset(reg, factored) => if factored < 0 {
            seq![DW_CFA_OFFSET_EXTENDED_SF] + uleb128(reg as nat) + sleb128(factored as int)
        } else if reg < 64 {
            seq![(DW_CFA_OFFSET + reg) as u8] + uleb128(factored as nat)
        } else {
            seq![DW_CFA_OFFSET_EXTENDED] + uleb128(reg as nat) + uleb128(factored as nat)
        },
    }
}

/// The bytes of an instruction stream: each instruction's bytes in turn.
pub open spec fn encode_instructions(s: Seq<CallFrameInstruction>) -> Seq<u8>
    decreases s.len(),
{
    if s.len() == 0 {
        seq![]
    } else {
        encode_instructions(s.drop_last()) + encode_instruction(s.last())
    }
}

/// Appends the encoding of `i` to `out`, or fails on an advance that is too large.
pub fn write_instruction(out: &mut Vec<u8>, i: CallFrameInstruction) -> (r: Result<(), FrameError>)
    ensures
        r is Ok <==> encodable(i),
        r is Err ==> r == Err::<(), FrameError>(FrameError::AdvanceTooLarge),
        r is Ok ==> final(out)@ == old(out)@ + encode_instruction(i),
{
    let ghost start = out@;
    match i {
        CallFrameInstruction::AdvanceLoc(delta) => {
            if delta >= 64 {
                return Err(FrameError::AdvanceTooLarge);
            }
            out.push(DW_CFA_ADVANCE_LOC + delta as u8);
        },
        CallFrameInstruction::DefCfa(reg, offset) => {
            out.push(DW_CFA_DEF_CFA);
            write_uleb128(out, reg as u64);
            write_uleb128(out, offset as u64);
            assert(out@ == start + encode_instruction(i));
        },
        CallFrameInstruction::DefCfaRegister(reg) => {
            out.push(DW_CFA_DEF_CFA_REGISTER);
            write_uleb128(out, reg as u64);
            assert(out@ == start + encode_instruction(i));
        },
        CallFrameInstruction::DefCfaOffset(offset) => {
            out.push(DW_CFA_DEF_CFA_OFFSET);
            write_uleb128(out, offset as u64);
            assert(out@ == start + encode_instruction(i));
        },
        CallFrameInstruction::Offset(reg, factored) => {
            if factored < 0 {
                out.push(DW_CFA_OFFSET_EXTENDED_SF);
                write_uleb128(out, reg as u64);
                write_sleb128(out, factored as i64);
            } else if reg < 64 {
                out.push(DW_CFA_OFFSET + reg as u8);
                write_uleb128(out, factored as u64);
            } else {
                out.push(DW_CFA_OFFSET_EXTENDED);
                write_uleb128(out, reg as u64);
                write_uleb128(out, factored as u64);
            }
            assert(out@ == start + encode_instruction(i));
        },
    }
    Ok(())
}

/// Appends the encoding of every instruction of `instrs` to `out`, or fails on
/// the first advance that is too large.
pub fn write_instructions(out: &mut Vec<u8>, instrs: &Vec<CallFrameInstruction>) -> (r: Result<
    (),
    FrameError,
>)
    ensures
        r is Ok <==> all_encodable(instrs@),
        r is Err ==> r == Err::<(), FrameError>(FrameError::AdvanceTooLarge),
        r is Ok ==> final(out)@ == old(out)@ + encode_instructions(instrs@),
{
    let mut k: usize = 0;
    while k < instrs.len()
        invariant
            k <= instrs@.len(),
            all_encodable(instrs@.subrange(0, k as int)),
            out@ == old(out)@ + encode_instructions(instrs@.subrange(0, k as int)),
        decreases instrs@.len() - k,
    {
        let r = write_instruction(out, instrs[k]);
        if r.is_err() {
            return r;
        }
        proof {
            let s = instrs@.subrange(0, k + 1);
            assert(s.drop_last() == instrs@.subrange(0, k as int));
            assert(s.last() == instrs@[k as int]);
            assert forall|j: int| 0 <= j < s.len() implies encodable(#[trigger] s[j]) by {
                if j < k {
                    assert(s[j] == instrs@.subrange(0, k as int)[j]);
                }
            }
        }
        k = k + 1;
    }
    assert(instrs@.subrange(0, k as int) == instrs@);
    Ok(())
}

} // verus!

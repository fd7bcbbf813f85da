use vstd::prelude::*;

use crate::cfi::{
    all_encodable, encodable, encode_instruction, encode_instructions, CallFrameInstruction,
    DW_CFA_DEF_CFA, DW_CFA_DEF_CFA_OFFSET, DW_CFA_DEF_CFA_REGISTER, DW_CFA_OFFSET_EXTENDED,
    DW_CFA_OFFSET_EXTENDED_SF,
};
use crate::leb128::{sleb128, uleb128};

verus! {

/// Reads a ULEB128 value from the front of `b`: the value and the number of
/// bytes it took.
pub open spec fn read_uleb128(b: Seq<u8>) -> Option<(nat, nat)>
    decreases b.len(),
{
    if b.len() == 0 {
        None
    } else if b[0] < 128 {
        Some((b[0] as nat, 1))
    } else {
        match read_uleb128(b.drop_first()) {
            Some((v, n)) => Some(((b[0] - 128) as nat + 128 * v, n + 1)),
            None => None,
        }
    }
}

/// Reads a SLEB128 value from the front of `b`: the value and the number of
/// bytes it took. Bit 6 of the last byte is the sign.
pub open spec fn read_sleb128(b: Seq<u8>) -> Option<(int, nat)>
    decreases b.len(),
{
    if b.len() == 0 {
        None
    } else if b[0] < 128 {
        Some((if b[0] >= 64 { b[0] - 128 } else { b[0] as int }, 1))
    } else {
        match read_sleb128(b.drop_first()) {
            Some((v, n)) => Some(((b[0] - 128) + 128 * v, n + 1)),
            None => None,
        }
    }
}

/// Reads a register operand and then an unsigned operand after `b[0]`.
pub open spec fn read_register_and_uleb(b: Seq<u8>) -> Option<(nat, nat, nat)> {
    match read_uleb128(b.drop_first()) {
        Some((r, n)) => match read_uleb128(b.skip(1 + n as int)) {
            Some((v, m)) => Some((r, v, 1 + n + m)),
            None => None,
        },
        None => None,
    }
}

/// Reads one instruction from the front of `b`, as a DWARF consumer reads
/// it: the instruction and the number of bytes it took.
pub open spec fn read_instruction(b: Seq<u8>) -> Option<(CallFrameInstruction, nat)> {
    if b.len() == 0 {
        None
    } else {
        let op = b[0];
        if 64 <= op < 128 {
            Some((CallFrameInstruction::AdvanceLoc((op - 64) as u32), 1))
        } else if op >= 128 {
            match read_uleb128(b.drop_first()) {
                Some((f, n)) => Some(
                    (CallFrameInstruction::Offset((op - 128) as u16, f as i32), n + 1),
                ),
                None => None,
            }
        } else if op == DW_CFA_DEF_CFA {
            match read_register_and_uleb(b) {
                Some((r, v, n)) => Some((CallFrameInstruction::DefCfa(r as u16, v as u32), n)),
                None => None,
            }
        } else if op == DW_CFA_DEF_CFA_REGISTER {
            match read_uleb128(b.drop_first()) {
                Some((r, n)) => Some((CallFrameInstruction::DefCfaRegister(r as u16), n + 1)),
                None => None,
            }
        } else if op == DW_CFA_DEF_CFA_OFFSET {
            match read_uleb128(b.drop_first()) {
                Some((v, n)) => Some((CallFrameInstruction::DefCfaOffset(v as u32), n + 1)),
                None => None,
            }
        } else if op == DW_CFA_OFFSET_EXTENDED {
            match read_register_and_uleb(b) {
                Some((r, v, n)) => Some((CallFrameInstruction::Offset(r as u16, v as i32), n)),
                None => None,
            }
        } else if op == DW_CFA_OFFSET_EXTENDED_SF {
            match read_uleb128(b.drop_first()) {
                Some((r, n)) => match read_sleb128(b.skip(1 + n as int)) {
                    Some((v, m)) => Some(
                        (CallFrameInstruction::Offset(r as u16, v as i32), 1 + n + m),
                    ),
                    None => None,
                },
                None => None,
            }
        } else {
            None
        }
    }
}

/// Reads a whole instruction stream.
pub open spec fn read_instructions(b: Seq<u8>) -> Option<Seq<CallFrameInstruction>>
    decreases b.len(),
{
    if b.len() == 0 {
        Some(seq![])
    } else {
        match read_instruction(b) {
            Some((i, n)) => if 0 < n <= b.len() {
                match read_instructions(b.skip(n as int)) {
                    Some(s) => Some(seq![i] + s),
                    None => None,
                }
            } else {
                None
            },
            None => None,
        }
    }
}

proof fn lemma_read_uleb128(v: nat, rest: Seq<u8>)
    ensures
        uleb128(v).len() >= 1,
        read_uleb128(uleb128(v) + rest) == Some((v, uleb128(v).len())),
    decreases v,
{
    let b = uleb128(v) + rest;
    if v >= 128 {
        lemma_read_uleb128(v / 128, rest);
        assert(b.drop_first() == uleb128(v / 128) + rest);
        assert(v % 128 + 128 * (v / 128) == v);
    }
}

proof fn lemma_read_sleb128(v: int, rest: Seq<u8>)
    ensures
        sleb128(v).len() >= 1,
        read_sleb128(sleb128(v) + rest) == Some((v, sleb128(v).len())),
    decreases (if v < 0 { -v } else { v }),
{
    let b = sleb128(v) + rest;
    if v < -64 || v >= 64 {
        lemma_read_sleb128(v / 128, rest);
        assert(b.drop_first() == sleb128(v / 128) + rest);
        assert(v % 128 + 128 * (v / 128) == v);
    }
}

/// Encoded operands read back: an opcode byte, then `x`, then `y`, then the rest.
proof fn lemma_operands(op: u8, x: Seq<u8>, y: Seq<u8>, rest: Seq<u8>)
    ensures
        (seq![op] + x + y + rest).drop_first() == x + (y + rest),
        (seq![op] + x + y + rest).skip(1 + x.len() as int) == y + rest,
        (seq![op] + x + rest).drop_first() == x + rest,
{
    assert((seq![op] + x + y + rest).drop_first() == x + (y + rest));
    assert((seq![op] + x + y + rest).skip(1 + x.len() as int) == y + rest);
    assert((seq![op] + x + rest).drop_first() == x + rest);
}

/// Each encodable instruction reads back as itself, taking exactly its bytes.
proof fn lemma_read_instruction(i: CallFrameInstruction, rest: Seq<u8>)
    requires
        encodable(i),
    ensures
        encode_instruction(i).len() >= 1,
        read_instruction(encode_instruction(i) + rest) == Some((i, encode_instruction(i).len())),
{
    match i {
        CallFrameInstruction::AdvanceLoc(delta) => {},
        CallFrameInstruction::DefCfa(reg, offset) => {
            lemma_operands(DW_CFA_DEF_CFA, uleb128(reg as nat), uleb128(offset as nat), rest);
            lemma_read_uleb128(reg as nat, uleb128(offset as nat) + rest);
            lemma_read_uleb128(offset as nat, rest);
        },
        CallFrameInstruction::DefCfaRegister(reg) => {
            lemma_operands(DW_CFA_DEF_CFA_REGISTER, uleb128(reg as nat), seq![], rest);
            lemma_read_uleb128(reg as nat, rest);
        },
        CallFrameInstruction::DefCfaOffset(offset) => {
            lemma_operands(DW_CFA_DEF_CFA_OFFSET, uleb128(offset as nat), seq![], rest);
            lemma_read_uleb128(offset as nat, rest);
        },
        CallFrameInstruction::Offset(reg, factored) => {
            if factored < 0 {
                lemma_operands(
                    DW_CFA_OFFSET_EXTENDED_SF,
                    uleb128(reg as nat),
                    sleb128(factored as int),
                    rest,
                );
                lemma_read_uleb128(reg as nat, sleb128(factored as int) + rest);
                lemma_read_sleb128(factored as int, rest);
            } else if reg < 64 {
                let op = (128 + reg) as u8;
                lemma_operands(op, uleb128(factored as nat), seq![], rest);
                lemma_read_uleb128(factored as nat, rest);
            } else {
                lemma_operands(
                    DW_CFA_OFFSET_EXTENDED,
                    uleb128(reg as nat),
                    uleb128(factored as nat),
                    rest,
                );
                lemma_read_uleb128(reg as nat, uleb128(factored as nat) + rest);
                lemma_read_uleb128(factored as nat, rest);
            }
        },
    }
}

proof fn lemma_encode_instructions_front(s: Seq<CallFrameInstruction>)
    requires
        s.len() > 0,
    ensures
        encode_instructions(s) == encode_instruction(s[0]) + encode_instructions(s.drop_first()),
    decreases s.len(),
{
    if s.len() > 1 {
        lemma_encode_instructions_front(s.drop_last());
        assert(s.drop_last()[0] == s[0]);
        assert(s.drop_last().drop_first() == s.drop_first().drop_last());
        assert(s.drop_first().last() == s.last());
        let a = encode_instruction(s[0]);
        let m = encode_instructions(s.drop_first().drop_last());
        let z = encode_instruction(s.last());
        assert(encode_instructions(s) == a + m + z);
        assert(encode_instructions(s.drop_first()) == m + z);
        assert(a + m + z == a + (m + z));
    } else {
        assert(s.drop_first().len() == 0);
        assert(s.drop_last().len() == 0);
        assert(encode_instructions(s.drop_last()) == Seq::<u8>::empty());
        assert(encode_instructions(s.drop_first()) == Seq::<u8>::empty());
        assert(s.last() == s[0]);
        assert(encode_instructions(s) == Seq::<u8>::empty() + encode_instruction(s[0]));
        assert(Seq::<u8>::empty() + encode_instruction(s[0]) == encode_instruction(s[0])
            + Seq::<u8>::empty());
    }
}

/// A DWARF consumer reading an encoded instruction stream gets back exactly
/// the instructions that were encoded.
pub proof fn law_instructions_read_back(s: Seq<CallFrameInstruction>)
    requires
        all_encodable(s),
    ensures
        read_instructions(encode_instructions(s)) == Some(s),
    decreases s.len(),
{
    if s.len() > 0 {
        lemma_encode_instructions_front(s);
        let first = encode_instruction(s[0]);
        let tail = encode_instructions(s.drop_first());
        assert(encodable(s[0]));
        lemma_read_instruction(s[0], tail);
        assert forall|k: int| 0 <= k < s.drop_first().len() implies encodable(
            #[trigger] s.drop_first()[k],
        ) by {
            assert(s.drop_first()[k] == s[k + 1]);
        }
        law_instructions_read_back(s.drop_first());
        assert((first + tail).skip(first.len() as int) == tail);
        assert(seq![s[0]] + s.drop_first() == s);
    } else {
        assert(encode_instructions(s) == Seq::<u8>::empty());
    }
}

} // verus!

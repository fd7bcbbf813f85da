use vstd::prelude::*;

use crate::cfi::{CallFrameInstruction, Register};

verus! {

/// gimli::write::Address, the address a function entry starts at; carried
/// through unread.
#[verifier::external_type_specification]
#[verifier::external_body]
pub struct ExAddress(gimli::write::Address);

/// gimli::write::FrameDescriptionEntry, gimli's function entry; what it holds
/// is given by `fde_rules` and `fde_length`.
#[verifier::external_type_specification]
#[verifier::external_body]
pub struct ExFrameDescriptionEntry(gimli::write::FrameDescriptionEntry);

/// A rule as gimli's writer takes it: offsets are in bytes, not factored,
/// and locations are given beside the rule rather than as advances.
#[derive(Debug, Clone, Copy, PartialEq, Eq, Structural)]
pub enum FdeRule {
    Cfa(Register, i32),
    CfaRegister(Register),
    CfaOffset(i32),
    Offset(Register, i32),
}

/// The rules a gimli frame description entry holds, each with its code offset.
pub uninterp spec fn fde_rules(fde: gimli::write::FrameDescriptionEntry) -> Seq<(u32, FdeRule)>;

/// The code length a gimli frame description entry was made with.
pub uninterp spec fn fde_length(fde: gimli::write::FrameDescriptionEntry) -> u32;

/// Relies on gimli::write::FrameDescriptionEntry::new: an entry with the
/// given address and length and no instructions.
#[verifier::external_body]
fn new_fde(address: gimli::write::Address, length: u32) -> (r: gimli::write::FrameDescriptionEntry)
    ensures
        fde_rules(r) == Seq::<(u32, FdeRule)>::empty(),
        fde_length(r) == length,
{
    gimli::write::FrameDescriptionEntry::new(address, length)
}

/// Relies on gimli::write::FrameDescriptionEntry::add_instruction: the
/// instruction is appended with its offset. Offsets must not decrease.
#[verifier::external_body]
fn add_fde_rule(fde: &mut gimli::write::FrameDescriptionEntry, offset: u32, rule: FdeRule)
    requires
        fde_rules(*old(fde)).len() > 0 ==> fde_rules(*old(fde)).last().0 <= offset,
    ensures
        fde_rules(*final(fde)) == fde_rules(*old(fde)).push((offset, rule)),
        fde_length(*final(fde)) == fde_length(*old(fde)),
{
    let instruction = match rule {
        FdeRule::Cfa(reg, offset) => gimli::write::CallFrameInstruction::Cfa(gimli::Register(reg), offset),
        FdeRule::CfaRegister(reg) => gimli::write::CallFrameInstruction::CfaRegister(gimli::Register(reg)),
        FdeRule::CfaOffset(offset) => gimli::write::CallFrameInstruction::CfaOffset(offset),
        FdeRule::Offset(reg, offset) => gimli::write::CallFrameInstruction::Offset(gimli::Register(reg), offset),
    };
    fde.add_instruction(offset, instruction)
}

/// The data alignment factor of the x86-64 header entry.
pub const DATA_ALIGNMENT_FACTOR: i32 = -8;

/// The sum of the advances in `s`.
pub open spec fn advance_total(s: Seq<CallFrameInstruction>) -> nat
    decreases s.len(),
{
    if s.len() == 0 {
        0
    } else {
        advance_total(s.drop_last()) + match s.last() {
            CallFrameInstruction::AdvanceLoc(delta) => delta as nat,
            _ => 0,
        }
    }
}

/// Whether gimli's writer can take the instruction: its offset in bytes fits 32 bits.
pub open spec fn gimli_representable(i: CallFrameInstruction) -> bool {
    match i {
        CallFrameInstruction::DefCfa(_, offset) => offset <= i32::MAX,
        CallFrameInstruction::DefCfaOffset(offset) => offset <= i32::MAX,
        CallFrameInstruction::Offset(_, factored) => i32::MIN <= factored * DATA_ALIGNMENT_FACTOR
            <= i32::MAX,
        _ => true,
    }
}

/// The rule gimli takes for an instruction that is not an advance.
pub open spec fn fde_rule(i: CallFrameInstruction) -> FdeRule {
    match i {
        CallFrameInstruction::DefCfa(reg, offset) => FdeRule::Cfa(reg, offset as i32),
        CallFrameInstruction::DefCfaRegister(reg) => FdeRule::CfaRegister(reg),
        CallFrameInstruction::DefCfaOffset(offset) => FdeRule::CfaOffset(offset as i32),
        CallFrameInstruction::Offset(reg, factored) => FdeRule::Offset(
            reg,
            (factored * DATA_ALIGNMENT_FACTOR) as i32,
        ),
        CallFrameInstruction::AdvanceLoc(_) => FdeRule::CfaOffset(0),
    }
}

/// The rules of `s`, each at the sum of the advances before it.
pub open spec fn fde_rules_of(s: Seq<CallFrameInstruction>) -> Seq<(u32, FdeRule)>
    decreases s.len(),
{
    if s.len() == 0 {
        seq![]
    } else {
        match s.last() {
            CallFrameInstruction::AdvanceLoc(_) => fde_rules_of(s.drop_last()),
            i => fde_rules_of(s.drop_last()).push(
                (advance_total(s.drop_last()) as u32, fde_rule(i)),
            ),
        }
    }
}

/// The call frame information of one function: its instruction stream and
/// the length of its code.
#[derive(Debug, Clone, PartialEq, Eq)]
pub struct UnwindInfo {
    pub instructions: Vec<CallFrameInstruction>,
    pub len: u32,
}

proof fn lemma_rules_offsets_bounded(s: Seq<CallFrameInstruction>)
    requires
        advance_total(s) <= u32::MAX,
    ensures
        forall|k: int|
            0 <= k < fde_rules_of(s).len() ==> (#[trigger] fde_rules_of(s)[k]).0 <= advance_total(
                s,
            ),
    decreases s.len(),
{
    if s.len() > 0 {
        let prev = s.drop_last();
        assert(advance_total(prev) <= advance_total(s));
        lemma_rules_offsets_bounded(prev);
        assert forall|k: int| 0 <= k < fde_rules_of(s).len() implies (#[trigger] fde_rules_of(
            s,
        )[k]).0 <= advance_total(s) by {
            if k < fde_rules_of(prev).len() {
                assert(fde_rules_of(s)[k] == fde_rules_of(prev)[k]);
            }
        }
    }
}

impl UnwindInfo {
    pub fn new(instructions: Vec<CallFrameInstruction>, len: u32) -> (r: Self)
        ensures
            r.instructions@ == instructions@,
            r.len == len,
    {
        UnwindInfo { instructions, len }
    }

    /// Whether gimli's writer can take this entry: every offset fits 32 bits.
    pub open spec fn gimli_compatible(&self) -> bool {
        &&& advance_total(self.instructions@) <= u32::MAX
        &&& forall|k: int|
            0 <= k < self.instructions@.len() ==> gimli_representable(
                #[trigger] self.instructions@[k],
            )
    }

    /// Converts the unwind information into gimli's frame description entry
    /// for a function at `address`: each rule at the code offset that the
    /// advances before it reach, with offsets unfactored.
    pub fn to_fde(&self, address: gimli::write::Address) -> (r: gimli::write::FrameDescriptionEntry)
        requires
            self.gimli_compatible(),
        ensures
            fde_rules(r) == fde_rules_of(self.instructions@),
            fde_length(r) == self.len,
    {
        let mut fde = new_fde(address, self.len);
        let mut offset: u32 = 0;
        let mut k: usize = 0;
        while k < self.instructions.len()
            invariant
                k <= self.instructions@.len(),
                self.gimli_compatible(),
                offset == advance_total(self.instructions@.subrange(0, k as int)),
                fde_rules(fde) == fde_rules_of(self.instructions@.subrange(0, k as int)),
                fde_length(fde) == self.len,
            decreases self.instructions@.len() - k,
        {
            let ghost pre = self.instructions@.subrange(0, k as int);
            let ghost next = self.instructions@.subrange(0, k + 1);
            assert(next.drop_last() == pre);
            assert(next.last() == self.instructions@[k as int]);
            proof {
                lemma_advance_total_prefix(self.instructions@, k + 1);
                lemma_advance_total_prefix(self.instructions@, k as int);
                lemma_rules_offsets_bounded(pre);
            }
            let i = self.instructions[k];
            assert(gimli_representable(i));
            match i {
                CallFrameInstruction::AdvanceLoc(delta) => {
                    offset = offset + delta;
                },
                CallFrameInstruction::DefCfa(reg, o) => {
                    add_fde_rule(&mut fde, offset, FdeRule::Cfa(reg, o as i32));
                },
                CallFrameInstruction::DefCfaRegister(reg) => {
                    add_fde_rule(&mut fde, offset, FdeRule::CfaRegister(reg));
                },
                CallFrameInstruction::DefCfaOffset(o) => {
                    add_fde_rule(&mut fde, offset, FdeRule::CfaOffset(o as i32));
                },
                CallFrameInstruction::Offset(reg, factored) => {
                    add_fde_rule(
                        &mut fde,
                        offset,
                        FdeRule::Offset(reg, factored * DATA_ALIGNMENT_FACTOR),
                    );
                },
            }
            k = k + 1;
        }
        assert(self.instructions@.subrange(0, k as int) == self.instructions@);
        fde
    }
}

/// The advances of a prefix sum to no more than those of the whole.
proof fn lemma_advance_total_prefix(s: Seq<CallFrameInstruction>, n: int)
    requires
        0 <= n <= s.len(),
    ensures
        advance_total(s.subrange(0, n)) <= advance_total(s),
    decreases s.len() - n,
{
    if n < s.len() {
        lemma_advance_total_prefix(s, n + 1);
        assert(s.subrange(0, n + 1).drop_last() == s.subrange(0, n));
    } else {
        assert(s.subrange(0, n) == s);
    }
}

} // verus!

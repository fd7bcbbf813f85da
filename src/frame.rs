use vstd::prelude::*;

use crate::cfa::{entry_state, translate, translate_commands, FrameLayoutCommand};
use crate::cfi::CallFrameInstruction;
use crate::error::FrameError;
use crate::registers::{RegisterMap, X86_64_RA, X86_64_RSP};
use crate::systemv::UnwindInfo;
use crate::table::{FrameTable, HeaderEntry};

verus! {

/// The calling conventions a function can be compiled with.
#[derive(Debug, Clone, Copy, PartialEq, Eq, Structural)]
pub enum CallConv {
    Fast,
    Cold,
    SystemV,
    WindowsFastcall,
    BaldrdashSystemV,
    BaldrdashWindows,
    Probestack,
}

/// A function's calling convention and its frame layout commands.
#[derive(Debug, Clone, PartialEq, Eq)]
pub struct FrameLayout {
    pub call_conv: CallConv,
    pub commands: Vec<FrameLayoutCommand>,
}

/// The conventions whose prologue follows System V, which the header entry's
/// initial rules describe.
pub open spec fn system_v_prologue(c: CallConv) -> bool {
    c == CallConv::Fast || c == CallConv::Cold || c == CallConv::SystemV
}

/// Every layout uses a System V prologue.
pub open spec fn all_system_v(layouts: Seq<FrameLayout>) -> bool {
    forall|i: int| 0 <= i < layouts.len() ==> system_v_prologue(#[trigger] layouts[i].call_conv)
}

/// The instructions of the x86-64 header entry: at function entry the CFA is
/// the stack pointer plus 8, and the return address is saved just below it.
pub open spec fn x86_64_initial_instructions() -> Seq<CallFrameInstruction> {
    seq![
        CallFrameInstruction::DefCfa(X86_64_RSP, 8),
        CallFrameInstruction::Offset(X86_64_RA, 1),
    ]
}

/// Whether `h` is the x86-64 header entry for addresses of `address_size` bytes.
pub open spec fn is_x86_64_header(h: HeaderEntry, address_size: u8) -> bool {
    &&& h.address_size == address_size
    &&& h.code_alignment_factor == 1
    &&& h.data_alignment_factor == -8
    &&& h.return_address_register == X86_64_RA
    &&& h.instructions@ == x86_64_initial_instructions()
}

/// The x86-64 header entry for addresses of `address_size` bytes.
pub fn x86_64_header(address_size: u8) -> (h: HeaderEntry)
    ensures
        is_x86_64_header(h, address_size),
{
    let instructions = vec![
        CallFrameInstruction::DefCfa(X86_64_RSP, 8),
        CallFrameInstruction::Offset(X86_64_RA, 1),
    ];
    HeaderEntry {
        address_size,
        code_alignment_factor: 1,
        data_alignment_factor: -8,
        return_address_register: X86_64_RA,
        instructions,
    }
}

/// Whether `layouts` holds a calling convention without a System V prologue.
fn has_unsupported_call_conv(layouts: &Vec<FrameLayout>) -> (r: bool)
    ensures
        r == !all_system_v(layouts@),
{
    let mut k: usize = 0;
    while k < layouts.len()
        invariant
            k <= layouts@.len(),
            forall|i: int| 0 <= i < k ==> system_v_prologue(#[trigger] layouts@[i].call_conv),
        decreases layouts@.len() - k,
    {
        let c = layouts[k].call_conv;
        if !(c == CallConv::Fast || c == CallConv::Cold || c == CallConv::SystemV) {
            return true;
        }
        k = k + 1;
    }
    false
}

/// The instructions of a function with frame layout `l`, or the failure.
pub open spec fn layout_instructions(regs: RegisterMap, l: FrameLayout) -> Result<
    Seq<CallFrameInstruction>,
    FrameError,
> {
    translate(regs, entry_state(), l.commands@)
}

/// Whether `e` is the entry of a function of code length `len` and frame layout `l`.
pub open spec fn entry_of(regs: RegisterMap, e: UnwindInfo, len: u32, l: FrameLayout) -> bool {
    e.len == len && layout_instructions(regs, l) == Ok::<Seq<CallFrameInstruction>, FrameError>(
        e.instructions@,
    )
}

/// Builds the frame table of the functions whose code lengths are
/// `func_lens` and whose frame layouts are `layouts`, in the same order: the
/// x86-64 header entry, then for function `i` an entry of length
/// `func_lens[i]` with the instructions that follow from `layouts[i]`.
/// Every function must use a System V prologue.
pub fn get_debug_frame_bytes(
    func_lens: &Vec<u32>,
    regs: &RegisterMap,
    layouts: &Vec<FrameLayout>,
    address_size: u8,
) -> (r: Result<FrameTable, FrameError>)
    requires
        regs.wf(),
        func_lens@.len() == layouts@.len(),
        address_size == 4 || address_size == 8,
    ensures
        !all_system_v(layouts@) ==> r == Err::<FrameTable, FrameError>(
            FrameError::UnsupportedCallingConvention,
        ),
        all_system_v(layouts@) ==> (r is Ok <==> forall|i: int|
            0 <= i < layouts@.len() ==> (#[trigger] layout_instructions(*regs, layouts@[i])) is Ok),
        all_system_v(layouts@) && r is Err ==> exists|i: int|
            0 <= i < layouts@.len() && layout_instructions(*regs, layouts@[i]) == Err::<
                Seq<CallFrameInstruction>,
                FrameError,
            >(r->Err_0) && forall|j: int|
                0 <= j < i ==> (#[trigger] layout_instructions(*regs, layouts@[j])) is Ok,
        r is Ok ==> is_x86_64_header(r->Ok_0.header, address_size),
        r is Ok ==> r->Ok_0.entries@.len() == func_lens@.len(),
        r is Ok ==> forall|i: int|
            0 <= i < func_lens@.len() ==> entry_of(
                *regs,
                #[trigger] r->Ok_0.entries@[i],
                func_lens@[i],
                layouts@[i],
            ),
{
    if has_unsupported_call_conv(layouts) {
        return Err(FrameError::UnsupportedCallingConvention);
    }
    let header = x86_64_header(address_size);
    let mut entries: Vec<UnwindInfo> = Vec::new();
    let mut k: usize = 0;
    while k < layouts.len()
        invariant
            k <= layouts@.len(),
            func_lens@.len() == layouts@.len(),
            regs.wf(),
            all_system_v(layouts@),
            entries@.len() == k,
            forall|i: int|
                0 <= i < k ==> entry_of(*regs, #[trigger] entries@[i], func_lens@[i], layouts@[i]),
        decreases layouts@.len() - k,
    {
        match translate_commands(regs, &layouts[k].commands) {
            Ok(instructions) => {
                let e = UnwindInfo::new(instructions, func_lens[k]);
                assert(entry_of(*regs, e, func_lens@[k as int], layouts@[k as int]));
                entries.push(e);
            },
            Err(e) => {
                assert(forall|j: int|
                    0 <= j < k ==> (#[trigger] layout_instructions(*regs, layouts@[j])) is Ok) by {
                    assert forall|j: int| 0 <= j < k implies (#[trigger] layout_instructions(
                        *regs,
                        layouts@[j],
                    )) is Ok by {
                        assert(entry_of(*regs, entries@[j], func_lens@[j], layouts@[j]));
                    }
                }
                assert(layout_instructions(*regs, layouts@[k as int]) is Err);
                return Err(e);
            },
        }
        k = k + 1;
    }
    assert forall|i: int| 0 <= i < layouts@.len() implies (#[trigger] layout_instructions(
        *regs,
        layouts@[i],
    )) is Ok by {
        assert(entry_of(*regs, entries@[i], func_lens@[i], layouts@[i]));
    }
    Ok(FrameTable { header, entries })
}

} // verus!

use vstd::prelude::*;

use crate::cfa::FrameLayoutCommand;

verus! {

/// A frame change that the code generator attached to an instruction.
#[derive(Debug, Clone, Copy, PartialEq, Eq, Structural)]
pub enum FrameLayoutChange {
    /// After the instruction the CFA is this register unit plus this offset.
    CallFrameAddressAt { reg: u16, offset: i32 },
    /// After the instruction the register unit is saved at CFA plus this offset.
    RegisterAt { reg: u16, cfa_offset: i32 },
}

/// An emitted instruction: its offset in the function's code, its size, the
/// source location it came from, and the frame changes attached to it.
#[derive(Debug, Clone, PartialEq, Eq)]
pub struct EmittedInstruction {
    pub offset: u32,
    pub size: u32,
    pub srcloc: u32,
    pub changes: Vec<FrameLayoutChange>,
}

/// Where one emitted instruction lies and the source location it came from.
#[derive(Debug, Clone, Copy, PartialEq, Eq, Structural)]
pub struct InstructionAddressTransform {
    pub srcloc: u32,
    pub code_offset: u32,
    pub code_len: u32,
}

/// The offset just past the instruction, where its frame changes take effect.
pub open spec fn end_offset(i: EmittedInstruction) -> nat {
    i.offset as nat + i.size as nat
}

/// Whether the instruction changes the frame.
pub open spec fn changes_frame(i: EmittedInstruction) -> bool {
    i.changes@.len() > 0
}

/// The command that states the change.
pub open spec fn change_command(c: FrameLayoutChange) -> FrameLayoutCommand {
    match c {
        FrameLayoutChange::CallFrameAddressAt { reg, offset } => {
            FrameLayoutCommand::CallFrameAddressAt { reg, offset }
        },
        FrameLayoutChange::RegisterAt { reg, cfa_offset } => FrameLayoutCommand::RegisterAt {
            reg,
            cfa_offset,
        },
    }
}

/// Whether the instructions lie within 32-bit code offsets and the frame
/// changing ones end in non-decreasing order.
pub open spec fn ordered_instructions(insts: Seq<EmittedInstruction>) -> bool {
    &&& forall|i: int| 0 <= i < insts.len() ==> end_offset(#[trigger] insts[i]) <= u32::MAX
    &&& forall|i: int, j: int|
        0 <= i < j < insts.len() && changes_frame(#[trigger] insts[i]) && changes_frame(
            #[trigger] insts[j],
        ) ==> end_offset(insts[i]) <= end_offset(insts[j])
}

/// The commands of `insts` when the location last recorded is `last`: before
/// the changes of each frame changing instruction, a move to its end if that
/// lies further on.
pub open spec fn frame_layout_from(insts: Seq<EmittedInstruction>, last: nat) -> Seq<
    FrameLayoutCommand,
>
    decreases insts.len(),
{
    if insts.len() == 0 {
        seq![]
    } else {
        let i = insts[0];
        if !changes_frame(i) {
            frame_layout_from(insts.drop_first(), last)
        } else {
            let end = end_offset(i);
            let moved = if end > last {
                seq![FrameLayoutCommand::MoveLocationBy((end - last) as u32)]
            } else {
                seq![]
            };
            moved + i.changes@.map_values(|c: FrameLayoutChange| change_command(c))
                + frame_layout_from(insts.drop_first(), end)
        }
    }
}

/// The frame layout commands of a function whose instructions, in ascending
/// emitted offset, are `insts`.
pub fn get_frame_layout(insts: &Vec<EmittedInstruction>) -> (r: Vec<FrameLayoutCommand>)
    requires
        ordered_instructions(insts@),
    ensures
        r@ == frame_layout_from(insts@, 0),
{
    let mut result: Vec<FrameLayoutCommand> = Vec::new();
    let mut last: u32 = 0;
    let mut k: usize = 0;
    assert(insts@.skip(0) == insts@);
    while k < insts.len()
        invariant
            k <= insts@.len(),
            ordered_instructions(insts@),
            forall|j: int|
                k <= j < insts@.len() && changes_frame(#[trigger] insts@[j]) ==> last <= end_offset(
                    insts@[j],
                ),
            frame_layout_from(insts@, 0) == result@ + frame_layout_from(
                insts@.skip(k as int),
                last as nat,
            ),
        decreases insts@.len() - k,
    {
        let ghost rest = insts@.skip(k as int);
        assert(rest[0] == insts@[k as int]);
        assert(rest.drop_first() == insts@.skip(k + 1));
        let inst = &insts[k];
        if inst.changes.len() > 0 {
            assert(end_offset(insts@[k as int]) <= u32::MAX);
            let address_offset: u32 = inst.offset + inst.size;
            if address_offset > last {
                result.push(FrameLayoutCommand::MoveLocationBy(address_offset - last));
            }
            let ghost moved = result@;
            let mut c: usize = 0;
            while c < inst.changes.len()
                invariant
                    c <= inst.changes@.len(),
                    result@ == moved + inst.changes@.subrange(0, c as int).map_values(
                        |x: FrameLayoutChange| change_command(x),
                    ),
                decreases inst.changes@.len() - c,
            {
                let cmd = match inst.changes[c] {
                    FrameLayoutChange::CallFrameAddressAt { reg, offset } => {
                        FrameLayoutCommand::CallFrameAddressAt { reg, offset }
                    },
                    FrameLayoutChange::RegisterAt { reg, cfa_offset } => {
                        FrameLayoutCommand::RegisterAt { reg, cfa_offset }
                    },
                };
                result.push(cmd);
                assert(inst.changes@.subrange(0, c + 1) == inst.changes@.subrange(0, c as int).push(
                    inst.changes@[c as int],
                ));
                c = c + 1;
            }
            assert(inst.changes@.subrange(0, c as int) == inst.changes@);
            last = address_offset;
            assert forall|j: int|
                k + 1 <= j < insts@.len() && changes_frame(#[trigger] insts@[j]) implies last
                <= end_offset(insts@[j]) by {
                assert(changes_frame(insts@[k as int]));
            }
        }
        k = k + 1;
    }
    assert(insts@.skip(k as int).len() == 0);
    assert(result@ + seq![] == result@);
    result
}

/// For each instruction in turn, where it lies and its source location.
pub fn get_address_transform(insts: &Vec<EmittedInstruction>) -> (r: Vec<
    InstructionAddressTransform,
>)
    ensures
        r@.len() == insts@.len(),
        forall|i: int|
            0 <= i < insts@.len() ==> #[trigger] r@[i] == (InstructionAddressTransform {
                srcloc: insts@[i].srcloc,
                code_offset: insts@[i].offset,
                code_len: insts@[i].size,
            }),
{
    let mut result: Vec<InstructionAddressTransform> = Vec::new();
    let mut k: usize = 0;
    while k < insts.len()
        invariant
            k <= insts@.len(),
            result@.len() == k,
            forall|i: int|
                0 <= i < k ==> #[trigger] result@[i] == (InstructionAddressTransform {
                    srcloc: insts@[i].srcloc,
                    code_offset: insts@[i].offset,
                    code_len: insts@[i].size,
                }),
        decreases insts@.len() - k,
    {
        let inst = &insts[k];
        result.push(
            InstructionAddressTransform {
                srcloc: inst.srcloc,
                code_offset: inst.offset,
                code_len: inst.size,
            },
        );
        k = k + 1;
    }
    result
}

/// A basic block as emitted: its offset in the function's code and its
/// instructions in order.
#[derive(Debug, Clone, PartialEq, Eq)]
pub struct EmittedBlock {
    pub offset: u32,
    pub instructions: Vec<EmittedInstruction>,
}

/// Whether the blocks come in ascending emitted offset.
pub open spec fn sorted_by_offset(blocks: Seq<EmittedBlock>) -> bool {
    forall|i: int, j: int| 0 <= i < j < blocks.len() ==> blocks[i].offset <= blocks[j].offset
}

/// The instructions of the blocks, block after block.
pub open spec fn flatten(blocks: Seq<EmittedBlock>) -> Seq<EmittedInstruction>
    decreases blocks.len(),
{
    if blocks.len() == 0 {
        seq![]
    } else {
        flatten(blocks.drop_last()) + blocks.last().instructions@
    }
}

/// The blocks of a function, given in layout order, put in ascending emitted
/// offset (the layout may place a block before one that was emitted earlier).
pub fn sort_blocks(blocks: Vec<EmittedBlock>) -> (r: Vec<EmittedBlock>)
    ensures
        r@.to_multiset() == blocks@.to_multiset(),
        sorted_by_offset(r@),
{
    broadcast use vstd::multiset::group_multiset_axioms;

    let ghost all = blocks@;
    let mut rest = blocks;
    let mut out: Vec<EmittedBlock> = Vec::new();
    proof {
        assert(out@.to_multiset() =~= vstd::multiset::Multiset::<EmittedBlock>::empty()) by {
            broadcast use vstd::seq_lib::to_multiset_len;
            vstd::seq::Seq::<EmittedBlock>::empty().to_multiset_ensures();
        }
    }
    while rest.len() > 0
        invariant
            out@.to_multiset().add(rest@.to_multiset()) == all.to_multiset(),
            sorted_by_offset(out@),
            forall|i: int, j: int|
                0 <= i < out@.len() && 0 <= j < rest@.len() ==> out@[i].offset <= rest@[j].offset,
        decreases rest@.len(),
    {
        let mut m: usize = 0;
        let mut k: usize = 1;
        while k < rest.len()
            invariant
                0 < rest@.len(),
                m < rest@.len(),
                1 <= k <= rest@.len(),
                forall|j: int| 0 <= j < k ==> rest@[m as int].offset <= rest@[j].offset,
            decreases rest@.len() - k,
        {
            if rest[k].offset < rest[m].offset {
                m = k;
            }
            k = k + 1;
        }
        let ghost before = rest@;
        let b = rest.remove(m);
        proof {
            assert(before.to_multiset() == rest@.to_multiset().insert(b)) by {
                vstd::seq_lib::to_multiset_remove(before, m as int);
                assert(rest@ == before.remove(m as int));
                assert(rest@.to_multiset() == before.to_multiset().remove(before[m as int]));
                assert(before.to_multiset().contains(b)) by {
                    broadcast use vstd::seq_lib::to_multiset_contains;
                    assert(before.contains(b)) by {
                        assert(before[m as int] == b);
                    }
                }
            }
            assert forall|j: int| 0 <= j < rest@.len() implies b.offset <= rest@[j].offset by {
                if j < m {
                    assert(rest@[j] == before[j]);
                } else {
                    assert(rest@[j] == before[j + 1]);
                }
            }
        }
        let ghost out_before = out@;
        out.push(b);
        proof {
            vstd::seq_lib::to_multiset_build(out_before, b);
            assert(out@.to_multiset() == out_before.to_multiset().insert(b));
            assert(out@.to_multiset().add(rest@.to_multiset()) =~= all.to_multiset());
        }
    }
    proof {
        vstd::seq_lib::to_multiset_len(rest@);
        vstd::multiset::lemma_multiset_empty_len(rest@.to_multiset());
        assert(out@.to_multiset().add(rest@.to_multiset()) =~= out@.to_multiset());
    }
    out
}

/// The instructions of `blocks`, block after block.
pub fn flatten_blocks(blocks: Vec<EmittedBlock>) -> (r: Vec<EmittedInstruction>)
    ensures
        r@ == flatten(blocks@),
{
    let ghost all = blocks@;
    let mut rest = blocks;
    let mut out: Vec<EmittedInstruction> = Vec::new();
    let ghost mut k: int = 0;
    while rest.len() > 0
        invariant
            0 <= k <= all.len(),
            rest@ == all.subrange(k, all.len() as int),
            out@ == flatten(all.subrange(0, k)),
        decreases rest@.len(),
    {
        let mut b = rest.remove(0);
        proof {
            let next = all.subrange(0, k + 1);
            assert(next.drop_last() == all.subrange(0, k));
            assert(next.last() == b);
            assert(rest@ == all.subrange(k + 1, all.len() as int));
        }
        out.append(&mut b.instructions);
        proof {
            k = k + 1;
        }
    }
    assert(all.subrange(0, k) == all);
    out
}

/// Whether `insts` lie within 32-bit code offsets with the frame changing
/// ones ending in non-decreasing order, as `get_frame_layout` requires.
pub fn instructions_ordered(insts: &Vec<EmittedInstruction>) -> (r: bool)
    ensures
        r == ordered_instructions(insts@),
{
    // the end of the last frame changing instruction seen so far
    let mut last: u64 = 0;
    let mut k: usize = 0;
    while k < insts.len()
        invariant
            k <= insts@.len(),
            ordered_instructions(insts@.subrange(0, k as int)),
            forall|i: int|
                0 <= i < k && changes_frame(#[trigger] insts@[i]) ==> end_offset(insts@[i]) <= last,
            last > 0 ==> exists|i: int|
                0 <= i < k && changes_frame(#[trigger] insts@[i]) && end_offset(insts@[i]) == last,
            last <= u32::MAX,
        decreases insts@.len() - k,
    {
        let ghost pre = insts@.subrange(0, k as int);
        let ghost next = insts@.subrange(0, k + 1);
        let end: u64 = insts[k].offset as u64 + insts[k].size as u64;
        if end > 0xffff_ffffu64 {
            assert(!ordered_instructions(insts@)) by {
                assert(end_offset(insts@[k as int]) > u32::MAX);
            }
            return false;
        }
        if insts[k].changes.len() > 0 {
            if end < last {
                proof {
                    let w = choose|i: int|
                        0 <= i < k && changes_frame(#[trigger] insts@[i]) && end_offset(insts@[i])
                            == last;
                    assert(changes_frame(insts@[k as int]));
                    assert(end_offset(insts@[w]) > end_offset(insts@[k as int]));
                }
                return false;
            }
            last = end;
            assert(changes_frame(insts@[k as int]) && end_offset(insts@[k as int]) == last);
        }
        proof {
            assert forall|i: int| 0 <= i < next.len() implies end_offset(#[trigger] next[i])
                <= u32::MAX by {
                if i < k {
                    assert(next[i] == pre[i]);
                }
            }
            assert forall|i: int, j: int|
                0 <= i < j < next.len() && changes_frame(#[trigger] next[i]) && changes_frame(
                    #[trigger] next[j],
                ) implies end_offset(next[i]) <= end_offset(next[j]) by {
                if j < k {
                    assert(next[i] == pre[i] && next[j] == pre[j]);
                } else {
                    assert(next[i] == insts@[i]);
                }
            }
        }
        k = k + 1;
    }
    assert(insts@.subrange(0, k as int) == insts@);
    true
}

/// The instructions of a function's blocks in ascending emitted offset:
/// the blocks sorted by offset, then their instructions block after block.
pub fn emitted_order(blocks: Vec<EmittedBlock>) -> (r: Vec<EmittedInstruction>)
    ensures
        exists|s: Seq<EmittedBlock>|
            s.to_multiset() == blocks@.to_multiset() && sorted_by_offset(s) && r@ == flatten(s),
{
    let sorted = sort_blocks(blocks);
    let ghost s = sorted@;
    let r = flatten_blocks(sorted);
    assert(s.to_multiset() == blocks@.to_multiset() && sorted_by_offset(s) && r@ == flatten(s));
    r
}

} // verus!

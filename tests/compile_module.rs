use rayon::prelude::{IntoParallelRefIterator, ParallelIterator};
use unwind_table::cfa::FrameLayoutCommand;
use unwind_table::compile::{
    collect_compiled, function_debug_info, get_func_name, get_imported_memory32_grow_name,
    get_imported_memory32_size_name, get_memory32_grow_name, get_memory32_size_name,
    CompileError, CompiledFunction, ExternalName, Reloc, RelocError, RelocSink, Relocation,
    RelocationTarget,
};
use unwind_table::frame::CallConv;
use unwind_table::layout::{
    emitted_order, get_address_transform, get_frame_layout, instructions_ordered, EmittedBlock,
    EmittedInstruction, FrameLayoutChange,
};

fn inst(offset: u32, size: u32, changes: Vec<FrameLayoutChange>) -> EmittedInstruction {
    EmittedInstruction { offset, size, srcloc: offset + 100, changes }
}

/// push rbp; mov rbp, rsp; (body); pop rbp; ret
fn function_instructions(body: u32) -> Vec<EmittedInstruction> {
    vec![
        inst(0, 1, vec![
            FrameLayoutChange::CallFrameAddressAt { reg: 4, offset: 16 },
            FrameLayoutChange::RegisterAt { reg: 5, cfa_offset: -16 },
        ]),
        inst(1, 3, vec![FrameLayoutChange::CallFrameAddressAt { reg: 5, offset: 16 }]),
        inst(4, body, vec![]),
        inst(4 + body, 1, vec![FrameLayoutChange::CallFrameAddressAt { reg: 4, offset: 8 }]),
        inst(5 + body, 1, vec![]),
    ]
}

#[test]
fn frame_layout_moves_before_each_changing_instruction() {
    assert_eq!(
        get_frame_layout(&function_instructions(10)),
        vec![
            FrameLayoutCommand::MoveLocationBy(1),
            FrameLayoutCommand::CallFrameAddressAt { reg: 4, offset: 16 },
            FrameLayoutCommand::RegisterAt { reg: 5, cfa_offset: -16 },
            FrameLayoutCommand::MoveLocationBy(3),
            FrameLayoutCommand::CallFrameAddressAt { reg: 5, offset: 16 },
            FrameLayoutCommand::MoveLocationBy(11),
            FrameLayoutCommand::CallFrameAddressAt { reg: 4, offset: 8 },
        ]
    );
}

#[test]
fn frame_layout_skips_empty_moves() {
    let insts = vec![
        inst(0, 0, vec![FrameLayoutChange::CallFrameAddressAt { reg: 4, offset: 8 }]),
        inst(0, 2, vec![]),
    ];
    assert_eq!(
        get_frame_layout(&insts),
        vec![FrameLayoutCommand::CallFrameAddressAt { reg: 4, offset: 8 }]
    );
    assert!(get_frame_layout(&vec![]).is_empty());
}

#[test]
fn address_transform_lists_every_instruction() {
    let at = get_address_transform(&function_instructions(10));
    assert_eq!(at.len(), 5);
    assert_eq!(at[2].code_offset, 4);
    assert_eq!(at[2].code_len, 10);
    assert_eq!(at[2].srcloc, 104);
}

#[test]
fn reloc_sink_classifies_names() {
    let mut sink = RelocSink::new();
    let names = [
        get_memory32_grow_name(),
        get_imported_memory32_grow_name(),
        get_memory32_size_name(),
        get_imported_memory32_size_name(),
        get_func_name(7),
        ExternalName::LibCall(3),
    ];
    for (k, name) in names.iter().enumerate() {
        sink.reloc_external(k as u32 * 4, Reloc::X86CallPCRel4, name, -4).unwrap();
    }
    let targets: Vec<RelocationTarget> = sink.func_relocs.iter().map(|r| r.reloc_target).collect();
    assert_eq!(
        targets,
        vec![
            RelocationTarget::Memory32Grow,
            RelocationTarget::ImportedMemory32Grow,
            RelocationTarget::Memory32Size,
            RelocationTarget::ImportedMemory32Size,
            RelocationTarget::UserFunc(7),
            RelocationTarget::LibCall(3),
        ]
    );
    assert_eq!(sink.func_relocs[4].offset, 16);
    assert_eq!(sink.func_relocs[4].addend, -4);
}

#[test]
fn reloc_sink_rejects_what_it_cannot_represent() {
    let mut sink = RelocSink::new();
    assert_eq!(
        sink.reloc_external(0, Reloc::Abs8, &ExternalName::TestCase, 0),
        Err(RelocError::UnrecognizedExternalName)
    );
    assert_eq!(
        sink.reloc_external(0, Reloc::Abs8, &ExternalName::User { namespace: 2, index: 0 }, 0),
        Err(RelocError::UnrecognizedExternalName)
    );
    assert_eq!(
        sink.reloc_external(0, Reloc::Abs8, &ExternalName::User { namespace: 1, index: 4 }, 0),
        Err(RelocError::UnrecognizedExternalName)
    );
    assert_eq!(sink.reloc_ebb(0, Reloc::Abs4, 8), Err(RelocError::BlockRelocation));
    assert_eq!(sink.reloc_jt(0, Reloc::Abs4, 0), Err(RelocError::JumpTableRelocation));
    assert!(sink.func_relocs.is_empty());
}

/// Stands in for code generation: a function of `body` bytes calling function `callee`.
fn compile_one(index: usize, body: u32, generate_debug_info: bool) -> Result<CompiledFunction, CompileError> {
    if body == 0 {
        return Err(CompileError::Codegen { function: index, message: "empty".to_string() });
    }
    let insts = function_instructions(body);
    let code = vec![0x90u8; (body + 6) as usize];
    let mut sink = RelocSink::new();
    sink.reloc_external(5, Reloc::X86CallPCRel4, &get_func_name(index as u32 + 1), -4).unwrap();
    let (address_transform, frame_layout) =
        function_debug_info(code.len(), &insts, CallConv::SystemV, generate_debug_info);
    Ok(CompiledFunction { code, relocs: sink.func_relocs, address_transform, frame_layout })
}

#[test]
fn parallel_compile_matches_sequential() {
    let bodies: Vec<(usize, u32)> = vec![(0, 10), (1, 20)];
    let parallel: Vec<_> = bodies.par_iter().map(|(i, b)| compile_one(*i, *b, true)).collect();
    let sequential: Vec<_> = bodies.iter().map(|(i, b)| compile_one(*i, *b, true)).collect();
    let p = collect_compiled(parallel).unwrap();
    let s = collect_compiled(sequential).unwrap();
    assert_eq!(p, s);
    assert_eq!(p.functions.len(), 2);
    assert_eq!(p.functions[1].len(), 26);
    assert_eq!(
        p.relocations[1],
        vec![Relocation {
            reloc: Reloc::X86CallPCRel4,
            reloc_target: RelocationTarget::UserFunc(2),
            offset: 5,
            addend: -4
        }]
    );
    assert_eq!(p.frame_layouts.len(), 2);
    assert_eq!(p.frame_layouts[1].commands[5], FrameLayoutCommand::MoveLocationBy(21));
    assert_eq!(p.address_transforms[0].body_len, 16);
}

#[test]
fn compile_without_debug_info_collects_no_debug_info() {
    let results = vec![compile_one(0, 10, false), compile_one(1, 20, false)];
    let m = collect_compiled(results).unwrap();
    assert_eq!(m.functions.len(), 2);
    assert!(m.address_transforms.is_empty());
    assert!(m.frame_layouts.is_empty());
}

#[test]
fn failed_function_discards_the_module() {
    let results = vec![compile_one(0, 10, true), compile_one(1, 0, true), compile_one(2, 0, true)];
    assert_eq!(
        collect_compiled(results),
        Err(CompileError::Codegen { function: 1, message: "empty".to_string() })
    );
}

#[test]
fn blocks_are_ordered_by_emitted_offset() {
    let insts = function_instructions(10);
    // the layout puts the epilogue block first
    let blocks = vec![
        EmittedBlock { offset: 14, instructions: insts[3..].to_vec() },
        EmittedBlock { offset: 0, instructions: insts[..2].to_vec() },
        EmittedBlock { offset: 4, instructions: insts[2..3].to_vec() },
    ];
    let layout_order: Vec<EmittedInstruction> =
        blocks.iter().flat_map(|b| b.instructions.clone()).collect();
    assert!(!instructions_ordered(&layout_order));
    let ordered = emitted_order(blocks);
    assert_eq!(ordered, insts);
    assert!(instructions_ordered(&ordered));
    assert_eq!(get_frame_layout(&ordered), get_frame_layout(&insts));
}

#[test]
fn instructions_beyond_32_bit_offsets_are_not_ordered() {
    assert!(instructions_ordered(&vec![]));
    assert!(!instructions_ordered(&vec![inst(u32::MAX, 1, vec![])]));
}

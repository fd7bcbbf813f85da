use vstd::prelude::*;

use crate::frame::{CallConv, FrameLayout};
use crate::layout::{
    frame_layout_from, get_address_transform, get_frame_layout, ordered_instructions,
    EmittedInstruction, InstructionAddressTransform,
};

verus! {

/// How a relocation patches its site.
#[derive(Debug, Clone, Copy, PartialEq, Eq, Structural)]
pub enum Reloc {
    Abs4,
    Abs8,
    X86PCRel4,
    X86CallPCRel4,
    X86CallPLTRel4,
    X86GOTPCRel4,
}

/// A name that compiled code refers to.
#[derive(Debug, Clone, Copy, PartialEq, Eq, Structural)]
pub enum ExternalName {
    /// A name in a numbered namespace.
    User { namespace: u32, index: u32 },
    /// A function of the runtime library, by number.
    LibCall(u32),
    /// A name used only by tests of the code generator.
    TestCase,
}

/// What a relocation refers to.
#[derive(Debug, Clone, Copy, PartialEq, Eq, Structural)]
pub enum RelocationTarget {
    /// A function of the module, by index.
    UserFunc(u32),
    /// `memory.grow` on a memory defined in the module.
    Memory32Grow,
    /// `memory.grow` on an imported memory.
    ImportedMemory32Grow,
    /// `memory.size` on a memory defined in the module.
    Memory32Size,
    /// `memory.size` on an imported memory.
    ImportedMemory32Size,
    /// A function of the runtime library, by number.
    LibCall(u32),
}

/// A site in a function's code to patch with the address of a target.
#[derive(Debug, Clone, Copy, PartialEq, Eq, Structural)]
pub struct Relocation {
    pub reloc: Reloc,
    pub reloc_target: RelocationTarget,
    pub offset: u32,
    pub addend: i64,
}

/// A relocation that cannot be represented yet.
#[derive(Debug, Clone, Copy, PartialEq, Eq, Structural)]
pub enum RelocError {
    /// A relocation relative to a basic block.
    BlockRelocation,
    /// A relocation of a jump table.
    JumpTableRelocation,
    /// A reference to a name that is neither a function nor a built-in.
    UnrecognizedExternalName,
}

/// The namespace of the module's functions.
pub const FUNCTION_NAMESPACE: u32 = 0;

/// The namespace of the built-in memory operations.
pub const BUILTIN_NAMESPACE: u32 = 1;

/// The name of `memory.grow` on a memory defined in the module.
pub fn get_memory32_grow_name() -> (r: ExternalName)
    ensures
        r == (ExternalName::User { namespace: BUILTIN_NAMESPACE, index: 0 }),
{
    ExternalName::User { namespace: BUILTIN_NAMESPACE, index: 0 }
}

/// The name of `memory.grow` on an imported memory.
pub fn get_imported_memory32_grow_name() -> (r: ExternalName)
    ensures
        r == (ExternalName::User { namespace: BUILTIN_NAMESPACE, index: 1 }),
{
    ExternalName::User { namespace: BUILTIN_NAMESPACE, index: 1 }
}

/// The name of `memory.size` on a memory defined in the module.
pub fn get_memory32_size_name() -> (r: ExternalName)
    ensures
        r == (ExternalName::User { namespace: BUILTIN_NAMESPACE, index: 2 }),
{
    ExternalName::User { namespace: BUILTIN_NAMESPACE, index: 2 }
}

/// The name of `memory.size` on an imported memory.
pub fn get_imported_memory32_size_name() -> (r: ExternalName)
    ensures
        r == (ExternalName::User { namespace: BUILTIN_NAMESPACE, index: 3 }),
{
    ExternalName::User { namespace: BUILTIN_NAMESPACE, index: 3 }
}

/// The name of the module's function `index`.
pub fn get_func_name(index: u32) -> (r: ExternalName)
    ensures
        r == (ExternalName::User { namespace: FUNCTION_NAMESPACE, index }),
{
    ExternalName::User { namespace: FUNCTION_NAMESPACE, index }
}

/// What a reference to `name` refers to, if it is recognized.
pub open spec fn relocation_target(name: ExternalName) -> Option<RelocationTarget> {
    match name {
        ExternalName::User { namespace, index } => if namespace == BUILTIN_NAMESPACE {
            if index == 0 {
                Some(RelocationTarget::Memory32Grow)
            } else if index == 1 {
                Some(RelocationTarget::ImportedMemory32Grow)
            } else if index == 2 {
                Some(RelocationTarget::Memory32Size)
            } else if index == 3 {
                Some(RelocationTarget::ImportedMemory32Size)
            } else {
                None
            }
        } else if namespace == FUNCTION_NAMESPACE {
            Some(RelocationTarget::UserFunc(index))
        } else {
            None
        },
        ExternalName::LibCall(libcall) => Some(RelocationTarget::LibCall(libcall)),
        ExternalName::TestCase => None,
    }
}

/// Collects the relocations of one function as code generation reports them.
#[derive(Debug, Clone, PartialEq, Eq)]
pub struct RelocSink {
    /// Relocations recorded for the function.
    pub func_relocs: Vec<Relocation>,
}

impl RelocSink {
    /// Return a new `RelocSink` instance.
    pub fn new() -> (r: Self)
        ensures
            r.func_relocs@.len() == 0,
    {
        RelocSink { func_relocs: Vec::new() }
    }

    /// A relocation relative to a basic block: not supported.
    pub fn reloc_ebb(&mut self, offset: u32, reloc: Reloc, ebb_offset: u32) -> (r: Result<
        (),
        RelocError,
    >)
        ensures
            r == Err::<(), RelocError>(RelocError::BlockRelocation),
            final(self).func_relocs@ == old(self).func_relocs@,
    {
        Err(RelocError::BlockRelocation)
    }

    /// A relocation referring to `name`: recorded with its target if the
    /// name is a function of the module, a built-in or a library call.
    pub fn reloc_external(&mut self, offset: u32, reloc: Reloc, name: &ExternalName, addend: i64) -> (r:
        Result<(), RelocError>)
        ensures
            r is Ok <==> relocation_target(*name) is Some,
            r is Err ==> r == Err::<(), RelocError>(RelocError::UnrecognizedExternalName)
                && final(self).func_relocs@ == old(self).func_relocs@,
            r is Ok ==> final(self).func_relocs@ == old(self).func_relocs@.push(
                Relocation {
                    reloc,
                    reloc_target: relocation_target(*name)->Some_0,
                    offset,
                    addend,
                },
            ),
    {
        let name = *name;
        let reloc_target = if name == get_memory32_grow_name() {
            RelocationTarget::Memory32Grow
        } else if name == get_imported_memory32_grow_name() {
            RelocationTarget::ImportedMemory32Grow
        } else if name == get_memory32_size_name() {
            RelocationTarget::Memory32Size
        } else if name == get_imported_memory32_size_name() {
            RelocationTarget::ImportedMemory32Size
        } else {
            match name {
                ExternalName::User { namespace, index } => {
                    if namespace != FUNCTION_NAMESPACE {
                        return Err(RelocError::UnrecognizedExternalName);
                    }
                    RelocationTarget::UserFunc(index)
                },
                ExternalName::LibCall(libcall) => RelocationTarget::LibCall(libcall),
                ExternalName::TestCase => return Err(RelocError::UnrecognizedExternalName),
            }
        };
        self.func_relocs.push(Relocation { reloc, reloc_target, offset, addend });
        Ok(())
    }

    /// A relocation of a jump table: not supported.
    pub fn reloc_jt(&mut self, offset: u32, reloc: Reloc, jt: u32) -> (r: Result<(), RelocError>)
        ensures
            r == Err::<(), RelocError>(RelocError::JumpTableRelocation),
            final(self).func_relocs@ == old(self).func_relocs@,
    {
        Err(RelocError::JumpTableRelocation)
    }
}

/// Where a function's instructions lie in its body and where they came from.
#[derive(Debug, Clone, PartialEq, Eq)]
pub struct FunctionAddressTransform {
    pub locations: Vec<InstructionAddressTransform>,
    pub body_offset: usize,
    pub body_len: usize,
}

/// What compiling one function produced.
#[derive(Debug, Clone, PartialEq, Eq)]
pub struct CompiledFunction {
    pub code: Vec<u8>,
    pub relocs: Vec<Relocation>,
    pub address_transform: Option<FunctionAddressTransform>,
    pub frame_layout: Option<FrameLayout>,
}

/// Why compiling a function failed, with the function's index.
#[derive(Debug, Clone, PartialEq, Eq)]
pub enum CompileError {
    /// Translating the function's bytecode failed.
    Wasm { function: usize, message: String },
    /// Generating the function's code failed.
    Codegen { function: usize, message: String },
}

/// What compiling a module produced, each collection in function order.
#[derive(Debug, Clone, PartialEq, Eq)]
pub struct ModuleCompilation {
    pub functions: Vec<Vec<u8>>,
    pub relocations: Vec<Vec<Relocation>>,
    pub address_transforms: Vec<FunctionAddressTransform>,
    pub frame_layouts: Vec<FrameLayout>,
}

/// The values that `s` holds, in order, leaving out the `None`s.
pub open spec fn somes<T>(s: Seq<Option<T>>) -> Seq<T>
    decreases s.len(),
{
    if s.len() == 0 {
        seq![]
    } else {
        match s.last() {
            Some(x) => somes(s.drop_last()).push(x),
            None => somes(s.drop_last()),
        }
    }
}

/// Whether every function compiled.
pub open spec fn all_compiled(results: Seq<Result<CompiledFunction, CompileError>>) -> bool {
    forall|i: int| 0 <= i < results.len() ==> (#[trigger] results[i]) is Ok
}

/// Whether `e` is the failure of the first function that did not compile.
pub open spec fn first_failure(
    results: Seq<Result<CompiledFunction, CompileError>>,
    e: CompileError,
) -> bool {
    exists|i: int|
        0 <= i < results.len() && results[i] == Err::<CompiledFunction, CompileError>(e) && forall|
            j: int,
        |
            0 <= j < i ==> (#[trigger] results[j]) is Ok
}

/// The address transforms of the compiled functions `fs`.
pub open spec fn address_transforms_of(fs: Seq<Result<CompiledFunction, CompileError>>) -> Seq<
    Option<FunctionAddressTransform>,
> {
    fs.map_values(|r: Result<CompiledFunction, CompileError>| r->Ok_0.address_transform)
}

/// The frame layouts of the compiled functions `fs`.
pub open spec fn frame_layouts_of(fs: Seq<Result<CompiledFunction, CompileError>>) -> Seq<
    Option<FrameLayout>,
> {
    fs.map_values(|r: Result<CompiledFunction, CompileError>| r->Ok_0.frame_layout)
}

/// Whether `m` holds, at each function's index, what compiling it produced.
pub open spec fn collected(
    results: Seq<Result<CompiledFunction, CompileError>>,
    m: ModuleCompilation,
) -> bool {
    &&& m.functions@.len() == results.len()
    &&& m.relocations@.len() == results.len()
    &&& forall|i: int|
        0 <= i < results.len() ==> (#[trigger] m.functions@[i])@ == results[i]->Ok_0.code@
            && m.relocations@[i]@ == results[i]->Ok_0.relocs@
    &&& m.address_transforms@ == somes(address_transforms_of(results))
    &&& m.frame_layouts@ == somes(frame_layouts_of(results))
}

/// Gathers the results of compiling each function of a module, given in
/// function order whatever order they completed in: every function's code
/// and relocations at its index, and its debug information where there is
/// some. If a function failed, nothing is kept and the failure of the first
/// such function is returned.
pub fn collect_compiled(results: Vec<Result<CompiledFunction, CompileError>>) -> (r: Result<
    ModuleCompilation,
    CompileError,
>)
    ensures
        r is Ok <==> all_compiled(results@),
        r is Err ==> first_failure(results@, r->Err_0),
        r is Ok ==> collected(results@, r->Ok_0),
{
    let ghost all = results@;
    let mut rest = results;
    let mut functions: Vec<Vec<u8>> = Vec::new();
    let mut relocations: Vec<Vec<Relocation>> = Vec::new();
    let mut address_transforms: Vec<FunctionAddressTransform> = Vec::new();
    let mut frame_layouts: Vec<FrameLayout> = Vec::new();
    let ghost mut k: int = 0;
    assert(all.subrange(0, 0) == Seq::<Result<CompiledFunction, CompileError>>::empty());
    while rest.len() > 0
        invariant
            0 <= k <= all.len(),
            all == results@,
            rest@ == all.subrange(k, all.len() as int),
            all_compiled(all.subrange(0, k)),
            collected(
                all.subrange(0, k),
                ModuleCompilation { functions, relocations, address_transforms, frame_layouts },
            ),
        decreases rest@.len(),
    {
        let ghost pre = all.subrange(0, k);
        let ghost next = all.subrange(0, k + 1);
        assert(next.drop_last() == pre);
        assert(next.last() == all[k]);
        assert(address_transforms_of(next).drop_last() == address_transforms_of(pre));
        assert(frame_layouts_of(next).drop_last() == frame_layouts_of(pre));
        let first = rest.remove(0);
        assert(rest@ == all.subrange(k + 1, all.len() as int));
        match first {
            Ok(f) => {
                functions.push(f.code);
                relocations.push(f.relocs);
                match f.address_transform {
                    Some(at) => address_transforms.push(at),
                    None => {},
                }
                match f.frame_layout {
                    Some(fl) => frame_layouts.push(fl),
                    None => {},
                }
            },
            Err(e) => {
                assert(all[k] == Err::<CompiledFunction, CompileError>(e));
                assert(first_failure(all, e)) by {
                    assert forall|j: int| 0 <= j < k implies (#[trigger] all[j]) is Ok by {
                        assert(all[j] == pre[j]);
                    }
                }
                assert(!all_compiled(all));
                return Err(e);
            },
        }
        proof {
            assert forall|j: int| 0 <= j < k + 1 implies (#[trigger] next[j]) is Ok by {
                if j < k {
                    assert(next[j] == pre[j]);
                }
            }
            k = k + 1;
        }
    }
    assert(all.subrange(0, k) == all);
    Ok(ModuleCompilation { functions, relocations, address_transforms, frame_layouts })
}

/// The debug information of a function whose code is `code_len` bytes long,
/// whose instructions in ascending emitted offset are `insts`, and whose
/// calling convention is `call_conv`: where it lies in the source and its
/// frame layout, if debug information is requested, and nothing otherwise.
pub fn function_debug_info(
    code_len: usize,
    insts: &Vec<EmittedInstruction>,
    call_conv: CallConv,
    generate_debug_info: bool,
) -> (r: (Option<FunctionAddressTransform>, Option<FrameLayout>))
    requires
        ordered_instructions(insts@),
    ensures
        !generate_debug_info ==> r.0 is None && r.1 is None,
        generate_debug_info ==> r.0 is Some && r.1 is Some,
        generate_debug_info ==> r.0->Some_0.body_offset == 0 && r.0->Some_0.body_len == code_len
            && r.0->Some_0.locations@.len() == insts@.len() && forall|i: int|
            0 <= i < insts@.len() ==> #[trigger] r.0->Some_0.locations@[i] == (
            InstructionAddressTransform {
                srcloc: insts@[i].srcloc,
                code_offset: insts@[i].offset,
                code_len: insts@[i].size,
            }),
        generate_debug_info ==> r.1->Some_0.call_conv == call_conv && r.1->Some_0.commands@
            == frame_layout_from(insts@, 0),
{
    if !generate_debug_info {
        return (None, None);
    }
    let locations = get_address_transform(insts);
    let commands = get_frame_layout(insts);
    (
        Some(FunctionAddressTransform { locations, body_offset: 0, body_len: code_len }),
        Some(FrameLayout { call_conv, commands }),
    )
}

/// Concurrency never reorders or drops results: what is collected is fixed
/// by each function's result at its own index, so a parallel and a
/// sequential compile that produce the same per-function results collect the
/// same code, relocations and frame layouts at every index.
pub proof fn law_collection_in_index_order(
    results: Seq<Result<CompiledFunction, CompileError>>,
    m1: ModuleCompilation,
    m2: ModuleCompilation,
)
    requires
        collected(results, m1),
        collected(results, m2),
    ensures
        m1.functions@.len() == m2.functions@.len() == results.len(),
        m1.relocations@.len() == m2.relocations@.len() == results.len(),
        forall|i: int|
            0 <= i < results.len() ==> (#[trigger] m1.relocations@[i])@ == m2.relocations@[i]@
                && m1.relocations@[i]@ == results[i]->Ok_0.relocs@,
        forall|i: int|
            0 <= i < results.len() ==> (#[trigger] m1.functions@[i])@ == m2.functions@[i]@,
        m1.address_transforms@ == m2.address_transforms@,
        m1.frame_layouts@ == m2.frame_layouts@,
{
    assert forall|i: int| 0 <= i < results.len() implies (#[trigger] m1.relocations@[i])@
        == m2.relocations@[i]@ && m1.relocations@[i]@ == results[i]->Ok_0.relocs@ by {
        assert(m1.functions@[i]@ == results[i]->Ok_0.code@);
        assert(m2.functions@[i]@ == results[i]->Ok_0.code@);
    }
    assert forall|i: int| 0 <= i < results.len() implies (#[trigger] m1.functions@[i])@
        == m2.functions@[i]@ by {
        assert(m1.functions@[i]@ == results[i]->Ok_0.code@);
        assert(m2.functions@[i]@ == results[i]->Ok_0.code@);
    }
}

} // verus!

use vstd::prelude::*;

use crate::cfi::{CallFrameInstruction, Register};
use crate::error::FrameError;
use crate::registers::{RegisterMap, X86_64_RSP};

verus! {

/// How the frame changed at one point of a function's code. Registers are the
/// code generator's register units, not yet DWARF numbers.
#[derive(Debug, Clone, Copy, PartialEq, Eq, Structural)]
pub enum FrameLayoutCommand {
    /// The following commands take effect this many bytes further on.
    MoveLocationBy(u32),
    /// The CFA is now this register plus this offset.
    CallFrameAddressAt { reg: u16, offset: i32 },
    /// The register is saved at CFA plus this offset.
    RegisterAt { reg: u16, cfa_offset: i32 },
}

/// The CFA rule currently in force: a DWARF register and an offset.
#[derive(Debug, Clone, Copy, PartialEq, Eq, Structural)]
pub struct CfaState {
    pub register: Register,
    pub offset: u32,
}

/// The rule at the entry of an x86-64 function: the CFA is the stack pointer
/// plus the size of the return address.
pub open spec fn entry_state() -> CfaState {
    CfaState { register: X86_64_RSP, offset: 8 }
}

/// The data alignment factor is -8: a saved register's CFA offset must be a
/// multiple of 8, and is written divided by -8.
pub open spec fn factored_offset(cfa_offset: i32) -> int {
    -(cfa_offset as int / 8)
}

/// The instructions that describe the move to CFA rule `next` from `st`:
/// both parts changed, only the offset, only the register, or nothing.
pub open spec fn cfa_change(st: CfaState, next: CfaState) -> Seq<CallFrameInstruction> {
    let register_changed = next.register != st.register;
    let offset_changed = next.offset != st.offset;
    if register_changed && offset_changed {
        seq![CallFrameInstruction::DefCfa(next.register, next.offset)]
    } else if offset_changed {
        seq![CallFrameInstruction::DefCfaOffset(next.offset)]
    } else if register_changed {
        seq![CallFrameInstruction::DefCfaRegister(next.register)]
    } else {
        seq![]
    }
}

/// One command applied to CFA rule `st`: the new rule and the instructions
/// emitted, or the failure.
pub open spec fn step_result(m: RegisterMap, st: CfaState, c: FrameLayoutCommand) -> Result<
    (CfaState, Seq<CallFrameInstruction>),
    FrameError,
> {
    match c {
        FrameLayoutCommand::MoveLocationBy(delta) => Ok(
            (st, seq![CallFrameInstruction::AdvanceLoc(delta)]),
        ),
        FrameLayoutCommand::CallFrameAddressAt { reg, offset } => match m.lookup(reg) {
            Err(e) => Err(FrameError::Register(e)),
            Ok(r) => if offset < 0 {
                Err(FrameError::NegativeCfaOffset)
            } else {
                let next = CfaState { register: r, offset: offset as u32 };
                Ok((next, cfa_change(st, next)))
            },
        },
        FrameLayoutCommand::RegisterAt { reg, cfa_offset } => match m.lookup(reg) {
            Err(e) => Err(FrameError::Register(e)),
            Ok(r) => if cfa_offset as int % 8 != 0 {
                Err(FrameError::MisalignedRegisterOffset)
            } else {
                Ok((st, seq![CallFrameInstruction::Offset(r, factored_offset(cfa_offset) as i32)]))
            },
        },
    }
}

/// The instructions for `cmds` applied in turn from CFA rule `st`, or the
/// first command's failure.
pub open spec fn translate(m: RegisterMap, st: CfaState, cmds: Seq<FrameLayoutCommand>) -> Result<
    Seq<CallFrameInstruction>,
    FrameError,
>
    decreases cmds.len(),
{
    if cmds.len() == 0 {
        Ok(seq![])
    } else {
        match step_result(m, st, cmds[0]) {
            Err(e) => Err(e),
            Ok((next, out)) => match translate(m, next, cmds.drop_first()) {
                Err(e) => Err(e),
                Ok(rest) => Ok(out + rest),
            },
        }
    }
}

/// The instructions `out` followed by what `r` holds, or its failure.
pub open spec fn prepend(
    out: Seq<CallFrameInstruction>,
    r: Result<Seq<CallFrameInstruction>, FrameError>,
) -> Result<Seq<CallFrameInstruction>, FrameError> {
    match r {
        Err(e) => Err(e),
        Ok(rest) => Ok(out + rest),
    }
}

/// Applies one command to the rule `st`, appending what it emits to `out`.
pub fn step(m: &RegisterMap, st: &mut CfaState, c: FrameLayoutCommand, out: &mut Vec<
    CallFrameInstruction,
>) -> (r: Result<(), FrameError>)
    requires
        m.wf(),
    ensures
        r is Ok <==> step_result(*m, *old(st), c) is Ok,
        r is Err ==> r->Err_0 == step_result(*m, *old(st), c)->Err_0,
        r is Ok ==> *final(st) == step_result(*m, *old(st), c)->Ok_0.0 && final(out)@ == old(
            out,
        )@ + step_result(*m, *old(st), c)->Ok_0.1,
{
    match c {
        FrameLayoutCommand::MoveLocationBy(delta) => {
            out.push(CallFrameInstruction::AdvanceLoc(delta));
        },
        FrameLayoutCommand::CallFrameAddressAt { reg, offset } => {
            let mapped = match m.map_reg(reg) {
                Ok(r) => r,
                Err(e) => return Err(FrameError::Register(e)),
            };
            if offset < 0 {
                return Err(FrameError::NegativeCfaOffset);
            }
            let offset = offset as u32;
            let register_changed = mapped != st.register;
            let offset_changed = offset != st.offset;
            if register_changed && offset_changed {
                out.push(CallFrameInstruction::DefCfa(mapped, offset));
            } else if offset_changed {
                out.push(CallFrameInstruction::DefCfaOffset(offset));
            } else if register_changed {
                out.push(CallFrameInstruction::DefCfaRegister(mapped));
            }
            *st = CfaState { register: mapped, offset };
        },
        FrameLayoutCommand::RegisterAt { reg, cfa_offset } => {
            let mapped = match m.map_reg(reg) {
                Ok(r) => r,
                Err(e) => return Err(FrameError::Register(e)),
            };
            // split into sign and magnitude so that only unsigned division is used
            let factored: i32 = if cfa_offset <= 0 {
                let magnitude: u32 = (-(cfa_offset as i64)) as u32;
                if magnitude % 8 != 0 {
                    return Err(FrameError::MisalignedRegisterOffset);
                }
                assert(cfa_offset as int % 8 == 0 && factored_offset(cfa_offset) == magnitude / 8)
                    by (nonlinear_arith)
                    requires
                        magnitude == -cfa_offset,
                        magnitude % 8 == 0,
                ;
                (magnitude / 8) as i32
            } else {
                let magnitude: u32 = cfa_offset as u32;
                if magnitude % 8 != 0 {
                    return Err(FrameError::MisalignedRegisterOffset);
                }
                assert(factored_offset(cfa_offset) == -(magnitude / 8) as int);
                -((magnitude / 8) as i32)
            };
            out.push(CallFrameInstruction::Offset(mapped, factored));
        },
    }
    Ok(())
}

/// Translates a function's frame layout commands into call frame
/// instructions, starting from the x86-64 entry rule and emitting a CFA
/// definition only where the rule actually changes.
pub fn translate_commands(m: &RegisterMap, commands: &Vec<FrameLayoutCommand>) -> (r: Result<
    Vec<CallFrameInstruction>,
    FrameError,
>)
    requires
        m.wf(),
    ensures
        r is Ok <==> translate(*m, entry_state(), commands@) is Ok,
        r is Err ==> r->Err_0 == translate(*m, entry_state(), commands@)->Err_0,
        r is Ok ==> r->Ok_0@ == translate(*m, entry_state(), commands@)->Ok_0,
{
    let mut st = CfaState { register: X86_64_RSP, offset: 8 };
    let mut out: Vec<CallFrameInstruction> = Vec::new();
    let mut k: usize = 0;
    proof {
        assert(commands@.skip(0) == commands@);
        let whole = translate(*m, entry_state(), commands@);
        if whole is Ok {
            assert(out@ + whole->Ok_0 == whole->Ok_0);
        }
    }
    while k < commands.len()
        invariant
            k <= commands@.len(),
            m.wf(),
            translate(*m, entry_state(), commands@) == prepend(
                out@,
                translate(*m, st, commands@.skip(k as int)),
            ),
        decreases commands@.len() - k,
    {
        let ghost rest = commands@.skip(k as int);
        assert(rest[0] == commands@[k as int]);
        assert(rest.drop_first() == commands@.skip(k + 1));
        let ghost before = out@;
        let ghost st0 = st;
        let r = step(m, &mut st, commands[k], &mut out);
        if r.is_err() {
            return Err(r.unwrap_err());
        }
        assert(before + (step_result(*m, st0, rest[0])->Ok_0.1 + translate(
            *m,
            st,
            rest.drop_first(),
        )->Ok_0) == out@ + translate(*m, st, rest.drop_first())->Ok_0);
        k = k + 1;
    }
    assert(commands@.skip(k as int).len() == 0);
    assert(out@ + seq![] == out@);
    Ok(out)
}

} // verus!

use unwind_table::cfa::{step, translate_commands, CfaState, FrameLayoutCommand};
use unwind_table::cfi::CallFrameInstruction;
use unwind_table::error::{FrameError, RegisterMappingError};
use unwind_table::leb128::{write_sleb128, write_uleb128};
use unwind_table::registers::{dwarf_register, RegisterMap};

/// Register units of the test map: unit i is displayed as the i-th name.
fn x86_map() -> RegisterMap {
    let names = ["%rax", "%rcx", "%rdx", "%rbx", "%rsp", "%rbp", "%rsi", "%rdi", "%xmm0", "%r16"];
    RegisterMap::new("x86", names.iter().map(|n| n.to_string()).collect()).unwrap()
}

const RSP_UNIT: u16 = 4;
const RBP_UNIT: u16 = 5;
const RBX_UNIT: u16 = 3;
const XMM0_UNIT: u16 = 8;

#[test]
fn uleb128_known_values() {
    let mut out = Vec::new();
    write_uleb128(&mut out, 2);
    write_uleb128(&mut out, 127);
    write_uleb128(&mut out, 128);
    write_uleb128(&mut out, 624485);
    assert_eq!(out, vec![0x02, 0x7f, 0x80, 0x01, 0xe5, 0x8e, 0x26]);
}

#[test]
fn sleb128_known_values() {
    let mut out = Vec::new();
    write_sleb128(&mut out, -8);
    write_sleb128(&mut out, 63);
    write_sleb128(&mut out, 64);
    write_sleb128(&mut out, -64);
    write_sleb128(&mut out, -65);
    write_sleb128(&mut out, -123456);
    assert_eq!(
        out,
        vec![0x78, 0x3f, 0xc0, 0x00, 0x40, 0xbf, 0x7f, 0xc0, 0xbb, 0x78]
    );
}

#[test]
fn sleb128_extremes() {
    let mut out = Vec::new();
    write_sleb128(&mut out, i64::MIN);
    assert_eq!(out.len(), 10);
    assert_eq!(out[9], 0x7f);
    let mut out = Vec::new();
    write_uleb128(&mut out, u64::MAX);
    assert_eq!(out.len(), 10);
    assert_eq!(out[9], 0x01);
}

#[test]
fn register_names_follow_dwarf_numbering() {
    assert_eq!(dwarf_register(&"%rax".to_string()), Some(gimli::X86_64::RAX.0));
    assert_eq!(dwarf_register(&"%rdx".to_string()), Some(gimli::X86_64::RDX.0));
    assert_eq!(dwarf_register(&"%rcx".to_string()), Some(gimli::X86_64::RCX.0));
    assert_eq!(dwarf_register(&"%rbx".to_string()), Some(gimli::X86_64::RBX.0));
    assert_eq!(dwarf_register(&"%rsi".to_string()), Some(gimli::X86_64::RSI.0));
    assert_eq!(dwarf_register(&"%rdi".to_string()), Some(gimli::X86_64::RDI.0));
    assert_eq!(dwarf_register(&"%rbp".to_string()), Some(gimli::X86_64::RBP.0));
    assert_eq!(dwarf_register(&"%rsp".to_string()), Some(gimli::X86_64::RSP.0));
    assert_eq!(dwarf_register(&"%r16".to_string()), Some(gimli::X86_64::RA.0));
    assert_eq!(dwarf_register(&"%xmm0".to_string()), None);
}

#[test]
fn register_map_rejects_other_architectures() {
    let r = RegisterMap::new("arm32", vec!["%r0".to_string()]);
    assert_eq!(r.unwrap_err(), RegisterMappingError::UnsupportedArchitecture);
}

#[test]
fn register_map_lookup_errors() {
    let m = x86_map();
    assert_eq!(m.map_reg(RBP_UNIT), Ok(6));
    assert_eq!(m.map_reg(100), Err(RegisterMappingError::MissingBank));
    assert_eq!(
        m.map_reg(XMM0_UNIT),
        Err(RegisterMappingError::UnsupportedRegisterBank("%xmm0".to_string()))
    );
}

#[test]
fn repeated_cfa_definition_emits_nothing() {
    let m = x86_map();
    // the rule starts as (rsp, 8), so neither command changes it
    let cmds = vec![
        FrameLayoutCommand::CallFrameAddressAt { reg: RSP_UNIT, offset: 8 },
        FrameLayoutCommand::CallFrameAddressAt { reg: RSP_UNIT, offset: 8 },
    ];
    assert_eq!(translate_commands(&m, &cmds), Ok(vec![]));
}

#[test]
fn repeated_cfa_definition_from_other_register() {
    let m = x86_map();
    let mut st = CfaState { register: 6, offset: 8 };
    let mut out = Vec::new();
    let c = FrameLayoutCommand::CallFrameAddressAt { reg: RBP_UNIT, offset: 8 };
    step(&m, &mut st, c, &mut out).unwrap();
    step(&m, &mut st, c, &mut out).unwrap();
    assert!(out.is_empty());
    assert_eq!(st, CfaState { register: 6, offset: 8 });
}

#[test]
fn register_and_offset_change_emit_one_def_cfa() {
    let m = x86_map();
    let cmds = vec![FrameLayoutCommand::CallFrameAddressAt { reg: RBP_UNIT, offset: 16 }];
    assert_eq!(
        translate_commands(&m, &cmds),
        Ok(vec![CallFrameInstruction::DefCfa(6, 16)])
    );
}

#[test]
fn single_changes_emit_single_updates() {
    let m = x86_map();
    let cmds = vec![
        FrameLayoutCommand::MoveLocationBy(1),
        FrameLayoutCommand::CallFrameAddressAt { reg: RSP_UNIT, offset: 16 },
        FrameLayoutCommand::MoveLocationBy(3),
        FrameLayoutCommand::CallFrameAddressAt { reg: RBP_UNIT, offset: 16 },
        FrameLayoutCommand::CallFrameAddressAt { reg: RBP_UNIT, offset: 16 },
    ];
    assert_eq!(
        translate_commands(&m, &cmds),
        Ok(vec![
            CallFrameInstruction::AdvanceLoc(1),
            CallFrameInstruction::DefCfaOffset(16),
            CallFrameInstruction::AdvanceLoc(3),
            CallFrameInstruction::DefCfaRegister(6),
        ])
    );
}

#[test]
fn saved_register_offset_is_factored() {
    let m = x86_map();
    let cmds = vec![FrameLayoutCommand::RegisterAt { reg: RBX_UNIT, cfa_offset: -16 }];
    assert_eq!(
        translate_commands(&m, &cmds),
        Ok(vec![CallFrameInstruction::Offset(3, 2)])
    );
    let cmds = vec![FrameLayoutCommand::RegisterAt { reg: RBX_UNIT, cfa_offset: 16 }];
    assert_eq!(
        translate_commands(&m, &cmds),
        Ok(vec![CallFrameInstruction::Offset(3, -2)])
    );
}

#[test]
fn misaligned_saved_register_fails() {
    let m = x86_map();
    let cmds = vec![FrameLayoutCommand::RegisterAt { reg: RBX_UNIT, cfa_offset: -15 }];
    assert_eq!(
        translate_commands(&m, &cmds),
        Err(FrameError::MisalignedRegisterOffset)
    );
}

#[test]
fn negative_cfa_offset_fails() {
    let m = x86_map();
    let cmds = vec![FrameLayoutCommand::CallFrameAddressAt { reg: RBP_UNIT, offset: -8 }];
    assert_eq!(translate_commands(&m, &cmds), Err(FrameError::NegativeCfaOffset));
}

#[test]
fn unmapped_register_fails() {
    let m = x86_map();
    let cmds = vec![
        FrameLayoutCommand::MoveLocationBy(1),
        FrameLayoutCommand::RegisterAt { reg: XMM0_UNIT, cfa_offset: -16 },
    ];
    assert_eq!(
        translate_commands(&m, &cmds),
        Err(FrameError::Register(RegisterMappingError::UnsupportedRegisterBank(
            "%xmm0".to_string()
        )))
    );
    let cmds = vec![FrameLayoutCommand::CallFrameAddressAt { reg: 40, offset: 16 }];
    assert_eq!(
        translate_commands(&m, &cmds),
        Err(FrameError::Register(RegisterMappingError::MissingBank))
    );
}

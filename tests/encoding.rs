use gimli::UnwindSection;
use unwind_table::cfa::FrameLayoutCommand;
use unwind_table::cfi::CallFrameInstruction;
use unwind_table::error::FrameError;
use unwind_table::frame::{get_debug_frame_bytes, x86_64_header, CallConv, FrameLayout};
use unwind_table::registers::RegisterMap;
use unwind_table::systemv::UnwindInfo;
use unwind_table::table::{EncodedFrameTable, FrameTable};

fn x86_map() -> RegisterMap {
    let names = ["%rax", "%rcx", "%rdx", "%rbx", "%rsp", "%rbp", "%rsi", "%rdi", "%xmm0", "%r16"];
    RegisterMap::new("x86", names.iter().map(|n| n.to_string()).collect()).unwrap()
}

const RSP_UNIT: u16 = 4;
const RBP_UNIT: u16 = 5;
const RBX_UNIT: u16 = 3;

/// push rbp; mov rbp, rsp; push rbx
fn prologue_layout() -> FrameLayout {
    FrameLayout {
        call_conv: CallConv::SystemV,
        commands: vec![
            FrameLayoutCommand::MoveLocationBy(1),
            FrameLayoutCommand::CallFrameAddressAt { reg: RSP_UNIT, offset: 16 },
            FrameLayoutCommand::RegisterAt { reg: RBP_UNIT, cfa_offset: -16 },
            FrameLayoutCommand::MoveLocationBy(3),
            FrameLayoutCommand::CallFrameAddressAt { reg: RBP_UNIT, offset: 16 },
            FrameLayoutCommand::MoveLocationBy(1),
            FrameLayoutCommand::RegisterAt { reg: RBX_UNIT, cfa_offset: -24 },
        ],
    }
}

fn two_function_table() -> FrameTable {
    let layouts = vec![
        prologue_layout(),
        FrameLayout { call_conv: CallConv::Fast, commands: vec![] },
    ];
    get_debug_frame_bytes(&vec![40, 12], &x86_map(), &layouts, 8).unwrap()
}

fn encode(t: &FrameTable) -> EncodedFrameTable {
    t.encode().unwrap()
}

#[test]
fn header_entry_bytes() {
    let t = FrameTable { header: x86_64_header(8), entries: vec![] };
    let e = encode(&t);
    assert_eq!(
        e.bytes,
        vec![
            0x14, 0, 0, 0, // length
            0xff, 0xff, 0xff, 0xff, // id
            4, 0, 8, 0, // version, augmentation, address size, segment selector size
            0x01, 0x78, 0x10, // code and data alignment, return address register
            0x0c, 0x07, 0x08, // DefCfa(rsp, 8)
            0x90, 0x01, // Offset(ra, 1)
            0, 0, 0, 0, // padding
        ]
    );
    assert!(e.relocations.is_empty());
}

#[test]
fn function_entry_bytes_and_relocations() {
    let t = two_function_table();
    assert_eq!(
        t.entries[0].instructions,
        vec![
            CallFrameInstruction::AdvanceLoc(1),
            CallFrameInstruction::DefCfaOffset(16),
            CallFrameInstruction::Offset(6, 2),
            CallFrameInstruction::AdvanceLoc(3),
            CallFrameInstruction::DefCfaRegister(6),
            CallFrameInstruction::AdvanceLoc(1),
            CallFrameInstruction::Offset(3, 3),
        ]
    );
    let e = encode(&t);
    assert_eq!(
        &e.bytes[24..64],
        &[
            0x24, 0, 0, 0, // length
            0, 0, 0, 0, // header entry offset
            0, 0, 0, 0, 0, 0, 0, 0, // address placeholder
            40, 0, 0, 0, 0, 0, 0, 0, // code length
            0x41, 0x0e, 0x10, 0x86, 0x02, 0x43, 0x0d, 0x06, 0x41, 0x83, 0x03, // instructions
            0, 0, 0, 0, 0, // padding
        ][..]
    );
    assert_eq!(e.relocations, vec![32, 72]);
}

#[test]
fn encoding_is_deterministic() {
    let t1 = two_function_table();
    let t2 = two_function_table();
    assert_eq!(encode(&t1), encode(&t2));
    assert_eq!(encode(&t1), encode(&t1));
}

#[test]
fn length_prefixes_and_padding() {
    for address_size in [4u8, 8u8] {
        let layouts = vec![prologue_layout(), prologue_layout()];
        let t = get_debug_frame_bytes(&vec![40, 7], &x86_map(), &layouts, address_size).unwrap();
        let bytes = encode(&t).bytes;
        let mut at = 0usize;
        let mut entries = 0;
        while at < bytes.len() {
            let len = u32::from_le_bytes([bytes[at], bytes[at + 1], bytes[at + 2], bytes[at + 3]])
                as usize;
            assert_eq!((len + 4) % address_size as usize, 0);
            at += 4 + len;
            entries += 1;
        }
        assert_eq!(at, bytes.len());
        assert_eq!(entries, 3);
    }
}

#[test]
fn function_without_commands_gets_complete_entry() {
    let t = two_function_table();
    assert!(t.entries[1].instructions.is_empty());
    let e = encode(&t);
    assert_eq!(
        &e.bytes[64..],
        &[
            0x14, 0, 0, 0, 0, 0, 0, 0, 0, 0, 0, 0, 0, 0, 0, 0, 12, 0, 0, 0, 0, 0, 0, 0
        ][..]
    );
}

#[test]
fn large_advance_fails() {
    let mut t = FrameTable { header: x86_64_header(8), entries: vec![] };
    t.entries.push(UnwindInfo::new(vec![CallFrameInstruction::AdvanceLoc(63)], 100));
    let e = encode(&t);
    assert_eq!(e.bytes[48], 0x7f);
    t.entries.push(UnwindInfo::new(
        vec![CallFrameInstruction::AdvanceLoc(64), CallFrameInstruction::DefCfaOffset(16)],
        100,
    ));
    assert_eq!(t.encode(), Err(FrameError::AdvanceTooLarge));
}

#[test]
fn unsupported_calling_convention_fails() {
    let layouts = vec![
        prologue_layout(),
        FrameLayout { call_conv: CallConv::WindowsFastcall, commands: vec![] },
    ];
    assert_eq!(
        get_debug_frame_bytes(&vec![40, 12], &x86_map(), &layouts, 8),
        Err(FrameError::UnsupportedCallingConvention)
    );
}

#[test]
fn first_failing_function_is_reported() {
    let layouts = vec![
        prologue_layout(),
        FrameLayout {
            call_conv: CallConv::Cold,
            commands: vec![FrameLayoutCommand::RegisterAt { reg: RBX_UNIT, cfa_offset: -12 }],
        },
        FrameLayout {
            call_conv: CallConv::Cold,
            commands: vec![FrameLayoutCommand::CallFrameAddressAt { reg: RBX_UNIT, offset: -8 }],
        },
    ];
    assert_eq!(
        get_debug_frame_bytes(&vec![40, 12, 12], &x86_map(), &layouts, 8),
        Err(FrameError::MisalignedRegisterOffset)
    );
}

#[test]
fn standard_reader_decodes_the_same_instructions() {
    let t = two_function_table();
    let bytes = encode(&t).bytes;
    let mut section = gimli::DebugFrame::new(&bytes, gimli::LittleEndian);
    section.set_address_size(8);
    let bases = gimli::BaseAddresses::default();
    let mut entries = section.entries(&bases);
    let mut fdes = Vec::new();
    while let Some(entry) = entries.next().unwrap() {
        match entry {
            gimli::CieOrFde::Cie(cie) => {
                assert_eq!(cie.code_alignment_factor(), 1);
                assert_eq!(cie.data_alignment_factor(), -8);
                assert_eq!(cie.return_address_register(), gimli::X86_64::RA);
                let mut it = cie.instructions(&section, &bases);
                let mut decoded = Vec::new();
                while let Some(i) = it.next().unwrap() {
                    decoded.push(format!("{:?}", i));
                }
                assert_eq!(
                    decoded[..2],
                    [
                        "DefCfa { register: Register(7), offset: 8 }".to_string(),
                        "Offset { register: Register(16), factored_offset: 1 }".to_string(),
                    ]
                );
            }
            gimli::CieOrFde::Fde(partial) => {
                let fde = partial
                    .parse(|s, b, o| s.cie_from_offset(b, o))
                    .unwrap();
                let mut it = fde.instructions(&section, &bases);
                let mut decoded = Vec::new();
                while let Some(i) = it.next().unwrap() {
                    if i != gimli::CallFrameInstruction::Nop {
                        decoded.push(i);
                    }
                }
                fdes.push((fde.initial_address(), fde.len(), decoded));
            }
        }
    }
    assert_eq!(fdes.len(), 2);
    let r = gimli::Register;
    assert_eq!(fdes[0].0, 0);
    assert_eq!(fdes[0].1, 40);
    assert_eq!(
        fdes[0].2,
        vec![
            gimli::CallFrameInstruction::AdvanceLoc { delta: 1 },
            gimli::CallFrameInstruction::DefCfaOffset { offset: 16 },
            gimli::CallFrameInstruction::Offset { register: r(6), factored_offset: 2 },
            gimli::CallFrameInstruction::AdvanceLoc { delta: 3 },
            gimli::CallFrameInstruction::DefCfaRegister { register: r(6) },
            gimli::CallFrameInstruction::AdvanceLoc { delta: 1 },
            gimli::CallFrameInstruction::Offset { register: r(3), factored_offset: 3 },
        ]
    );
    assert_eq!(fdes[1].1, 12);
    assert!(fdes[1].2.is_empty());
}

#[test]
fn bytes_match_gimli_writer() {
    let t = two_function_table();
    let ours = encode(&t).bytes;

    let encoding = gimli::Encoding {
        format: gimli::Format::Dwarf32,
        version: 4,
        address_size: 8,
    };
    let mut table = gimli::write::FrameTable::default();
    let mut cie = gimli::write::CommonInformationEntry::new(encoding, 1, -8, gimli::X86_64::RA);
    cie.add_instruction(gimli::write::CallFrameInstruction::Cfa(gimli::X86_64::RSP, 8));
    cie.add_instruction(gimli::write::CallFrameInstruction::Offset(gimli::X86_64::RA, -8));
    let cie_id = table.add_cie(cie);
    for entry in &t.entries {
        table.add_fde(cie_id, entry.to_fde(gimli::write::Address::Constant(0)));
    }
    let mut section = gimli::write::DebugFrame(gimli::write::EndianVec::new(gimli::LittleEndian));
    table.write_debug_frame(&mut section).unwrap();
    assert_eq!(ours, section.0.into_vec());
}

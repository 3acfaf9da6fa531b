use gba_core::ThumbInstruction;

#[test]
fn la_prueba_del_plan_mov_r0_5() {
    assert_eq!(ThumbInstruction::decode(0x2005), ThumbInstruction::MoveCompareAddSubImm);
    assert_eq!(
        ThumbInstruction::decode(0x2005).describe(),
        "MOV/CMP/ADD/SUB con inmediato (formato 3 THUMB)"
    );
}

#[test]
fn cubre_los_formatos_principales() {
    let casos = [
        (0x0000u16, ThumbInstruction::MoveShifted),
        (0x1C00, ThumbInstruction::AddSubtract),
        (0x2005, ThumbInstruction::MoveCompareAddSubImm),
        (0x4000, ThumbInstruction::AluOperation),
        (0x4700, ThumbInstruction::HiRegisterOpBx),
        (0x4800, ThumbInstruction::PcRelativeLoad),
        (0x5000, ThumbInstruction::LoadStoreRegOffset),
        (0x5200, ThumbInstruction::LoadStoreSignExtended),
        (0x6000, ThumbInstruction::LoadStoreImmOffset),
        (0x8000, ThumbInstruction::LoadStoreHalfword),
        (0x9000, ThumbInstruction::SpRelativeLoadStore),
        (0xA000, ThumbInstruction::LoadAddress),
        (0xB000, ThumbInstruction::AddOffsetToSp),
        (0xB400, ThumbInstruction::PushPop),
        (0xC000, ThumbInstruction::MultipleLoadStore),
        (0xD000, ThumbInstruction::ConditionalBranch),
        (0xDF00, ThumbInstruction::SoftwareInterrupt),
        (0xE000, ThumbInstruction::UnconditionalBranch),
        (0xF000, ThumbInstruction::LongBranchWithLink),
    ];
    for (instr, esperado) in casos {
        assert_eq!(
            ThumbInstruction::decode(instr),
            esperado,
            "fallo decodificando {instr:#06X}"
        );
    }
}

#[test]
fn los_huecos_de_arm7tdmi_son_indefinidos() {
    assert_eq!(ThumbInstruction::decode(0xE800), ThumbInstruction::Undefined);
    assert_eq!(ThumbInstruction::decode(0xDE00), ThumbInstruction::Undefined);
}

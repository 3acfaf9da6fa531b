use gba_core::arm::decode;
use gba_core::{ArmInstruction, Condition, Cpsr, Decoded};

#[test]
fn extrae_la_condicion_de_los_bits_31_28() {
    assert_eq!(Condition::from_instr(0xEA00_002E), Condition::Al);
    assert_eq!(Condition::from_instr(0x0A00_002E), Condition::Eq);
    assert_eq!(Condition::from_instr(0x1A00_002E), Condition::Ne);
}

#[test]
fn al_siempre_pasa_y_nv_nunca() {
    let cpsr = Cpsr::from_bits(0);
    assert!(Condition::Al.passes(cpsr));
    assert!(!Condition::Nv.passes(cpsr));
}

#[test]
fn eq_y_ne_dependen_del_flag_z() {
    let mut cpsr = Cpsr::from_bits(0);
    cpsr.set_z(true);
    assert!(Condition::Eq.passes(cpsr));
    assert!(!Condition::Ne.passes(cpsr));
    cpsr.set_z(false);
    assert!(!Condition::Eq.passes(cpsr));
    assert!(Condition::Ne.passes(cpsr));
}

#[test]
fn condiciones_con_signo_ge_y_lt() {
    let mut cpsr = Cpsr::from_bits(0);
    cpsr.set_n(true);
    cpsr.set_v(true);
    assert!(Condition::Ge.passes(cpsr));
    assert!(!Condition::Lt.passes(cpsr));
    cpsr.set_v(false);
    assert!(!Condition::Ge.passes(cpsr));
    assert!(Condition::Lt.passes(cpsr));
}

#[test]
fn clasifica_el_salto_b_y_bl() {
    assert_eq!(
        ArmInstruction::decode(0xEA00_002E),
        ArmInstruction::Branch { link: false }
    );
    assert_eq!(
        ArmInstruction::decode(0xEB00_002E),
        ArmInstruction::Branch { link: true }
    );
}

#[test]
fn clasifica_los_formatos_principales() {
    assert_eq!(ArmInstruction::decode(0xE3A0_0005), ArmInstruction::DataProcessing);
    assert_eq!(ArmInstruction::decode(0xE10F_0000), ArmInstruction::PsrTransfer);
    assert_eq!(ArmInstruction::decode(0xE000_0091), ArmInstruction::Multiply);
    assert_eq!(ArmInstruction::decode(0xE12F_FF1E), ArmInstruction::BranchExchange);
    assert_eq!(
        ArmInstruction::decode(0xE590_1000),
        ArmInstruction::SingleDataTransfer
    );
    assert_eq!(
        ArmInstruction::decode(0xE8BD_8000),
        ArmInstruction::BlockDataTransfer
    );
    assert_eq!(
        ArmInstruction::decode(0xEF00_0000),
        ArmInstruction::SoftwareInterrupt
    );
}

#[test]
fn decode_dos_pasos_descarta_si_la_condicion_falla() {
    let mut cpsr = Cpsr::from_bits(0);

    assert_eq!(decode(0x0A00_002E, cpsr), Decoded::ConditionFailed(Condition::Eq));

    cpsr.set_z(true);
    assert_eq!(
        decode(0x0A00_002E, cpsr),
        Decoded::Execute(ArmInstruction::Branch { link: false })
    );
}

#[test]
fn el_texto_del_salto_coincide_con_la_prueba_del_plan() {
    let kind = ArmInstruction::decode(0xEA00_002E);
    assert_eq!(kind.describe(), "Salto (B / Branch)");
}

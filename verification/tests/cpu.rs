use gba_core::alu::{multiply_internal_cycles, shift_by_immediate, shift_by_register, ShiftType};
use gba_core::bus::{BIOS_SIZE, EWRAM_START, IO_START, IWRAM_START, ROM_START};
use gba_core::cpu::{Executed, LR, PC, PC_AHEAD_ARM, PC_AHEAD_THUMB, SP};
use gba_core::psr::PSR_VALID;
use gba_core::{
    ArmInstruction, Bus, Condition, Cpu, CpuMode, Decoded, Halt, Interrupt, RunStop, StepResult,
    ThumbInstruction,
};

#[test]
fn estado_de_reset_es_supervisor_arm_irq_fiq_off() {
    let cpu = Cpu::new();
    assert_eq!(cpu.mode(), CpuMode::Supervisor);
    assert!(!cpu.cpsr().thumb(), "arranca en estado ARM, no THUMB");
    assert!(cpu.cpsr().irq_disabled());
    assert!(cpu.cpsr().fiq_disabled());
    for i in 0..PC {
        assert_eq!(cpu.reg(i), 0);
    }
    assert_eq!(cpu.pc(), 0);
}

#[test]
fn lee_y_escribe_registros() {
    let mut cpu = Cpu::new();
    cpu.set_reg(0, 0xDEAD_BEEF);
    cpu.set_pc(0x0800_0000);
    assert_eq!(cpu.reg(0), 0xDEAD_BEEF);
    assert_eq!(cpu.pc(), 0x0800_0000);
    assert_eq!(cpu.reg(PC), 0x0800_0008);
}

#[test]
fn el_pipeline_adelanta_r15_en_arm() {
    let mut cpu = Cpu::new();
    assert!(!cpu.cpsr().thumb());
    cpu.set_pc(0x0800_0000);
    assert_eq!(cpu.pipeline_offset(), PC_AHEAD_ARM);
    assert_eq!(cpu.pc(), 0x0800_0000, "pc() no lleva desfase");
    assert_eq!(cpu.reg(PC), 0x0800_0008, "reg(PC) va dos instrucciones por delante");
}

#[test]
fn el_pipeline_adelanta_r15_en_thumb() {
    let mut cpu = Cpu::new();
    cpu.cpsr_mut().set_thumb(true);
    cpu.set_pc(0x0800_0000);
    assert_eq!(cpu.pipeline_offset(), PC_AHEAD_THUMB);
    assert_eq!(cpu.pc(), 0x0800_0000);
    assert_eq!(cpu.reg(PC), 0x0800_0004);
}

#[test]
fn fetch_lee_dos_bytes_en_thumb_y_cuatro_en_arm() {
    let mut bus = Bus::new(Vec::new());
    bus.write_u32(0x0300_0000, 0xAABB_CCDD);

    let mut cpu = Cpu::new();
    cpu.set_pc(0x0300_0000);

    assert!(!cpu.cpsr().thumb());
    assert_eq!(cpu.fetch(&bus), 0xAABB_CCDD);

    cpu.cpsr_mut().set_thumb(true);
    assert_eq!(cpu.fetch(&bus), 0x0000_CCDD);
}

#[test]
fn escribir_r15_guarda_el_valor_crudo() {
    let mut cpu = Cpu::new();
    cpu.set_reg(PC, 0x0800_1000);
    assert_eq!(cpu.pc(), 0x0800_1000);
    assert_eq!(cpu.reg(PC), 0x0800_1008);
}

#[test]
fn los_demas_registros_no_llevan_desfase() {
    let mut cpu = Cpu::new();
    for i in 0..PC {
        cpu.set_reg(i, 0x1000 + i as u32);
    }
    for i in 0..PC {
        assert_eq!(cpu.reg(i), 0x1000 + i as u32);
    }
}

#[test]
fn los_flags_del_cpsr_se_ponen_y_se_leen() {
    let mut cpu = Cpu::new();
    let cpsr = cpu.cpsr_mut();
    cpsr.set_n(true);
    cpsr.set_z(true);
    cpsr.set_c(false);
    cpsr.set_v(true);
    let cpsr = cpu.cpsr();
    assert!(cpsr.n() && cpsr.z() && cpsr.v());
    assert!(!cpsr.c());
}

#[test]
fn set_mode_banca_sp_y_lr_por_modo() {
    let mut cpu = Cpu::new();
    cpu.set_reg(SP, 0x0300_7F00);

    cpu.set_mode(CpuMode::Irq);
    assert_eq!(cpu.sp(), 0);
    cpu.set_reg(SP, 0x0300_7FA0);

    cpu.set_mode(CpuMode::Supervisor);
    assert_eq!(cpu.sp(), 0x0300_7F00);

    cpu.set_mode(CpuMode::Irq);
    assert_eq!(cpu.sp(), 0x0300_7FA0);
}

#[test]
fn user_y_system_comparten_sp_y_lr() {
    let mut cpu = Cpu::new();
    cpu.set_mode(CpuMode::System);
    cpu.set_reg(SP, 0x0300_7E00);
    cpu.set_mode(CpuMode::User);
    assert_eq!(cpu.sp(), 0x0300_7E00);
}

#[test]
fn fiq_banca_tambien_r8_a_r12() {
    let mut cpu = Cpu::new();
    cpu.set_mode(CpuMode::System);
    cpu.set_reg(8, 0x1111_1111);

    cpu.set_mode(CpuMode::Fiq);
    assert_eq!(cpu.reg(8), 0, "FIQ ve su propio r8");
    cpu.set_reg(8, 0x2222_2222);

    cpu.set_mode(CpuMode::System);
    assert_eq!(cpu.reg(8), 0x1111_1111, "al salir de FIQ se restaura r8");

    cpu.set_mode(CpuMode::Fiq);
    assert_eq!(cpu.reg(8), 0x2222_2222, "FIQ conserva su r8 bancado");
}

#[test]
fn solo_los_modos_de_excepcion_tienen_spsr() {
    let mut cpu = Cpu::new();
    cpu.set_spsr(0xCAFE_0000);
    assert_eq!(cpu.spsr(), Some(0xCAFE_0000));

    cpu.set_mode(CpuMode::User);
    assert_eq!(cpu.spsr(), None);
    cpu.set_spsr(0x1234);
    assert_eq!(cpu.spsr(), None);

    cpu.set_mode(CpuMode::Supervisor);
    assert_eq!(cpu.spsr(), Some(0xCAFE_0000));
}

#[test]
fn el_modo_queda_reflejado_en_los_bits_del_cpsr() {
    let mut cpu = Cpu::new();
    cpu.set_mode(CpuMode::Irq);
    assert_eq!(cpu.cpsr().mode_bits(), CpuMode::Irq.bits());
    assert_eq!(cpu.cpsr().mode_bits(), 0x12);
}

#[test]
fn fetch_lee_la_instruccion_de_32_bits_en_little_endian() {
    let mut rom = vec![0u8; 8];
    rom[..4].copy_from_slice(&[0x2E, 0x00, 0x00, 0xEA]);
    let bus = Bus::new(rom);

    let mut cpu = Cpu::new();
    cpu.set_pc(ROM_START);

    assert_eq!(cpu.fetch(&bus), 0xEA00_002E);
}

#[test]
fn decode_arm_usa_el_cpsr_para_la_condicion() {

    let mut cpu = Cpu::new();
    assert_eq!(
        cpu.decode_arm(0x0A00_002E),
        Decoded::ConditionFailed(Condition::Eq)
    );
    cpu.cpsr_mut().set_z(true);
    assert_eq!(
        cpu.decode_arm(0x0A00_002E),
        Decoded::Execute(ArmInstruction::Branch { link: false })
    );
}

#[test]
fn decode_thumb_no_depende_del_cpsr() {
    let mut cpu = Cpu::new();
    cpu.cpsr_mut().set_z(true);
    cpu.cpsr_mut().set_n(true);
    assert_eq!(cpu.decode_thumb(0x2005), ThumbInstruction::MoveCompareAddSubImm);
}

#[test]
fn mov_inmediato_escribe_el_registro() {
    let mut cpu = Cpu::new();
    cpu.execute_data_processing(0xE3A0_0005);
    assert_eq!(cpu.reg(0), 5);
}

#[test]
fn add_inmediato_suma_sobre_el_registro() {
    let mut cpu = Cpu::new();
    cpu.set_reg(1, 10);
    cpu.execute_data_processing(0xE281_1001);
    assert_eq!(cpu.reg(1), 11);
}

#[test]
fn operando_inmediato_rotado() {
    let mut cpu = Cpu::new();
    cpu.execute_data_processing(0xE3A0_04FF);
    assert_eq!(cpu.reg(0), 0xFF00_0000);
}

#[test]
fn movs_y_mvns_actualizan_n_y_z() {
    let mut cpu = Cpu::new();
    cpu.execute_data_processing(0xE3B0_0000);
    assert_eq!(cpu.reg(0), 0);
    assert!(cpu.cpsr().z());
    assert!(!cpu.cpsr().n());
    cpu.execute_data_processing(0xE3F0_0000);
    assert_eq!(cpu.reg(0), 0xFFFF_FFFF);
    assert!(cpu.cpsr().n());
    assert!(!cpu.cpsr().z());
}

#[test]
fn cmp_actualiza_flags_sin_escribir_rd() {
    let mut cpu = Cpu::new();
    cpu.set_reg(0, 5);
    cpu.execute_data_processing(0xE350_0005);
    assert!(cpu.cpsr().z(), "5 - 5 == 0 → Z");
    assert!(cpu.cpsr().c(), "5 >= 5 → sin borrow → C");
    assert_eq!(cpu.reg(0), 5, "CMP no escribe Rd");
}

#[test]
fn subs_marca_signo_y_borrow() {
    let mut cpu = Cpu::new();
    cpu.set_reg(0, 0);
    cpu.execute_data_processing(0xE250_0001);
    assert_eq!(cpu.reg(0), 0xFFFF_FFFF);
    assert!(cpu.cpsr().n());
    assert!(!cpu.cpsr().z());
    assert!(!cpu.cpsr().c(), "0 - 1 genera borrow → C = 0");
}

#[test]
fn adc_usa_el_carry_de_entrada() {
    let mut cpu = Cpu::new();
    cpu.cpsr_mut().set_c(true);
    cpu.execute_data_processing(0xE2A0_0000);
    assert_eq!(cpu.reg(0), 1);
}

#[test]
fn el_paso_trata_la_condicion_fallida_como_nop() {
    let mut rom = vec![0u8; 8];
    rom[0..4].copy_from_slice(&0x0A00_0000u32.to_le_bytes());
    let mut bus = Bus::new(rom);
    let mut cpu = Cpu::new();
    cpu.set_pc(ROM_START);

    assert_eq!(cpu.step(&mut bus), StepResult::Stepped);
    assert_eq!(cpu.pc(), ROM_START + 4, "el NOP avanza una instrucción");
}

#[test]
fn el_bucle_ejecuta_hasta_una_no_implementada() {
    let programa = [0xE3A0_0005u32, 0xE280_0001, 0xEE00_0000];
    let mut rom = vec![0u8; programa.len() * 4];
    for (i, w) in programa.iter().enumerate() {
        rom[i * 4..i * 4 + 4].copy_from_slice(&w.to_le_bytes());
    }
    let mut bus = Bus::new(rom);
    let mut cpu = Cpu::new();
    cpu.set_pc(ROM_START);

    assert_eq!(cpu.step(&mut bus), StepResult::Stepped);
    assert_eq!(cpu.reg(0), 5);
    assert_eq!(cpu.step(&mut bus), StepResult::Stepped);
    assert_eq!(cpu.reg(0), 6);

    let pc_culpable = cpu.pc();
    match cpu.step(&mut bus) {
        StepResult::Halted(Halt::Unimplemented { pc, instr, kind }) => {
            assert_eq!(pc, ROM_START + 8);
            assert_eq!(instr, 0xEE00_0000);
            assert_eq!(kind, ArmInstruction::Coprocessor);
        }
        otro => panic!("esperaba Halted, fue {otro:?}"),
    }
    assert_eq!(cpu.pc(), pc_culpable);
}

#[test]
fn data_processing_con_registro_se_ejecuta() {
    let mut rom = vec![0u8; 8];
    rom[0..4].copy_from_slice(&0xE1A0_0001u32.to_le_bytes());
    let mut bus = Bus::new(rom);
    let mut cpu = Cpu::new();
    cpu.set_pc(ROM_START);
    cpu.set_reg(1, 0x1234_5678);
    assert_eq!(cpu.step(&mut bus), StepResult::Stepped);
    assert_eq!(cpu.reg(0), 0x1234_5678);
}

#[test]
fn run_para_al_alcanzar_el_tope_de_pasos() {
    let mut bus = Bus::new(vec![0u8; 64]);
    let mut cpu = Cpu::new();
    cpu.set_pc(ROM_START);
    let report = cpu.run(&mut bus, 10);
    assert_eq!(report.steps, 10);
    assert_eq!(report.stop, RunStop::StepLimit);
}

#[test]
fn detecta_el_bucle_infinito_b_a_si_mismo() {
    let mut rom = vec![0u8; 8];
    rom[0..4].copy_from_slice(&0xEAFF_FFFEu32.to_le_bytes());
    let mut bus = Bus::new(rom);
    let mut cpu = Cpu::new();
    cpu.set_pc(ROM_START);
    match cpu.step(&mut bus) {
        StepResult::Halted(Halt::InfiniteLoop { pc, instr }) => {
            assert_eq!(pc, ROM_START);
            assert_eq!(instr, 0xEAFF_FFFE);
        }
        otro => panic!("esperaba InfiniteLoop, fue {otro:?}"),
    }
}

#[test]
fn b_no_a_si_mismo_se_ejecuta_y_salta() {
    let base = IWRAM_START;
    let mut bus = Bus::new(vec![0u8; 4]);
    bus.write_u32(base, 0xEA00_002E);
    let mut cpu = Cpu::new();
    cpu.set_pc(base);
    assert_eq!(cpu.step(&mut bus), StepResult::Stepped);
    assert_eq!(cpu.pc(), base + 0xC0);
}

#[test]
fn b_salta_hacia_delante_y_se_salta_instrucciones() {
    let base = IWRAM_START;
    let mut bus = Bus::new(vec![0u8; 4]);
    bus.write_u32(base, 0xEA00_0000);
    bus.write_u32(base + 4, 0xE3A0_00FF);
    bus.write_u32(base + 8, 0xE3A0_1001);
    let mut cpu = Cpu::new();
    cpu.set_pc(base);

    assert_eq!(cpu.step(&mut bus), StepResult::Stepped);
    assert_eq!(cpu.pc(), base + 8);
    assert_eq!(cpu.step(&mut bus), StepResult::Stepped);
    assert_eq!(cpu.reg(1), 1);
    assert_eq!(cpu.reg(0), 0, "la instrucción saltada no se ejecutó");
}

#[test]
fn bl_y_bx_lr_vuelven_del_subprograma() {
    let base = IWRAM_START;
    let mut bus = Bus::new(vec![0u8; 4]);
    bus.write_u32(base, 0xEB00_0001);
    bus.write_u32(base + 4, 0xE3A0_0001);
    bus.write_u32(base + 8, 0xE3A0_00AA);
    bus.write_u32(base + 12, 0xE3A0_2002);
    bus.write_u32(base + 16, 0xE12F_FF1E);
    let mut cpu = Cpu::new();
    cpu.set_pc(base);

    cpu.step(&mut bus);
    assert_eq!(cpu.pc(), base + 12, "BL salta a la subrutina");
    assert_eq!(cpu.reg(LR), base + 4, "BL guarda el retorno en LR");

    cpu.step(&mut bus);
    assert_eq!(cpu.reg(2), 2);

    cpu.step(&mut bus);
    assert_eq!(cpu.pc(), base + 4, "BX lr vuelve a la instrucción siguiente al BL");
    assert!(!cpu.cpsr().thumb(), "LR con bit0=0 → sigue en ARM");

    cpu.step(&mut bus);
    assert_eq!(cpu.reg(0), 1);
}

#[test]
fn bx_a_thumb_cambia_de_estado_y_ejecuta() {
    let base = IWRAM_START;
    let mut bus = Bus::new(vec![0u8; 4]);
    bus.write_u32(base, 0xE12F_FF10);
    bus.write_u16(base + 0x100, 0x0000);
    let mut cpu = Cpu::new();
    cpu.set_pc(base);
    cpu.set_reg(0, base + 0x101);

    cpu.step(&mut bus);
    assert!(cpu.cpsr().thumb());
    assert_eq!(cpu.pc(), base + 0x100);

    assert_eq!(cpu.step(&mut bus), StepResult::Stepped, "ejecuta THUMB, no se detiene");
    assert_eq!(cpu.pc(), base + 0x102, "una instrucción THUMB avanza 2 bytes");
}

#[test]
fn el_contador_de_ciclos_suma_cada_fetch() {
    let mut bus = Bus::new(vec![0u8; 4]);
    for i in 0..3u32 {
        bus.write_u32(IWRAM_START + i * 4, 0xE3A0_0000 | i);
    }
    let mut cpu = Cpu::new();
    cpu.set_pc(IWRAM_START);
    assert_eq!(cpu.cycles(), 0);

    for _ in 0..3 {
        assert_eq!(cpu.step(&mut bus), StepResult::Stepped);
    }
    assert_eq!(cpu.cycles(), 3);
}

#[test]
fn los_ciclos_dependen_de_la_region() {
    let mut bus = Bus::new(vec![0u8; 4]);
    bus.write_u32(IWRAM_START, 0xE3A0_0000);
    bus.write_u32(EWRAM_START, 0xE3A0_0000);

    let mut en_iwram = Cpu::new();
    en_iwram.set_pc(IWRAM_START);
    en_iwram.step(&mut bus);
    assert_eq!(en_iwram.cycles(), 1);

    let mut en_ewram = Cpu::new();
    en_ewram.set_pc(EWRAM_START);
    en_ewram.step(&mut bus);
    assert_eq!(en_ewram.cycles(), 6);
}

#[test]
fn run_reporta_los_ciclos_consumidos() {
    let mut bus = Bus::new(vec![0u8; 4]);
    bus.write_u32(IWRAM_START, 0xE3A0_0000);
    bus.write_u32(IWRAM_START + 4, 0xE3A0_1001);
    bus.write_u32(IWRAM_START + 8, 0xEE00_0000);
    let mut cpu = Cpu::new();
    cpu.set_pc(IWRAM_START);

    let report = cpu.run(&mut bus, 100);
    assert_eq!(report.steps, 2);
    assert_eq!(report.cycles, 2);
    assert!(matches!(
        report.stop,
        RunStop::Halted(Halt::Unimplemented { .. })
    ));
}

#[test]
fn shifter_lsl_inmediato() {
    assert_eq!(shift_by_immediate(ShiftType::Lsl, 4, 0x0000_000F, false), (0xF0, false));
    assert_eq!(shift_by_immediate(ShiftType::Lsl, 0, 0x8000_0000, true), (0x8000_0000, true));
    assert_eq!(shift_by_immediate(ShiftType::Lsl, 1, 0x8000_0000, false), (0, true));
}

#[test]
fn shifter_lsr_inmediato_y_el_cero_es_32() {
    assert_eq!(shift_by_immediate(ShiftType::Lsr, 4, 0x0000_00FF, false), (0x0F, true));
    assert_eq!(shift_by_immediate(ShiftType::Lsr, 0, 0x8000_0000, false), (0, true));
    assert_eq!(shift_by_immediate(ShiftType::Lsr, 0, 0x7FFF_FFFF, true), (0, false));
}

#[test]
fn shifter_asr_inmediato_replica_signo_y_el_cero_es_32() {
    assert_eq!(shift_by_immediate(ShiftType::Asr, 4, 0x8000_0000, false), (0xF800_0000, false));
    assert_eq!(shift_by_immediate(ShiftType::Asr, 0, 0x8000_0000, false), (0xFFFF_FFFF, true));
    assert_eq!(shift_by_immediate(ShiftType::Asr, 0, 0x4000_0000, false), (0, false));
}

#[test]
fn shifter_ror_inmediato_y_rrx() {
    assert_eq!(shift_by_immediate(ShiftType::Ror, 4, 0x0000_000F, false), (0xF000_0000, true));
    assert_eq!(shift_by_immediate(ShiftType::Ror, 0, 0x0000_0001, false), (0, true));
    assert_eq!(shift_by_immediate(ShiftType::Ror, 0, 0x0000_0000, true), (0x8000_0000, false));
}

#[test]
fn shifter_por_registro_cantidad_cero_no_cambia_nada() {
    assert_eq!(shift_by_register(ShiftType::Lsl, 0, 0x1234_5678, true), (0x1234_5678, true));
    assert_eq!(shift_by_register(ShiftType::Ror, 0, 0x1234_5678, false), (0x1234_5678, false));
}

#[test]
fn shifter_por_registro_casos_limite_de_32_y_mas() {
    assert_eq!(shift_by_register(ShiftType::Lsl, 32, 0x0000_0001, false), (0, true));
    assert_eq!(shift_by_register(ShiftType::Lsl, 33, 0xFFFF_FFFF, true), (0, false));
    assert_eq!(shift_by_register(ShiftType::Lsr, 32, 0x8000_0000, false), (0, true));
    assert_eq!(shift_by_register(ShiftType::Asr, 50, 0x8000_0000, false), (0xFFFF_FFFF, true));
    assert_eq!(shift_by_register(ShiftType::Asr, 50, 0x0000_0001, false), (0, false));
    assert_eq!(shift_by_register(ShiftType::Ror, 32, 0x8000_0000, false), (0x8000_0000, true));
    assert_eq!(shift_by_register(ShiftType::Ror, 36, 0x0000_000F, false), (0xF000_0000, true));
}

#[test]
fn mov_con_registro_desplazado_por_inmediato() {
    let mut cpu = Cpu::new();
    cpu.set_reg(1, 0x12);
    cpu.execute_data_processing(0xE1A0_0201);
    assert_eq!(cpu.reg(0), 0x120);
}

#[test]
fn movs_lsr_actualiza_el_carry_desde_el_shifter() {
    let mut cpu = Cpu::new();
    cpu.set_reg(1, 0x0000_0001);
    cpu.execute_data_processing(0xE1B0_00A1);
    assert_eq!(cpu.reg(0), 0);
    assert!(cpu.cpsr().c(), "el bit que sale por LSR #1 va al carry");
    assert!(cpu.cpsr().z());
}

#[test]
fn add_con_operando_de_registro() {
    let mut cpu = Cpu::new();
    cpu.set_reg(1, 10);
    cpu.set_reg(2, 20);
    cpu.execute_data_processing(0xE081_0002);
    assert_eq!(cpu.reg(0), 30);
}

#[test]
fn shift_por_registro_cuesta_un_i_cycle_extra() {
    let mut bus = Bus::new(vec![0u8; 4]);
    bus.write_u32(IWRAM_START, 0xE1A0_0081);
    let mut por_inmediato = Cpu::new();
    por_inmediato.set_pc(IWRAM_START);
    por_inmediato.step(&mut bus);
    assert_eq!(por_inmediato.cycles(), 1);

    bus.write_u32(IWRAM_START, 0xE1A0_0211);
    let mut por_registro = Cpu::new();
    por_registro.set_pc(IWRAM_START);
    por_registro.step(&mut bus);
    assert_eq!(por_registro.cycles(), 2, "el shift por registro añade un I-cycle");
}

#[test]
fn r15_como_operando_va_mas_lejos_con_shift_por_registro() {
    let mut cpu = Cpu::new();
    cpu.set_pc(0x0800_0000);
    assert_eq!(cpu.reg_operand(PC, false), 0x0800_0008, "PC+8 normal");
    assert_eq!(cpu.reg_operand(PC, true), 0x0800_000C, "PC+12 con shift por registro");
    cpu.set_reg(0, 0xAA);
    assert_eq!(cpu.reg_operand(0, true), 0xAA);
}

#[test]
fn mov_a_pc_es_un_salto_que_alinea_a_palabra() {
    let mut cpu = Cpu::new();
    cpu.set_reg(0, 0x0800_1236);
    let efecto = cpu.execute_data_processing(0xE1A0_F000);
    assert_eq!(cpu.pc(), 0x0800_1234, "destino alineado a palabra en ARM");
    assert!(matches!(efecto, Executed::Branched { .. }));
}

#[test]
fn movs_a_pc_restaura_el_cpsr_desde_el_spsr() {
    let mut cpu = Cpu::new();
    cpu.set_mode(CpuMode::Irq);
    let spsr = (CpuMode::User.bits() as u32) | (1 << 30);
    cpu.set_spsr(spsr);
    cpu.set_reg(LR, 0x0800_2000);

    cpu.execute_data_processing(0xE1B0_F00E);
    assert_eq!(cpu.pc(), 0x0800_2000, "salta a LR");
    assert_eq!(cpu.mode(), CpuMode::User, "vuelve al modo guardado en el SPSR");
    assert!(cpu.cpsr().z(), "restaura los flags del SPSR");
    assert!(!cpu.cpsr().thumb(), "el SPSR estaba en estado ARM");
}

#[test]
fn salto_via_pc_vacia_el_pipeline_en_el_bucle() {
    let base = IWRAM_START;
    let mut bus = Bus::new(vec![0u8; 4]);
    bus.write_u32(base, 0xE1A0_F000);
    let mut cpu = Cpu::new();
    cpu.set_pc(base);
    cpu.set_reg(0, base + 0x40);
    assert_eq!(cpu.step(&mut bus), StepResult::Stepped);
    assert_eq!(cpu.pc(), base + 0x40, "el PC quedó en el destino del salto");
}

#[test]
fn mrs_lee_el_cpsr_a_un_registro() {
    let mut cpu = Cpu::new();
    cpu.cpsr_mut().set_n(true);
    cpu.execute_psr_transfer(0xE10F_0000);
    assert_eq!(cpu.reg(0), 0x8000_00D3);
}

#[test]
fn mrs_lee_el_spsr_del_modo_actual() {
    let mut cpu = Cpu::new();
    cpu.set_mode(CpuMode::Irq);
    cpu.set_spsr(0x8000_0010);
    cpu.execute_psr_transfer(0xE14F_1000);
    assert_eq!(cpu.reg(1), 0x8000_0010);
}

#[test]
fn msr_inmediato_cambia_los_flags_y_afecta_a_la_condicion() {
    let mut cpu = Cpu::new();
    cpu.execute_psr_transfer(0xE328_F20F);
    assert!(cpu.cpsr().n() && cpu.cpsr().z() && cpu.cpsr().c() && cpu.cpsr().v());
    assert!(Condition::Eq.passes(cpu.cpsr()), "Z=1 → EQ pasa");
}

#[test]
fn msr_campo_de_flags_no_toca_el_byte_de_control() {
    let mut cpu = Cpu::new();
    let modo_antes = cpu.cpsr().mode_bits();
    cpu.set_reg(0, 0xF000_0000);
    cpu.execute_psr_transfer(0xE128_F000);
    assert!(cpu.cpsr().n());
    assert_eq!(cpu.cpsr().mode_bits(), modo_antes, "el modo no cambia con el campo f");
    assert!(cpu.cpsr().irq_disabled(), "el bit I sigue como estaba");
}

#[test]
fn msr_campo_de_control_cambia_de_modo_e_intercambia_bancos() {
    let mut cpu = Cpu::new();
    cpu.set_reg(SP, 0x1111_1111);
    cpu.set_mode(CpuMode::System);
    cpu.set_reg(SP, 0x2222_2222);
    cpu.set_mode(CpuMode::Supervisor);

    cpu.set_reg(0, CpuMode::System.bits() as u32);
    cpu.execute_psr_transfer(0xE121_F000);
    assert_eq!(cpu.mode(), CpuMode::System, "el byte de control cambió el modo");
    assert_eq!(cpu.sp(), 0x2222_2222, "set_mode intercambió el banco de SP");
}

#[test]
fn msr_en_modo_user_solo_cambia_los_flags() {
    let mut cpu = Cpu::new();
    cpu.set_mode(CpuMode::User);
    assert!(cpu.cpsr().irq_disabled());
    cpu.set_reg(0, 0xF000_0013);
    cpu.execute_psr_transfer(0xE129_F000);
    assert!(cpu.cpsr().n(), "los flags SÍ cambian en User");
    assert_eq!(cpu.mode(), CpuMode::User, "el modo NO cambia en User");
    assert!(cpu.cpsr().irq_disabled(), "el bit I (control) NO cambia en User");
}

#[test]
fn msr_escribe_el_spsr_del_modo_actual() {
    let mut cpu = Cpu::new();
    cpu.set_mode(CpuMode::Irq);
    cpu.set_spsr(0x0000_0010);
    cpu.set_reg(0, 0xF000_0000);
    cpu.execute_psr_transfer(0xE168_F000);
    assert_eq!(cpu.spsr(), Some(0xF000_0010), "solo cambió el byte de flags del SPSR");
}

#[test]
fn msr_a_spsr_en_user_se_descarta_sin_panicar() {
    let mut cpu = Cpu::new();
    cpu.set_mode(CpuMode::User);
    cpu.set_reg(0, 0xFFFF_FFFF);
    cpu.execute_psr_transfer(0xE168_F000);
    assert_eq!(cpu.spsr(), None);
}

#[test]
fn msr_no_escribe_los_bits_reservados() {
    let mut cpu = Cpu::new();
    cpu.set_reg(0, 0xFFFF_FF13);
    cpu.execute_psr_transfer(0xE12F_F000);
    assert_eq!(cpu.cpsr().bits() & !PSR_VALID, 0, "los bits reservados siguen a 0");
    assert!(cpu.cpsr().n(), "pero los flags sí se escriben");
    assert_eq!(cpu.mode(), CpuMode::Supervisor, "y el modo pedido (0x13) se respeta");
}

#[test]
fn psr_transfer_se_ejecuta_en_el_bucle() {
    let base = IWRAM_START;
    let mut bus = Bus::new(vec![0u8; 4]);
    bus.write_u32(base, 0xE328_F101);
    let mut cpu = Cpu::new();
    cpu.set_pc(base);
    assert_eq!(cpu.step(&mut bus), StepResult::Stepped);
    assert!(cpu.cpsr().z(), "MSR puso Z");
    assert_eq!(cpu.pc(), base + 4, "MRS/MSR avanzan el PC como una instrucción normal");
}

#[test]
fn mul_multiplica_dos_registros() {
    let mut cpu = Cpu::new();
    cpu.set_reg(1, 6);
    cpu.set_reg(2, 7);
    cpu.execute_multiply(0xE000_0291);
    assert_eq!(cpu.reg(0), 42);
}

#[test]
fn mla_multiplica_y_acumula() {
    let mut cpu = Cpu::new();
    cpu.set_reg(1, 6);
    cpu.set_reg(2, 7);
    cpu.set_reg(4, 100);
    cpu.execute_multiply(0xE023_4291);
    assert_eq!(cpu.reg(3), 142);
}

#[test]
fn mul_se_queda_con_los_32_bits_bajos() {
    let mut cpu = Cpu::new();
    cpu.set_reg(1, 0x0001_0000);
    cpu.set_reg(2, 0x0001_0000);
    cpu.execute_multiply(0xE000_0291);
    assert_eq!(cpu.reg(0), 0, "MUL solo conserva la palabra baja del producto");
}

#[test]
fn muls_actualiza_n_y_z_y_preserva_el_carry() {
    let mut cpu = Cpu::new();
    cpu.cpsr_mut().set_c(true);

    cpu.set_reg(1, 2);
    cpu.set_reg(2, 3);
    cpu.execute_multiply(0xE010_0291);
    assert_eq!(cpu.reg(0), 6);
    assert!(!cpu.cpsr().n() && !cpu.cpsr().z());
    assert!(cpu.cpsr().c(), "C no se toca en multiply");

    cpu.set_reg(1, 0x8000_0000);
    cpu.set_reg(2, 1);
    cpu.execute_multiply(0xE010_0291);
    assert!(cpu.cpsr().n());

    cpu.set_reg(1, 0);
    cpu.set_reg(2, 0x1234);
    cpu.execute_multiply(0xE010_0291);
    assert!(cpu.cpsr().z());
}

#[test]
fn umull_producto_sin_signo_de_64_bits() {
    let mut cpu = Cpu::new();
    cpu.set_reg(2, 0xFFFF_FFFF);
    cpu.set_reg(3, 0xFFFF_FFFF);
    cpu.execute_multiply_long(0xE081_0392);
    assert_eq!(cpu.reg(1), 0xFFFF_FFFE, "RdHi = palabra alta");
    assert_eq!(cpu.reg(0), 0x0000_0001, "RdLo = palabra baja");
}

#[test]
fn smull_interpreta_los_operandos_con_signo() {
    let mut cpu = Cpu::new();
    cpu.set_reg(2, 0xFFFF_FFFF);
    cpu.set_reg(3, 0xFFFF_FFFF);
    cpu.execute_multiply_long(0xE0C1_0392);
    assert_eq!(cpu.reg(1), 0);
    assert_eq!(cpu.reg(0), 1);

    cpu.set_reg(2, (-3i32) as u32);
    cpu.set_reg(3, 5);
    cpu.execute_multiply_long(0xE0C1_0392);
    assert_eq!(cpu.reg(1), 0xFFFF_FFFF);
    assert_eq!(cpu.reg(0), (-15i32) as u32);
}

#[test]
fn umlal_acumula_en_64_bits() {
    let mut cpu = Cpu::new();
    cpu.set_reg(1, 0x0000_0000);
    cpu.set_reg(0, 0xFFFF_FFFF);
    cpu.set_reg(2, 0x10);
    cpu.set_reg(3, 0x10);
    cpu.execute_multiply_long(0xE0A1_0392);
    assert_eq!(cpu.reg(1), 0x0000_0001);
    assert_eq!(cpu.reg(0), 0x0000_00FF);
}

#[test]
fn smlal_acumula_con_signo() {
    let mut cpu = Cpu::new();
    cpu.set_reg(1, 0);
    cpu.set_reg(0, 10);
    cpu.set_reg(2, 0xFFFF_FFFF);
    cpu.set_reg(3, 5);
    cpu.execute_multiply_long(0xE0E1_0392);
    assert_eq!(cpu.reg(1), 0);
    assert_eq!(cpu.reg(0), 5);
}

#[test]
fn umulls_actualiza_n_y_z_desde_los_64_bits() {
    let mut cpu = Cpu::new();
    cpu.set_reg(2, 0xFFFF_FFFF);
    cpu.set_reg(3, 0xFFFF_FFFF);
    cpu.execute_multiply_long(0xE091_0392);
    assert!(cpu.cpsr().n(), "N = bit 63 del resultado");
    assert!(!cpu.cpsr().z());

    cpu.set_reg(2, 0);
    cpu.set_reg(3, 0x1234);
    cpu.execute_multiply_long(0xE091_0392);
    assert!(cpu.cpsr().z());
    assert!(!cpu.cpsr().n());
}

#[test]
fn multiply_avanza_el_pc_como_instruccion_normal() {
    let base = IWRAM_START;
    let mut bus = Bus::new(vec![0u8; 4]);
    bus.write_u32(base, 0xE000_0291);
    let mut cpu = Cpu::new();
    cpu.set_pc(base);
    cpu.set_reg(1, 4);
    cpu.set_reg(2, 5);
    assert_eq!(cpu.step(&mut bus), StepResult::Stepped);
    assert_eq!(cpu.reg(0), 20);
    assert_eq!(cpu.pc(), base + 4, "no es un salto: el PC avanza 4 bytes");
}

#[test]
fn mul_coste_en_ciclos_varia_con_el_multiplicador() {
    let mut bus = Bus::new(vec![0u8; 4]);
    bus.write_u32(IWRAM_START, 0xE000_0291);

    let mut cpu = Cpu::new();
    cpu.set_pc(IWRAM_START);
    cpu.set_reg(1, 3);
    cpu.set_reg(2, 0xFF);
    cpu.step(&mut bus);
    assert_eq!(cpu.cycles(), 2, "multiplicador pequeño → m=1");

    let mut cpu = Cpu::new();
    cpu.set_pc(IWRAM_START);
    cpu.set_reg(1, 3);
    cpu.set_reg(2, 0x1234_5678);
    cpu.step(&mut bus);
    assert_eq!(cpu.cycles(), 5, "multiplicador grande → m=4");
}

#[test]
fn el_coste_largo_distingue_multiplicador_con_y_sin_signo() {
    let mut bus = Bus::new(vec![0u8; 4]);

    bus.write_u32(IWRAM_START, 0xE0C1_0392);
    let mut cpu = Cpu::new();
    cpu.set_pc(IWRAM_START);
    cpu.set_reg(2, 5);
    cpu.set_reg(3, 0xFFFF_FFFF);
    cpu.step(&mut bus);
    assert_eq!(cpu.cycles(), 3, "SMULL: -1 termina pronto (m=1)");

    bus.write_u32(IWRAM_START, 0xE081_0392);
    let mut cpu = Cpu::new();
    cpu.set_pc(IWRAM_START);
    cpu.set_reg(2, 5);
    cpu.set_reg(3, 0xFFFF_FFFF);
    cpu.step(&mut bus);
    assert_eq!(cpu.cycles(), 6, "UMULL: 0xFFFFFFFF no termina pronto (m=4)");
}

#[test]
fn multiply_internal_cycles_escalona_segun_los_bytes_altos() {
    assert_eq!(multiply_internal_cycles(0x0000_00FF, true), 1);
    assert_eq!(multiply_internal_cycles(0x0000_FF00, true), 2);
    assert_eq!(multiply_internal_cycles(0x00FF_0000, true), 3);
    assert_eq!(multiply_internal_cycles(0x1234_5678, true), 4);
    assert_eq!(multiply_internal_cycles(0xFFFF_FFFF, true), 1);
    assert_eq!(multiply_internal_cycles(0xFFFF_FFFF, false), 4);
    assert_eq!(multiply_internal_cycles(0xFF00_0000, true), 3);
    assert_eq!(multiply_internal_cycles(0xFF00_0000, false), 4);
}

#[test]
fn str_y_ldr_de_palabra_en_memoria() {
    let mut bus = Bus::new(vec![0u8; 4]);
    let mut cpu = Cpu::new();
    let addr = IWRAM_START;
    cpu.set_reg(0, addr);
    cpu.set_reg(1, 0x1234_5678);
    cpu.execute_single_data_transfer(0xE580_1000, &mut bus);
    assert_eq!(bus.read_u32(addr), 0x1234_5678);
    let efecto = cpu.execute_single_data_transfer(0xE590_2000, &mut bus);
    assert_eq!(cpu.reg(2), 0x1234_5678);
    assert!(matches!(efecto, Executed::Accessed { .. }), "una carga/almacén es Accessed");
}

#[test]
fn strb_escribe_un_byte_y_ldrb_extiende_con_ceros() {
    let mut bus = Bus::new(vec![0u8; 4]);
    let mut cpu = Cpu::new();
    let addr = IWRAM_START;
    cpu.set_reg(0, addr);
    cpu.set_reg(1, 0x1234_56AB);
    cpu.execute_single_data_transfer(0xE5C0_1000, &mut bus);
    assert_eq!(bus.read_u8(addr), 0xAB);
    assert_eq!(bus.read_u8(addr + 1), 0, "STRB toca un solo byte");
    cpu.execute_single_data_transfer(0xE5D0_2000, &mut bus);
    assert_eq!(cpu.reg(2), 0x0000_00AB, "LDRB extiende con ceros");
}

#[test]
fn ldr_con_offset_inmediato_pre_indexado_sin_write_back() {
    let mut bus = Bus::new(vec![0u8; 16]);
    let mut cpu = Cpu::new();
    let addr = IWRAM_START;
    bus.write_u32(addr + 4, 0xCAFE_F00D);
    cpu.set_reg(0, addr);
    cpu.execute_single_data_transfer(0xE590_1004, &mut bus);
    assert_eq!(cpu.reg(1), 0xCAFE_F00D);
    assert_eq!(cpu.reg(0), addr, "pre-indexado sin W no modifica la base");
}

#[test]
fn pre_indexado_con_write_back_actualiza_la_base() {
    let mut bus = Bus::new(vec![0u8; 16]);
    let mut cpu = Cpu::new();
    let addr = IWRAM_START;
    cpu.set_reg(0, addr);
    cpu.set_reg(1, 0xAA);
    cpu.execute_single_data_transfer(0xE5A0_1004, &mut bus);
    assert_eq!(bus.read_u32(addr + 4), 0xAA, "almacena en base+4");
    assert_eq!(cpu.reg(0), addr + 4, "write-back deja Rn en base+4");
}

#[test]
fn post_indexado_accede_a_la_base_y_luego_la_desplaza() {
    let mut bus = Bus::new(vec![0u8; 16]);
    let mut cpu = Cpu::new();
    let addr = IWRAM_START;
    cpu.set_reg(0, addr);
    cpu.set_reg(1, 0xBB);
    cpu.execute_single_data_transfer(0xE480_1004, &mut bus);
    assert_eq!(bus.read_u32(addr), 0xBB, "post-indexado almacena en la base original");
    assert_eq!(cpu.reg(0), addr + 4, "y luego suma el offset a Rn (write-back implícito)");
}

#[test]
fn offset_negativo_resta_de_la_base() {
    let mut bus = Bus::new(vec![0u8; 16]);
    let mut cpu = Cpu::new();
    let addr = IWRAM_START;
    bus.write_u32(addr, 0x1111_2222);
    cpu.set_reg(0, addr + 4);
    cpu.execute_single_data_transfer(0xE510_1004, &mut bus);
    assert_eq!(cpu.reg(1), 0x1111_2222, "U=0 resta el offset");
}

#[test]
fn offset_de_registro_desplazado_por_el_shifter() {
    let mut bus = Bus::new(vec![0u8; 32]);
    let mut cpu = Cpu::new();
    let addr = IWRAM_START;
    bus.write_u32(addr + 8, 0xDEAD_BEEF);
    cpu.set_reg(0, addr);
    cpu.set_reg(2, 2);
    cpu.execute_single_data_transfer(0xE790_1102, &mut bus);
    assert_eq!(cpu.reg(1), 0xDEAD_BEEF);
}

#[test]
fn ldr_desalineado_rota_la_palabra() {
    let mut bus = Bus::new(vec![0u8; 16]);
    let mut cpu = Cpu::new();
    let addr = IWRAM_START;
    bus.write_u32(addr, 0xAABB_CCDD);
    cpu.set_reg(0, addr + 1);
    cpu.execute_single_data_transfer(0xE590_1000, &mut bus);
    assert_eq!(cpu.reg(1), 0xDDAA_BBCC, "LDR desalineado rota 8 bits a la derecha");
}

#[test]
fn str_de_r15_almacena_la_instruccion_mas_12() {
    let mut bus = Bus::new(vec![0u8; 16]);
    let mut cpu = Cpu::new();
    let addr = IWRAM_START;
    cpu.set_pc(0x0800_0100);
    cpu.set_reg(0, addr);
    cpu.execute_single_data_transfer(0xE580_F000, &mut bus);
    assert_eq!(bus.read_u32(addr), 0x0800_0100 + 12, "STR r15 guarda la instrucción + 12");
}

#[test]
fn ldr_a_r15_es_un_salto_alineado_a_palabra() {
    let mut bus = Bus::new(vec![0u8; 16]);
    let mut cpu = Cpu::new();
    let addr = IWRAM_START;
    bus.write_u32(addr, 0x0800_1235);
    cpu.set_reg(0, addr);
    let efecto = cpu.execute_single_data_transfer(0xE590_F000, &mut bus);
    assert_eq!(cpu.pc(), 0x0800_1234, "destino alineado a palabra (ARMv4, sin THUMB)");
    assert!(matches!(efecto, Executed::Branched { .. }));
}

#[test]
fn strh_y_ldrh_de_media_palabra() {
    let mut bus = Bus::new(vec![0u8; 8]);
    let mut cpu = Cpu::new();
    let addr = IWRAM_START;
    cpu.set_reg(0, addr);
    cpu.set_reg(1, 0x1234_BEEF);
    cpu.execute_halfword_transfer(0xE1C0_10B0, &mut bus);
    assert_eq!(bus.read_u16(addr), 0xBEEF, "STRH escribe solo 16 bits");
    assert_eq!(bus.read_u16(addr + 2), 0, "no toca el halfword siguiente");
    cpu.execute_halfword_transfer(0xE1D0_20B0, &mut bus);
    assert_eq!(cpu.reg(2), 0x0000_BEEF, "LDRH extiende con ceros");
}

#[test]
fn ldrsb_extiende_el_byte_con_signo() {
    let mut bus = Bus::new(vec![0u8; 8]);
    let mut cpu = Cpu::new();
    let addr = IWRAM_START;
    bus.write_u8(addr, 0x80);
    cpu.set_reg(0, addr);
    cpu.execute_halfword_transfer(0xE1D0_10D0, &mut bus);
    assert_eq!(cpu.reg(1), 0xFFFF_FF80, "byte 0x80 extendido con signo");
}

#[test]
fn ldrsh_extiende_la_media_palabra_con_signo() {
    let mut bus = Bus::new(vec![0u8; 8]);
    let mut cpu = Cpu::new();
    let addr = IWRAM_START;
    bus.write_u16(addr, 0x8001);
    cpu.set_reg(0, addr);
    cpu.execute_halfword_transfer(0xE1D0_10F0, &mut bus);
    assert_eq!(cpu.reg(1), 0xFFFF_8001, "halfword 0x8001 extendido con signo");
}

#[test]
fn ldrsh_desde_direccion_impar_carga_un_byte_con_signo() {
    let mut bus = Bus::new(vec![0u8; 8]);
    let mut cpu = Cpu::new();
    let addr = IWRAM_START;
    bus.write_u8(addr + 1, 0x90);
    cpu.set_reg(0, addr + 1);
    cpu.execute_halfword_transfer(0xE1D0_10F0, &mut bus);
    assert_eq!(cpu.reg(1), 0xFFFF_FF90, "en impar, LDRSH equivale a LDRSB");
}

#[test]
fn ldrh_desde_direccion_impar_rota() {
    let mut bus = Bus::new(vec![0u8; 8]);
    let mut cpu = Cpu::new();
    let addr = IWRAM_START;
    bus.write_u16(addr, 0xBEEF);
    cpu.set_reg(0, addr + 1);
    cpu.execute_halfword_transfer(0xE1D0_10B0, &mut bus);
    assert_eq!(cpu.reg(1), 0xEF00_00BE, "0x0000BEEF ROR 8 = 0xEF0000BE");
}

#[test]
fn ldrh_con_offset_inmediato_partido_en_nibbles() {
    let mut bus = Bus::new(vec![0u8; 32]);
    let mut cpu = Cpu::new();
    let addr = IWRAM_START;
    bus.write_u16(addr + 0x10, 0xABCD);
    cpu.set_reg(0, addr);
    cpu.execute_halfword_transfer(0xE1D0_11B0, &mut bus);
    assert_eq!(cpu.reg(1), 0x0000_ABCD);
}

#[test]
fn ldrh_con_offset_de_registro() {
    let mut bus = Bus::new(vec![0u8; 16]);
    let mut cpu = Cpu::new();
    let addr = IWRAM_START;
    bus.write_u16(addr + 6, 0x0BAD);
    cpu.set_reg(0, addr);
    cpu.set_reg(2, 6);
    cpu.execute_halfword_transfer(0xE190_10B2, &mut bus);
    assert_eq!(cpu.reg(1), 0x0000_0BAD);
}

#[test]
fn strh_post_indexado_actualiza_la_base() {
    let mut bus = Bus::new(vec![0u8; 16]);
    let mut cpu = Cpu::new();
    let addr = IWRAM_START;
    cpu.set_reg(0, addr);
    cpu.set_reg(1, 0xCAFE);
    cpu.execute_halfword_transfer(0xE0C0_10B2, &mut bus);
    assert_eq!(bus.read_u16(addr), 0xCAFE, "almacena en la base original");
    assert_eq!(cpu.reg(0), addr + 2, "post-indexado suma el offset a Rn");
}

#[test]
fn coste_en_ciclos_de_ldr_y_str() {
    let mut bus = Bus::new(vec![0u8; 4]);
    let base = IWRAM_START;

    bus.write_u32(base, 0xE590_1000);
    let mut cpu = Cpu::new();
    cpu.set_pc(base);
    cpu.set_reg(0, base + 0x100);
    cpu.step(&mut bus);
    assert_eq!(cpu.cycles(), 3, "LDR: fetch(1) + dato(1) + I(1)");

    bus.write_u32(base, 0xE580_1000);
    let mut cpu = Cpu::new();
    cpu.set_pc(base);
    cpu.set_reg(0, base + 0x100);
    cpu.step(&mut bus);
    assert_eq!(cpu.cycles(), 2, "STR: fetch(1) + dato(1), sin I-cycle");
}

#[test]
fn tras_un_acceso_a_memoria_el_siguiente_fetch_es_no_secuencial() {
    let base = ROM_START;
    let mut rom = vec![0u8; 16];
    rom[0..4].copy_from_slice(&0xE580_1000u32.to_le_bytes());
    rom[4..8].copy_from_slice(&0xE3A0_0000u32.to_le_bytes());
    let mut bus = Bus::new(rom);
    let mut cpu = Cpu::new();
    cpu.set_pc(base);
    cpu.set_reg(0, IWRAM_START);

    cpu.step(&mut bus);
    let tras_str = cpu.cycles();
    cpu.step(&mut bus);
    let fetch_mov = cpu.cycles() - tras_str;
    assert_eq!(fetch_mov, 8, "el fetch tras un acceso a memoria es N (8), no S (6)");
}

#[test]
fn push_y_pop_preservan_registros_y_saltan() {
    let mut bus = Bus::new(vec![0u8; 4]);
    let mut cpu = Cpu::new();
    let stack_top = IWRAM_START + 0x100;
    cpu.set_reg(SP, stack_top);
    cpu.set_reg(0, 0xAAAA_AAAA);
    cpu.set_reg(1, 0xBBBB_BBBB);
    cpu.set_reg(LR, 0x0800_1234);

    cpu.execute_block_data_transfer(0xE92D_4003, &mut bus);
    assert_eq!(cpu.sp(), stack_top - 12, "PUSH de 3 baja el SP 12");
    assert_eq!(bus.read_u32(stack_top - 12), 0xAAAA_AAAA);
    assert_eq!(bus.read_u32(stack_top - 8), 0xBBBB_BBBB);
    assert_eq!(bus.read_u32(stack_top - 4), 0x0800_1234);

    cpu.set_reg(0, 0);
    cpu.set_reg(1, 0);
    let efecto = cpu.execute_block_data_transfer(0xE8BD_8003, &mut bus);
    assert_eq!(cpu.reg(0), 0xAAAA_AAAA);
    assert_eq!(cpu.reg(1), 0xBBBB_BBBB);
    assert_eq!(cpu.sp(), stack_top, "POP restaura el SP");
    assert!(matches!(efecto, Executed::Branched { .. }), "POP con pc es un salto");
    assert_eq!(cpu.pc(), 0x0800_1234, "salta a la dirección apilada (alineada)");
}

#[test]
fn stmia_con_write_back_avanza_la_base() {
    let mut bus = Bus::new(vec![0u8; 4]);
    let mut cpu = Cpu::new();
    let addr = IWRAM_START;
    cpu.set_reg(0, 0xDEAD_BEEF);
    cpu.set_reg(1, addr);
    let efecto = cpu.execute_block_data_transfer(0xE8A1_0001, &mut bus);
    assert_eq!(cpu.reg(1), addr + 4, "STMIA con write-back avanza la base 4");
    assert_eq!(bus.read_u32(addr), 0xDEAD_BEEF);
    assert!(matches!(efecto, Executed::Accessed { .. }), "un STM sin pc es Accessed");
}

#[test]
fn los_cuatro_modos_situan_el_bloque_donde_toca() {
    let cases = [
        (0xE8A2_0003u32, 0i64, 4, 8),
        (0xE9A2_0003, 4, 8, 8),
        (0xE822_0003, -4, 0, -8),
        (0xE922_0003, -8, -4, -8),
    ];
    for (opcode, off0, off1, delta) in cases {
        let mut bus = Bus::new(vec![0u8; 4]);
        let mut cpu = Cpu::new();
        let base = IWRAM_START + 0x40;
        cpu.set_reg(0, 0x1111_1111);
        cpu.set_reg(1, 0x2222_2222);
        cpu.set_reg(2, base);
        cpu.execute_block_data_transfer(opcode, &mut bus);
        let at = |o: i64| (base as i64 + o) as u32;
        assert_eq!(bus.read_u32(at(off0)), 0x1111_1111, "r0 en {opcode:#X}");
        assert_eq!(bus.read_u32(at(off1)), 0x2222_2222, "r1 en {opcode:#X}");
        assert_eq!(cpu.reg(2), at(delta), "write-back en {opcode:#X}");
    }
}

#[test]
fn stm_de_la_base_no_primera_guarda_el_valor_ya_actualizado() {
    let mut bus = Bus::new(vec![0u8; 4]);
    let mut cpu = Cpu::new();
    let base = IWRAM_START + 0x40;
    cpu.set_reg(0, 0x1111_1111);
    cpu.set_reg(1, base);
    cpu.execute_block_data_transfer(0xE8A1_0003, &mut bus);
    assert_eq!(bus.read_u32(base), 0x1111_1111, "r0 (primero) con su valor");
    assert_eq!(bus.read_u32(base + 4), base + 8, "r1 (base, no primero) ya actualizado");
    assert_eq!(cpu.reg(1), base + 8);
}

#[test]
fn ldm_de_la_base_en_lista_no_pisa_el_dato_cargado() {
    let mut bus = Bus::new(vec![0u8; 4]);
    let mut cpu = Cpu::new();
    let base = IWRAM_START + 0x40;
    bus.write_u32(base, 0x1111_1111);
    bus.write_u32(base + 4, 0x2222_2222);
    cpu.set_reg(0, base);
    cpu.execute_block_data_transfer(0xE8B0_0003, &mut bus);
    assert_eq!(cpu.reg(0), 0x1111_1111, "la base lleva el dato cargado, no base+8");
    assert_eq!(cpu.reg(1), 0x2222_2222);
}

#[test]
fn swp_intercambia_palabra_con_memoria() {
    let mut bus = Bus::new(vec![0u8; 4]);
    let mut cpu = Cpu::new();
    let addr = IWRAM_START + 0x40;
    bus.write_u32(addr, 0xCAFE_F00D);
    cpu.set_reg(2, addr);
    cpu.set_reg(1, 0x1234_5678);
    let efecto = cpu.execute_single_data_swap(0xE102_0091, &mut bus);
    assert_eq!(cpu.reg(0), 0xCAFE_F00D, "Rd recibe lo que había en memoria");
    assert_eq!(bus.read_u32(addr), 0x1234_5678, "memoria recibe Rm");
    assert!(matches!(efecto, Executed::Accessed { .. }), "un SWP es Accessed");
}

#[test]
fn swpb_intercambia_un_solo_byte() {
    let mut bus = Bus::new(vec![0u8; 4]);
    let mut cpu = Cpu::new();
    let addr = IWRAM_START + 0x40;
    bus.write_u32(addr, 0xAABB_CCDD);
    cpu.set_reg(2, addr);
    cpu.set_reg(1, 0x1234_5611);
    cpu.execute_single_data_swap(0xE142_0091, &mut bus);
    assert_eq!(cpu.reg(0), 0x0000_00DD, "Rd recibe el byte bajo, extendido con ceros");
    assert_eq!(bus.read_u8(addr), 0x11, "memoria recibe el byte bajo de Rm");
    assert_eq!(bus.read_u8(addr + 1), 0xCC, "los demás bytes no se tocan");
}

#[test]
fn swp_con_rd_igual_a_rm_intercambia_atomicamente() {
    let mut bus = Bus::new(vec![0u8; 4]);
    let mut cpu = Cpu::new();
    let addr = IWRAM_START + 0x40;
    bus.write_u32(addr, 0x1111_1111);
    cpu.set_reg(1, addr);
    cpu.set_reg(0, 0x2222_2222);
    cpu.execute_single_data_swap(0xE101_0090, &mut bus);
    assert_eq!(cpu.reg(0), 0x1111_1111, "r0 recibe lo de memoria");
    assert_eq!(bus.read_u32(addr), 0x2222_2222, "memoria recibe el r0 original");
}

#[test]
fn swp_de_palabra_desalineado_rota_como_ldr() {
    let mut bus = Bus::new(vec![0u8; 4]);
    let mut cpu = Cpu::new();
    let base = IWRAM_START + 0x40;
    bus.write_u32(base, 0xAABB_CCDD);
    cpu.set_reg(2, base + 1);
    cpu.set_reg(1, 0x9999_9999);
    cpu.execute_single_data_swap(0xE102_0091, &mut bus);
    assert_eq!(cpu.reg(0), 0xDDAA_BBCC, "la lectura rota 8 bits, como LDR desalineado");
    assert_eq!(bus.read_u32(base), 0x9999_9999, "la escritura alinea a la palabra base");
}

#[test]
fn swi_entra_en_supervisor_por_el_vector_8() {
    let base = IWRAM_START;
    let mut bus = Bus::new(vec![0u8; 4]);
    bus.load_bios(&[0u8; BIOS_SIZE]);
    bus.write_u32(base, 0xEF00_0000);
    let mut cpu = Cpu::new();
    cpu.set_pc(base);
    cpu.set_mode(CpuMode::System);
    cpu.cpsr_mut().set_irq_disabled(false);
    cpu.cpsr_mut().set_c(true);
    let cpsr_previo = cpu.cpsr().bits();

    let efecto = cpu.step(&mut bus);
    assert_eq!(efecto, StepResult::Stepped);
    assert_eq!(cpu.mode(), CpuMode::Supervisor, "SWI entra en Supervisor");
    assert_eq!(cpu.pc(), 0x0000_0008, "salta al vector SWI");
    assert_eq!(cpu.reg(LR), base + 4, "LR_svc = instrucción siguiente al SWI");
    assert_eq!(cpu.spsr(), Some(cpsr_previo), "SPSR_svc = CPSR previo");
    assert!(!cpu.cpsr().thumb(), "entra en estado ARM");
    assert!(cpu.cpsr().bits() & (1 << 7) != 0, "SWI enmascara las IRQ (I=1)");
}

#[test]
fn instruccion_indefinida_entra_en_modo_undefined_por_el_vector_4() {
    let base = IWRAM_START;
    let mut bus = Bus::new(vec![0u8; 4]);
    bus.write_u32(base, 0xE600_0010);
    let mut cpu = Cpu::new();
    cpu.set_pc(base);
    cpu.set_mode(CpuMode::System);
    let cpsr_previo = cpu.cpsr().bits();

    cpu.step(&mut bus);
    assert_eq!(cpu.mode(), CpuMode::Undefined);
    assert_eq!(cpu.pc(), 0x0000_0004, "salta al vector de instrucción indefinida");
    assert_eq!(cpu.reg(LR), base + 4, "LR_und = instrucción siguiente");
    assert_eq!(cpu.spsr(), Some(cpsr_previo), "SPSR_und = CPSR previo");
}

#[test]
fn swi_y_retorno_con_movs_pc_lr_vuelve_al_flujo() {
    let base = IWRAM_START;
    let mut bus = Bus::new(vec![0u8; 4]);
    bus.load_bios(&[0u8; BIOS_SIZE]);
    bus.write_u32(base, 0xEF00_0000);
    let mut cpu = Cpu::new();
    cpu.set_pc(base);
    cpu.set_mode(CpuMode::System);
    let cpsr_previo = cpu.cpsr().bits();

    cpu.step(&mut bus);
    assert_eq!(cpu.mode(), CpuMode::Supervisor);

    cpu.execute_data_processing(0xE1B0_F00E);
    assert_eq!(cpu.mode(), CpuMode::System, "el retorno restaura el modo previo");
    assert_eq!(cpu.cpsr().bits(), cpsr_previo, "y el CPSR completo");
    assert_eq!(cpu.pc(), base + 4, "vuelve a la instrucción siguiente al SWI");
}

#[test]
fn swi_sin_bios_ejecuta_el_hle_y_continua_arm() {
    let base = IWRAM_START;
    let mut bus = Bus::new(vec![0u8; 4]);
    bus.write_u32(base, 0xEF06_0000);
    let mut cpu = Cpu::new();
    cpu.set_pc(base);
    cpu.set_mode(CpuMode::System);
    cpu.set_reg(0, 100);
    cpu.set_reg(1, 7);

    let efecto = cpu.step(&mut bus);
    assert_eq!(efecto, StepResult::Stepped);
    assert_eq!(cpu.mode(), CpuMode::System, "el HLE no cambia de modo");
    assert_eq!(cpu.pc(), base + 4, "continúa a la instrucción siguiente al SWI");
    assert_eq!(cpu.reg(0), 14, "cociente 100/7");
    assert_eq!(cpu.reg(1), 2, "resto 100%7");
}

#[test]
fn swi_sin_bios_ejecuta_el_hle_y_continua_thumb() {
    let base = IWRAM_START;
    let mut bus = Bus::new(vec![0u8; 4]);
    bus.write_u16(base, 0xDF06);
    let mut cpu = Cpu::new();
    cpu.set_pc(base);
    cpu.set_mode(CpuMode::System);
    cpu.cpsr_mut().set_thumb(true);
    cpu.set_reg(0, 20);
    cpu.set_reg(1, 6);

    cpu.step(&mut bus);
    assert_eq!(cpu.mode(), CpuMode::System, "sigue en System (no entra al vector)");
    assert!(cpu.cpsr().thumb(), "sigue en estado THUMB");
    assert_eq!(cpu.pc(), base + 2, "avanza 2 bytes (siguiente instrucción THUMB)");
    assert_eq!(cpu.reg(0), 3, "cociente 20/6");
    assert_eq!(cpu.reg(1), 2, "resto 20%6");
}

fn armar_irq(bus: &mut Bus, source: Interrupt) {
    bus.write_u16(IO_START + 0x200, 0xFFFF);
    bus.write_u32(IO_START + 0x208, 1);
    bus.request_interrupt(source);
}

#[test]
fn una_irq_se_atiende_y_salta_al_vector_0x18() {
    let base = IWRAM_START + 0x40;
    let mut bus = Bus::new(vec![0u8; 4]);
    let mut cpu = Cpu::new();
    cpu.set_pc(base);
    cpu.set_mode(CpuMode::System);
    cpu.cpsr_mut().set_irq_disabled(false);
    cpu.cpsr_mut().set_c(true);
    let cpsr_previo = cpu.cpsr().bits();
    armar_irq(&mut bus, Interrupt::VBlank);

    let efecto = cpu.step(&mut bus);
    assert_eq!(efecto, StepResult::Stepped);
    assert_eq!(cpu.mode(), CpuMode::Irq, "la IRQ entra en modo IRQ");
    assert_eq!(cpu.pc(), 0x0000_0018, "salta al vector de IRQ");
    assert_eq!(cpu.reg(LR), base + 4, "LR_irq = instrucción interrumpida + 4");
    assert_eq!(cpu.spsr(), Some(cpsr_previo), "SPSR_irq = CPSR previo");
    assert!(!cpu.cpsr().thumb(), "entra en estado ARM");
    assert!(cpu.cpsr().irq_disabled(), "y con las IRQ enmascaradas (I=1)");
}

#[test]
fn una_irq_no_se_atiende_con_el_bit_i_a_1() {
    let base = IWRAM_START + 0x40;
    let mut bus = Bus::new(vec![0u8; 4]);
    bus.write_u32(base, 0xE3A0_002A);
    let mut cpu = Cpu::new();
    cpu.set_pc(base);
    cpu.set_mode(CpuMode::System);
    cpu.cpsr_mut().set_irq_disabled(true);
    armar_irq(&mut bus, Interrupt::VBlank);

    cpu.step(&mut bus);
    assert_eq!(cpu.mode(), CpuMode::System, "no entra en IRQ");
    assert_eq!(cpu.pc(), base + 4, "ejecuta la instrucción normal");
    assert_eq!(cpu.reg(0), 42);
}

#[test]
fn una_irq_no_se_atiende_con_ime_a_0_ni_sin_fuente_habilitada() {
    let base = IWRAM_START + 0x40;
    let mut bus = Bus::new(vec![0u8; 4]);
    bus.write_u16(IO_START + 0x200, 0xFFFF);
    bus.request_interrupt(Interrupt::VBlank);
    let mut cpu = Cpu::new();
    cpu.set_pc(base);
    cpu.set_mode(CpuMode::System);
    cpu.cpsr_mut().set_irq_disabled(false);
    cpu.step(&mut bus);
    assert_eq!(cpu.mode(), CpuMode::System, "sin IME no se atiende");

    let mut bus = Bus::new(vec![0u8; 4]);
    bus.write_u32(IO_START + 0x208, 1);
    bus.write_u16(IO_START + 0x200, 0x0002);
    bus.request_interrupt(Interrupt::VBlank);
    let mut cpu = Cpu::new();
    cpu.set_pc(base);
    cpu.set_mode(CpuMode::System);
    cpu.cpsr_mut().set_irq_disabled(false);
    cpu.step(&mut bus);
    assert_eq!(cpu.mode(), CpuMode::System, "la fuente pendiente no está en IE");
}

#[test]
fn irq_entrada_y_retorno_con_subs_pc_lr_4_vuelve_al_flujo() {
    let base = IWRAM_START + 0x40;
    let mut bus = Bus::new(vec![0u8; 4]);
    let mut cpu = Cpu::new();
    cpu.set_pc(base);
    cpu.set_mode(CpuMode::System);
    cpu.cpsr_mut().set_irq_disabled(false);
    cpu.cpsr_mut().set_c(true);
    let cpsr_previo = cpu.cpsr().bits();
    armar_irq(&mut bus, Interrupt::VBlank);

    cpu.step(&mut bus);
    assert_eq!(cpu.mode(), CpuMode::Irq);

    bus.write_u16(IO_START + 0x202, 0xFFFF);
    cpu.execute_data_processing(0xE25E_F004);
    assert_eq!(cpu.mode(), CpuMode::System, "el retorno restaura el modo previo");
    assert_eq!(cpu.cpsr().bits(), cpsr_previo, "y el CPSR completo (flags + I)");
    assert_eq!(cpu.pc(), base, "reanuda en la instrucción interrumpida");
}

#[test]
fn halt_duerme_la_cpu_hasta_que_llega_una_irq() {
    let base = IWRAM_START + 0x40;
    let mut bus = Bus::new(vec![0u8; 4]);
    bus.write_u32(base, 0xE3A0_002A);
    let mut cpu = Cpu::new();
    cpu.set_pc(base);
    cpu.set_mode(CpuMode::System);
    cpu.cpsr_mut().set_irq_disabled(false);
    cpu.halt();

    assert!(cpu.is_halted());
    assert_eq!(
        cpu.step(&mut bus),
        StepResult::Halted(Halt::WaitingForInterrupt)
    );
    assert_eq!(cpu.reg(0), 0, "no ejecutó la instrucción mientras dormía");

    armar_irq(&mut bus, Interrupt::Dma0);
    cpu.step(&mut bus);
    assert!(!cpu.is_halted(), "una IRQ pendiente despierta la CPU");
    assert_eq!(cpu.mode(), CpuMode::Irq, "y la atiende saltando al vector");
}

#[test]
fn halt_despierta_aunque_ime_este_a_0_pero_no_toma_la_irq() {
    let base = IWRAM_START + 0x40;
    let mut bus = Bus::new(vec![0u8; 4]);
    bus.write_u32(base, 0xE3A0_002A);
    bus.write_u16(IO_START + 0x200, 0xFFFF);
    bus.request_interrupt(Interrupt::VBlank);
    let mut cpu = Cpu::new();
    cpu.set_pc(base);
    cpu.set_mode(CpuMode::System);
    cpu.cpsr_mut().set_irq_disabled(false);
    cpu.halt();

    cpu.step(&mut bus);
    assert!(!cpu.is_halted(), "despierta con IE&IF aunque IME=0");
    assert_eq!(cpu.mode(), CpuMode::System, "pero no salta al vector (IME=0)");
    assert_eq!(cpu.reg(0), 42, "reanuda ejecutando la instrucción siguiente");
}

fn thumb_step(instr: u16, setup: impl FnOnce(&mut Cpu, &mut Bus)) -> (Cpu, Bus) {
    let base = IWRAM_START;
    let mut bus = Bus::new(vec![0u8; 4]);
    bus.write_u16(base, instr);
    let mut cpu = Cpu::new();
    cpu.set_pc(base);
    cpu.cpsr_mut().set_thumb(true);
    setup(&mut cpu, &mut bus);
    cpu.step(&mut bus);
    (cpu, bus)
}

#[test]
fn thumb_f1_lsl_desplaza_y_fija_carry() {
    let (cpu, _) = thumb_step(0x0108, |cpu, _| cpu.set_reg(1, 0x1000_000F));
    assert_eq!(cpu.reg(0), 0x0000_00F0);
    assert!(cpu.cpsr().c(), "el bit desplazado fuera fija el carry");
    assert_eq!(cpu.pc(), IWRAM_START + 2, "avanza 2 bytes");
}

#[test]
fn thumb_f2_add_y_sub_registro() {
    let (cpu, _) = thumb_step(0x1888, |cpu, _| {
        cpu.set_reg(1, 5);
        cpu.set_reg(2, 3);
    });
    assert_eq!(cpu.reg(0), 8);
    let (cpu, _) = thumb_step(0x1A88, |cpu, _| {
        cpu.set_reg(1, 5);
        cpu.set_reg(2, 3);
    });
    assert_eq!(cpu.reg(0), 2);
    assert!(cpu.cpsr().c(), "resta sin borrow deja C=1");
}

#[test]
fn thumb_f3_mov_y_cmp_inmediato() {
    let (cpu, _) = thumb_step(0x2042, |_, _| {});
    assert_eq!(cpu.reg(0), 0x42);
    assert!(!cpu.cpsr().z());
    let (cpu, _) = thumb_step(0x2805, |cpu, _| cpu.set_reg(0, 5));
    assert!(cpu.cpsr().z(), "5 - 5 == 0 → Z");
}

#[test]
fn thumb_f4_and_mul_neg() {
    let (cpu, _) = thumb_step(0x4008, |cpu, _| {
        cpu.set_reg(0, 0xFF);
        cpu.set_reg(1, 0x0F);
    });
    assert_eq!(cpu.reg(0), 0x0F);
    let (cpu, _) = thumb_step(0x4348, |cpu, _| {
        cpu.set_reg(0, 6);
        cpu.set_reg(1, 7);
    });
    assert_eq!(cpu.reg(0), 42);
    let (cpu, _) = thumb_step(0x4248, |cpu, _| cpu.set_reg(1, 5));
    assert_eq!(cpu.reg(0), (-5i32) as u32);
    assert!(cpu.cpsr().n(), "el resultado negativo fija N");
}

#[test]
fn thumb_f5_bx_cambia_a_arm() {
    let (cpu, _) = thumb_step(0x4708, |cpu, _| {
        cpu.set_reg(1, IWRAM_START + 0x40);
    });
    assert!(!cpu.cpsr().thumb(), "BX a dirección par vuelve a ARM");
    assert_eq!(cpu.pc(), IWRAM_START + 0x40);
}

#[test]
fn thumb_f6_pc_relative_load() {
    let base = IWRAM_START;
    let (cpu, _) = thumb_step(0x4801, |_, bus| bus.write_u32(base + 8, 0xCAFE_F00D));
    assert_eq!(cpu.reg(0), 0xCAFE_F00D);
}

#[test]
fn thumb_f7_str_y_ldr_offset_de_registro() {
    let base = IWRAM_START;
    let (_, bus) = thumb_step(0x5088, |cpu, _| {
        cpu.set_reg(0, 0x1234_5678);
        cpu.set_reg(1, base + 0x40);
        cpu.set_reg(2, 4);
    });
    assert_eq!(bus.read_u32(base + 0x44), 0x1234_5678);
}

#[test]
fn thumb_f8_strh_y_ldrsb() {
    let base = IWRAM_START;
    let (_, bus) = thumb_step(0x5288, |cpu, _| {
        cpu.set_reg(0, 0xABCD);
        cpu.set_reg(1, base + 0x40);
        cpu.set_reg(2, 0);
    });
    assert_eq!(bus.read_u16(base + 0x40), 0xABCD);
    let (cpu, _) = thumb_step(0x5688, |cpu, bus| {
        bus.write_u8(base + 0x40, 0x80);
        cpu.set_reg(1, base + 0x40);
        cpu.set_reg(2, 0);
    });
    assert_eq!(cpu.reg(0), 0xFFFF_FF80, "LDRSB extiende el signo");
}

#[test]
fn thumb_f9_str_y_ldr_inmediato() {
    let base = IWRAM_START;
    let (_, bus) = thumb_step(0x6048, |cpu, _| {
        cpu.set_reg(0, 0xDEAD_BEEF);
        cpu.set_reg(1, base + 0x40);
    });
    assert_eq!(bus.read_u32(base + 0x44), 0xDEAD_BEEF);
    let (cpu, _) = thumb_step(0x7848, |cpu, bus| {
        bus.write_u8(base + 0x41, 0x99);
        cpu.set_reg(1, base + 0x40);
    });
    assert_eq!(cpu.reg(0), 0x99);
}

#[test]
fn thumb_f10_strh_y_ldrh_inmediato() {
    let base = IWRAM_START;
    let (_, bus) = thumb_step(0x8048, |cpu, _| {
        cpu.set_reg(0, 0x1234);
        cpu.set_reg(1, base + 0x40);
    });
    assert_eq!(bus.read_u16(base + 0x42), 0x1234);
}

#[test]
fn thumb_f11_sp_relative() {
    let base = IWRAM_START;
    let (_, bus) = thumb_step(0x9001, |cpu, _| {
        cpu.set_reg(0, 0x5555_AAAA);
        cpu.set_reg(SP, base + 0x80);
    });
    assert_eq!(bus.read_u32(base + 0x84), 0x5555_AAAA);
}

#[test]
fn thumb_f12_load_address_desde_sp() {
    let base = IWRAM_START;
    let (cpu, _) = thumb_step(0xA802, |cpu, _| cpu.set_reg(SP, base + 0x100));
    assert_eq!(cpu.reg(0), base + 0x108);
}

#[test]
fn thumb_f13_ajusta_el_sp() {
    let base = IWRAM_START;
    let (cpu, _) = thumb_step(0xB004, |cpu, _| cpu.set_reg(SP, base + 0x100));
    assert_eq!(cpu.reg(SP), base + 0x110);
    let (cpu, _) = thumb_step(0xB084, |cpu, _| cpu.set_reg(SP, base + 0x100));
    assert_eq!(cpu.reg(SP), base + 0xF0);
}

#[test]
fn thumb_f14_push_y_pop_con_lr_pc() {
    let base = IWRAM_START;
    let top = base + 0x100;
    let (cpu, bus) = thumb_step(0xB503, |cpu, _| {
        cpu.set_reg(SP, top);
        cpu.set_reg(0, 0xAA);
        cpu.set_reg(1, 0xBB);
        cpu.set_reg(LR, 0xCC);
    });
    assert_eq!(cpu.reg(SP), top - 12, "PUSH de 3 baja el SP 12");
    assert_eq!(bus.read_u32(top - 12), 0xAA);
    assert_eq!(bus.read_u32(top - 8), 0xBB);
    assert_eq!(bus.read_u32(top - 4), 0xCC, "LR va en la dirección más alta");

    let (cpu, _) = thumb_step(0xBD01, |cpu, bus| {
        cpu.set_reg(SP, top - 8);
        bus.write_u32(top - 8, 0x1122);
        bus.write_u32(top - 4, base + 0x40);
    });
    assert_eq!(cpu.reg(0), 0x1122);
    assert_eq!(cpu.reg(SP), top, "POP de 2 sube el SP 8");
    assert_eq!(cpu.pc(), base + 0x40, "POP {{pc}} salta (alineado a ½)");
    assert!(cpu.cpsr().thumb(), "y sigue en THUMB");
}

#[test]
fn thumb_f15_stmia_y_ldmia() {
    let base = IWRAM_START;
    let (cpu, bus) = thumb_step(0xC203, |cpu, _| {
        cpu.set_reg(0, 0x1111);
        cpu.set_reg(1, 0x2222);
        cpu.set_reg(2, base + 0x40);
    });
    assert_eq!(bus.read_u32(base + 0x40), 0x1111);
    assert_eq!(bus.read_u32(base + 0x44), 0x2222);
    assert_eq!(cpu.reg(2), base + 0x48, "write-back avanza la base 8");
}

#[test]
fn thumb_f16_branch_condicional() {
    let base = IWRAM_START;
    let (cpu, _) = thumb_step(0xD002, |cpu, _| cpu.cpsr_mut().set_z(true));
    assert_eq!(cpu.pc(), base + 8, "con Z=1 el salto se toma");
    let (cpu, _) = thumb_step(0xD002, |cpu, _| cpu.cpsr_mut().set_z(false));
    assert_eq!(cpu.pc(), base + 2, "con Z=0 es un NOP que avanza");
}

#[test]
fn thumb_f18_branch_incondicional() {
    let base = IWRAM_START;
    let (cpu, _) = thumb_step(0xE002, |_, _| {});
    assert_eq!(cpu.pc(), base + 8);
}

#[test]
fn thumb_f19_bl_en_dos_mitades() {
    let base = IWRAM_START;
    let mut bus = Bus::new(vec![0u8; 4]);
    bus.write_u16(base, 0xF000);
    bus.write_u16(base + 2, 0xF802);
    let mut cpu = Cpu::new();
    cpu.set_pc(base);
    cpu.cpsr_mut().set_thumb(true);

    cpu.step(&mut bus);
    assert_eq!(cpu.reg(LR), base + 4);
    cpu.step(&mut bus);
    assert_eq!(cpu.pc(), base + 8, "el BL salta a LR + offset*2");
    assert_eq!(cpu.reg(LR), (base + 4) | 1, "LR = dirección de retorno con bit THUMB");
}

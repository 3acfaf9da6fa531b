use gba_core::bios_math::{arctan2_core, arctan_core, div, div_arm, isqrt};
use gba_core::bios_memory::{cpu_fast_set, cpu_set, register_ram_reset, soft_reset};
use gba_core::bios_unpack::{bit_unpack, diff_unfilter, huff, lz77, rl};
use gba_core::bus::{EWRAM_START, IWRAM_START, PRAM_START, ROM_START};
use gba_core::cpu::Executed;
use gba_core::{Bus, Cpu, CpuMode};

fn entorno() -> (Cpu, Bus) {
    let mut cpu = Cpu::new();
    cpu.set_mode(CpuMode::System);
    cpu.set_pc(IWRAM_START);
    (cpu, Bus::new(vec![0u8; 64]))
}

#[test]
fn div_basico_y_casos_limite() {
    let (mut cpu, _) = entorno();
    cpu.set_reg(0, 10);
    cpu.set_reg(1, 3);
    div(&mut cpu);
    assert_eq!(cpu.reg(0), 3, "cociente");
    assert_eq!(cpu.reg(1), 1, "resto");
    assert_eq!(cpu.reg(3), 3, "|cociente|");

    cpu.set_reg(0, (-10i32) as u32);
    cpu.set_reg(1, 3);
    div(&mut cpu);
    assert_eq!(cpu.reg(0) as i32, -3);
    assert_eq!(cpu.reg(1) as i32, -1);
    assert_eq!(cpu.reg(3), 3);

    cpu.set_reg(0, 7);
    cpu.set_reg(1, 0);
    div(&mut cpu);
    assert_eq!(cpu.reg(0), 1);
    assert_eq!(cpu.reg(1), 7);
    assert_eq!(cpu.reg(3), 1);

    cpu.set_reg(0, i32::MIN as u32);
    cpu.set_reg(1, (-1i32) as u32);
    div(&mut cpu);
    assert_eq!(cpu.reg(0), i32::MIN as u32);
    assert_eq!(cpu.reg(1), 0);
    assert_eq!(cpu.reg(3), i32::MIN as u32);
}

#[test]
fn div_arm_invierte_los_operandos() {
    let (mut cpu, _) = entorno();
    cpu.set_reg(0, 3);
    cpu.set_reg(1, 10);
    div_arm(&mut cpu);
    assert_eq!(cpu.reg(0), 3);
    assert_eq!(cpu.reg(1), 1);
}

#[test]
fn sqrt_entero() {
    assert_eq!(isqrt(0), 0);
    assert_eq!(isqrt(1), 1);
    assert_eq!(isqrt(2), 1);
    assert_eq!(isqrt(15), 3);
    assert_eq!(isqrt(16), 4);
    assert_eq!(isqrt(9999), 99);
    assert_eq!(isqrt(0xFFFF_FFFF), 0xFFFF);
}

#[test]
fn arctan_de_cero_es_cero() {
    assert_eq!(arctan_core(0), 0);
}

#[test]
fn arctan2_direcciones_cardinales() {
    assert_eq!(arctan2_core(100, 0), 0x0000);
    assert_eq!(arctan2_core(0, 100), 0x4000);
    assert_eq!(arctan2_core(-100, 0), 0x8000);
    assert_eq!(arctan2_core(0, -100), 0xC000);
    let diag = arctan2_core(100, 100);
    assert!((0x1F00..=0x2100).contains(&diag), "≈0x2000, fue {diag:#06X}");
}

#[test]
fn cpu_set_copia_32_bits() {
    let (mut cpu, mut bus) = entorno();
    let (src, dst) = (IWRAM_START, IWRAM_START + 0x100);
    for i in 0..3u32 {
        bus.write_u32(src + i * 4, 0x1000 + i);
    }
    cpu.set_reg(0, src);
    cpu.set_reg(1, dst);
    cpu.set_reg(2, 3 | (1 << 26));
    cpu_set(&mut cpu, &mut bus);
    for i in 0..3u32 {
        assert_eq!(bus.read_u32(dst + i * 4), 0x1000 + i);
    }
}

#[test]
fn cpu_set_fill_16_bits() {
    let (mut cpu, mut bus) = entorno();
    let (src, dst) = (IWRAM_START, IWRAM_START + 0x100);
    bus.write_u16(src, 0xABCD);
    cpu.set_reg(0, src);
    cpu.set_reg(1, dst);
    cpu.set_reg(2, 4 | (1 << 24));
    cpu_set(&mut cpu, &mut bus);
    for i in 0..4u32 {
        assert_eq!(bus.read_u16(dst + i * 2), 0xABCD, "rellena con el valor fijo");
    }
}

#[test]
fn cpu_fast_set_redondea_a_multiplo_de_8() {
    let (mut cpu, mut bus) = entorno();
    let (src, dst) = (IWRAM_START, IWRAM_START + 0x100);
    for i in 0..8u32 {
        bus.write_u32(src + i * 4, i);
    }
    cpu.set_reg(0, src);
    cpu.set_reg(1, dst);
    cpu.set_reg(2, 3);
    cpu_fast_set(&mut cpu, &mut bus);
    for i in 0..8u32 {
        assert_eq!(bus.read_u32(dst + i * 4), i, "copia las 8 palabras del bloque");
    }
}

fn cabecera(bus: &mut Bus, addr: u32, tipo: u32, size: u32) {
    bus.write_u32(addr, (size << 8) | (tipo << 4));
}

#[test]
fn lz77_literales_y_referencia() {
    let (mut cpu, mut bus) = entorno();
    let (src, dst) = (IWRAM_START, IWRAM_START + 0x100);
    cabecera(&mut bus, src, 1, 4);
    bus.write_u8(src + 4, 0x40);
    bus.write_u8(src + 5, 0x41);
    bus.write_u8(src + 6, 0x00);
    bus.write_u8(src + 7, 0x00);
    cpu.set_reg(0, src);
    cpu.set_reg(1, dst);
    lz77(&mut cpu, &mut bus, false);
    for i in 0..4u32 {
        assert_eq!(bus.read_u8(dst + i), 0x41, "byte {i}");
    }
}

#[test]
fn rl_comprimido_y_literal() {
    let (mut cpu, mut bus) = entorno();
    let (src, dst) = (IWRAM_START, IWRAM_START + 0x100);
    cabecera(&mut bus, src, 3, 5);
    bus.write_u8(src + 4, 0x80 | 2);
    bus.write_u8(src + 5, 0x41);
    cpu.set_reg(0, src);
    cpu.set_reg(1, dst);
    rl(&mut cpu, &mut bus, false);
    for i in 0..5u32 {
        assert_eq!(bus.read_u8(dst + i), 0x41);
    }
}

#[test]
fn diff8_reconstruye_acumulando() {
    let (mut cpu, mut bus) = entorno();
    let (src, dst) = (IWRAM_START, IWRAM_START + 0x100);
    cabecera(&mut bus, src, 8, 4);
    for (i, d) in [10u8, 3, 0, 7].iter().enumerate() {
        bus.write_u8(src + 4 + i as u32, *d);
    }
    cpu.set_reg(0, src);
    cpu.set_reg(1, dst);
    diff_unfilter(&mut cpu, &mut bus, false, false);
    assert_eq!(
        [bus.read_u8(dst), bus.read_u8(dst + 1), bus.read_u8(dst + 2), bus.read_u8(dst + 3)],
        [10, 13, 13, 20]
    );
}

#[test]
fn bit_unpack_1bit_a_8bit() {
    let (mut cpu, mut bus) = entorno();
    let (src, dst, info) = (IWRAM_START, IWRAM_START + 0x100, IWRAM_START + 0x200);
    bus.write_u8(src, 0b1011_0001);
    bus.write_u16(info, 1);
    bus.write_u8(info + 2, 1);
    bus.write_u8(info + 3, 8);
    bus.write_u32(info + 4, 0);
    cpu.set_reg(0, src);
    cpu.set_reg(1, dst);
    cpu.set_reg(2, info);
    bit_unpack(&mut cpu, &mut bus);
    assert_eq!(
        (0..8).map(|i| bus.read_u8(dst + i)).collect::<Vec<_>>(),
        vec![1, 0, 0, 0, 1, 1, 0, 1]
    );
}

#[test]
fn huff_8bit_arbol_simple() {
    let (mut cpu, mut bus) = entorno();
    let (src, dst) = (IWRAM_START, IWRAM_START + 0x100);
    bus.write_u32(src, (2u32 << 8) | (2 << 4) | 8);
    bus.write_u8(src + 4, 1);
    bus.write_u8(src + 5, 0xC0);
    bus.write_u8(src + 6, 0xAA);
    bus.write_u8(src + 7, 0xBB);
    bus.write_u32(src + 8, 0b0100_0000u32 << 24);
    cpu.set_reg(0, src);
    cpu.set_reg(1, dst);
    huff(&mut cpu, &mut bus);
    assert_eq!(bus.read_u8(dst), 0xAA);
    assert_eq!(bus.read_u8(dst + 1), 0xBB);
}

#[test]
fn soft_reset_salta_a_la_rom_por_defecto() {
    let (mut cpu, mut bus) = entorno();
    let efecto = soft_reset(&mut cpu, &mut bus);
    assert!(matches!(efecto, Executed::Branched { .. }));
    assert_eq!(cpu.pc(), ROM_START, "flag 0 → arranca en la ROM");
    assert_eq!(cpu.mode(), CpuMode::System, "queda en modo System");
    assert!(!cpu.cpsr().thumb(), "estado ARM");
}

#[test]
fn register_ram_reset_borra_solo_lo_pedido() {
    let (mut cpu, mut bus) = entorno();
    bus.write_u32(EWRAM_START, 0xDEAD_BEEF);
    bus.write_u32(PRAM_START, 0x1234_5678);
    cpu.set_reg(0, 1 << 0);
    register_ram_reset(&mut cpu, &mut bus);
    assert_eq!(bus.read_u32(EWRAM_START), 0, "la EWRAM se borró");
    assert_eq!(bus.read_u32(PRAM_START), 0x1234_5678, "la PRAM se conserva");
}

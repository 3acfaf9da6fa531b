use gba_core::bus::{
    BIOS_SIZE, BIOS_START, EWRAM_SIZE, EWRAM_START, IO_START, IWRAM_SIZE, IWRAM_START, OPEN_BUS,
    ROM_START, VRAM_START,
};
use gba_core::{AccessWidth, Bus, Interrupt};

fn bus_de_prueba() -> Bus {
    let rom: Vec<u8> = (0..1024).map(|i| i as u8).collect();
    Bus::new(rom)
}

#[test]
fn ewram_lee_lo_que_escribe() {
    let mut bus = bus_de_prueba();
    bus.write_u32(EWRAM_START, 0x1234_5678);
    assert_eq!(bus.read_u32(EWRAM_START), 0x1234_5678);
}

#[test]
fn la_ewram_se_espeja_cada_256_kib() {
    let mut bus = bus_de_prueba();
    bus.write_u8(EWRAM_START, 0xAB);
    assert_eq!(bus.read_u8(EWRAM_START + EWRAM_SIZE as u32), 0xAB);
}

#[test]
fn la_iwram_se_espeja_cada_32_kib() {
    let mut bus = bus_de_prueba();
    bus.write_u8(IWRAM_START, 0xCD);
    assert_eq!(bus.read_u8(IWRAM_START + IWRAM_SIZE as u32), 0xCD);
}

#[test]
fn la_vram_refleja_los_32_kib_altos() {
    let mut bus = bus_de_prueba();
    bus.write_u8(VRAM_START + 0x10000, 0x42);
    assert_eq!(bus.read_u8(VRAM_START + 0x18000), 0x42);
}

#[test]
fn escritura_little_endian_correcta() {
    let mut bus = bus_de_prueba();
    bus.write_u32(IWRAM_START, 0xAABB_CCDD);
    assert_eq!(bus.read_u8(IWRAM_START), 0xDD);
    assert_eq!(bus.read_u8(IWRAM_START + 1), 0xCC);
    assert_eq!(bus.read_u8(IWRAM_START + 2), 0xBB);
    assert_eq!(bus.read_u8(IWRAM_START + 3), 0xAA);
}

#[test]
fn lee_la_rom_y_devuelve_open_bus_pasado_su_tamano() {
    let bus = bus_de_prueba();
    assert_eq!(bus.read_u8(ROM_START), 0);
    assert_eq!(bus.read_u8(ROM_START + 5), 5);
    assert_eq!(bus.read_u8(ROM_START + 4096), OPEN_BUS);
}

#[test]
fn los_waitstates_de_rom_son_espejos() {
    let bus = bus_de_prueba();
    let v0 = bus.read_u8(0x0800_0007);
    let v1 = bus.read_u8(0x0A00_0007);
    let v2 = bus.read_u8(0x0C00_0007);
    assert_eq!(v0, 7);
    assert_eq!(v1, 7);
    assert_eq!(v2, 7);
}

#[test]
fn has_bios_distingue_el_modo_hle_del_lle() {
    let mut bus = bus_de_prueba();
    assert!(!bus.has_bios(), "un bus recién creado no tiene BIOS real");
    bus.load_bios(&[0u8; BIOS_SIZE]);
    assert!(bus.has_bios(), "load_bios marca que hay BIOS real");
}

#[test]
fn la_rom_y_la_bios_ignoran_escrituras() {
    let mut bus = bus_de_prueba();
    bus.write_u8(ROM_START, 0xFF);
    assert_eq!(bus.read_u8(ROM_START), 0);
    bus.write_u8(BIOS_START, 0xFF);
    assert_eq!(bus.read_u8(BIOS_START), 0);
}

#[test]
fn las_regiones_no_mapeadas_devuelven_open_bus_sin_panicar() {
    let mut bus = bus_de_prueba();
    assert_eq!(bus.read_u8(0x0100_0000), OPEN_BUS);
    assert_eq!(bus.read_u32(0x0E00_0000), 0);
    bus.write_u32(0x0100_0000, 0xDEAD_BEEF);
    assert_eq!(bus.read_u32(0x0100_0000), 0);
}

#[test]
fn lectura_u32_desalineada_rota_el_word() {
    let mut bus = bus_de_prueba();
    bus.write_u32(IWRAM_START, 0xAABB_CCDD);
    assert_eq!(bus.read_u32(IWRAM_START + 1), 0xDDAA_BBCC);
    assert_eq!(bus.read_u32(IWRAM_START + 2), 0xCCDD_AABB);
    assert_eq!(bus.read_u32(IWRAM_START + 3), 0xBBCC_DDAA);
}

#[test]
fn lectura_u16_desalineada_rota_el_halfword() {
    let mut bus = bus_de_prueba();
    bus.write_u16(IWRAM_START, 0xBEEF);
    assert_eq!(bus.read_u16(IWRAM_START + 1), 0xEFBE);
}

#[test]
fn lectura_u32_alineada_no_rota() {
    let mut bus = bus_de_prueba();
    bus.write_u32(IWRAM_START, 0x1122_3344);
    assert_eq!(bus.read_u32(IWRAM_START), 0x1122_3344);
}

#[test]
fn ciclos_de_acceso_por_region() {
    let bus = bus_de_prueba();
    assert_eq!(bus.access_cycles(IWRAM_START, AccessWidth::Word, true), 1);
    assert_eq!(bus.access_cycles(IWRAM_START, AccessWidth::Word, false), 1);
    assert_eq!(bus.access_cycles(VRAM_START, AccessWidth::Word, true), 2);
    assert_eq!(bus.access_cycles(VRAM_START, AccessWidth::Half, true), 1);
    assert_eq!(bus.access_cycles(EWRAM_START, AccessWidth::Half, true), 3);
    assert_eq!(bus.access_cycles(EWRAM_START, AccessWidth::Word, true), 6);
    assert_eq!(bus.access_cycles(ROM_START, AccessWidth::Half, false), 5);
    assert_eq!(bus.access_cycles(ROM_START, AccessWidth::Half, true), 3);
    assert_eq!(bus.access_cycles(ROM_START, AccessWidth::Word, false), 8);
    assert_eq!(bus.access_cycles(ROM_START, AccessWidth::Word, true), 6);
}

fn dma_reg(ch: u32, off: u32) -> u32 {
    IO_START + 0xB0 + ch * 0x0C + off
}

const DMA_ENABLE: u16 = 1 << 15;
const DMA_WORD: u16 = 1 << 10;

#[test]
fn dma_copia_inmediata_de_32_bits() {
    let mut bus = Bus::new(Vec::new());
    let datos = [0x1111_1111u32, 0x2222_2222, 0x3333_3333, 0x4444_4444];
    for (i, w) in datos.iter().enumerate() {
        bus.write_u32(EWRAM_START + (i as u32) * 4, *w);
    }
    bus.write_u32(dma_reg(3, 0), EWRAM_START);
    bus.write_u32(dma_reg(3, 4), IWRAM_START);
    bus.write_u16(dma_reg(3, 8), 4);
    bus.write_u16(dma_reg(3, 0xA), DMA_ENABLE | DMA_WORD);

    for (i, w) in datos.iter().enumerate() {
        assert_eq!(bus.read_u32(IWRAM_START + (i as u32) * 4), *w);
    }
    assert_eq!(bus.read_u16(dma_reg(3, 0xA)) & DMA_ENABLE, 0);
}

#[test]
fn dma_disparado_por_una_escritura_de_32_bits_al_control() {
    let mut bus = Bus::new(Vec::new());
    bus.write_u32(EWRAM_START, 0xCAFE_BABE);
    bus.write_u32(dma_reg(0, 0), EWRAM_START);
    bus.write_u32(dma_reg(0, 4), IWRAM_START);
    let cnt = 1u32 | ((DMA_ENABLE | DMA_WORD) as u32) << 16;
    bus.write_u32(dma_reg(0, 8), cnt);

    assert_eq!(bus.read_u32(IWRAM_START), 0xCAFE_BABE);
}

#[test]
fn dma_copia_de_16_bits_con_origen_fijo() {
    let mut bus = Bus::new(Vec::new());
    bus.write_u16(EWRAM_START, 0xABCD);
    bus.write_u32(dma_reg(3, 0), EWRAM_START);
    bus.write_u32(dma_reg(3, 4), IWRAM_START);
    bus.write_u16(dma_reg(3, 8), 3);
    let src_fijo = 2u16 << 7;
    bus.write_u16(dma_reg(3, 0xA), DMA_ENABLE | src_fijo);

    assert_eq!(bus.read_u16(IWRAM_START), 0xABCD);
    assert_eq!(bus.read_u16(IWRAM_START + 2), 0xABCD);
    assert_eq!(bus.read_u16(IWRAM_START + 4), 0xABCD);
    assert_eq!(bus.read_u16(IWRAM_START + 6), 0);
}

#[test]
fn los_cuatro_canales_copian() {
    let mut bus = Bus::new(Vec::new());
    for ch in 0..4u32 {
        let src = EWRAM_START + ch * 4;
        let dst = IWRAM_START + 0x100 + ch * 4;
        let valor = 0x1000_0000 * (ch + 1);
        bus.write_u32(src, valor);
        bus.write_u32(dma_reg(ch, 0), src);
        bus.write_u32(dma_reg(ch, 4), dst);
        bus.write_u16(dma_reg(ch, 8), 1);
        bus.write_u16(dma_reg(ch, 0xA), DMA_ENABLE | DMA_WORD);
        assert_eq!(bus.read_u32(dst), valor, "canal {ch} debe copiar");
    }
}

#[test]
fn un_dma_de_vblank_no_copia_inmediatamente() {
    let mut bus = Bus::new(Vec::new());
    bus.write_u32(EWRAM_START, 0xDEAD_BEEF);
    bus.write_u32(dma_reg(3, 0), EWRAM_START);
    bus.write_u32(dma_reg(3, 4), IWRAM_START);
    bus.write_u16(dma_reg(3, 8), 1);
    let vblank = 1u16 << 12;
    bus.write_u16(dma_reg(3, 0xA), DMA_ENABLE | DMA_WORD | vblank);

    assert_eq!(bus.read_u32(IWRAM_START), 0);
    assert_ne!(bus.read_u16(dma_reg(3, 0xA)) & DMA_ENABLE, 0);
}

#[test]
fn dma_con_irq_al_terminar_levanta_la_interrupcion_del_canal() {
    let mut bus = Bus::new(Vec::new());
    bus.write_u32(EWRAM_START, 0x1234_5678);
    bus.write_u32(dma_reg(2, 0), EWRAM_START);
    bus.write_u32(dma_reg(2, 4), IWRAM_START);
    bus.write_u16(dma_reg(2, 8), 1);
    const DMA_IRQ: u16 = 1 << 14;
    bus.write_u16(dma_reg(2, 0xA), DMA_ENABLE | DMA_WORD | DMA_IRQ);

    assert_eq!(bus.read_u32(IWRAM_START), 0x1234_5678);
    let if_bit_dma2 = bus.read_u16(IO_START + 0x202) & Interrupt::Dma2.bit();
    assert_ne!(if_bit_dma2, 0, "el DMA2 con bit 14 levanta su IRQ");
}

#[test]
fn dma_sin_bit_de_irq_no_levanta_interrupcion() {
    let mut bus = Bus::new(Vec::new());
    bus.write_u32(EWRAM_START, 0x1234_5678);
    bus.write_u32(dma_reg(2, 0), EWRAM_START);
    bus.write_u32(dma_reg(2, 4), IWRAM_START);
    bus.write_u16(dma_reg(2, 8), 1);
    bus.write_u16(dma_reg(2, 0xA), DMA_ENABLE | DMA_WORD);
    assert_eq!(bus.read_u16(IO_START + 0x202), 0, "IF sigue limpio");
}

#[test]
fn dma_con_direcciones_no_mapeadas_no_panica() {
    let mut bus = Bus::new(Vec::new());
    bus.write_u32(dma_reg(3, 0), 0x0100_0000);
    bus.write_u32(dma_reg(3, 4), 0x0E00_0000);
    bus.write_u16(dma_reg(3, 8), 16);
    bus.write_u16(dma_reg(3, 0xA), DMA_ENABLE | DMA_WORD);
    assert_eq!(bus.read_u16(dma_reg(3, 0xA)) & DMA_ENABLE, 0);
}

use gba_core::dma::{CHANNEL_STRIDE, DMA_IO_BASE, OFF_CNT_H, OFF_CNT_L, OFF_DAD, OFF_SAD};
use gba_core::{Dma, DmaTransfer};

const CTRL_DST_CTL_SHIFT: u16 = 5;
const CTRL_SRC_CTL_SHIFT: u16 = 7;
const CTRL_WORD_BIT: u16 = 1 << 10;
const CTRL_TIMING_SHIFT: u16 = 12;
const CTRL_ENABLE_BIT: u16 = 1 << 15;

fn off_of(ch: usize, off: usize) -> u32 {
    DMA_IO_BASE + (ch * CHANNEL_STRIDE + off) as u32
}

fn write_reg16(dma: &mut Dma, ch: usize, off: usize, value: u16) {
    let base = off_of(ch, off);
    dma.write_u8(base, value as u8);
    dma.write_u8(base + 1, (value >> 8) as u8);
}

fn write_reg32(dma: &mut Dma, ch: usize, off: usize, value: u32) {
    let base = off_of(ch, off);
    for k in 0..4 {
        dma.write_u8(base + k, (value >> (8 * k)) as u8);
    }
}

#[test]
fn el_rango_de_registros_dma_es_0xb0_a_0xe0() {
    assert!(!Dma::in_range(0x0AF));
    assert!(Dma::in_range(0x0B0));
    assert!(Dma::in_range(0x0DF));
    assert!(!Dma::in_range(0x0E0));
}

#[test]
fn touches_detecta_solapamiento_de_una_escritura() {
    assert!(Dma::touches(0x0B8, 4));
    assert!(!Dma::touches(0x0AE, 2));
    assert!(Dma::touches(0x0AE, 4));
}

#[test]
fn origen_destino_y_contador_son_write_only_al_leer() {
    let mut dma = Dma::new();
    write_reg32(&mut dma, 0, OFF_SAD, 0x0203_0405);
    write_reg32(&mut dma, 0, OFF_DAD, 0x0607_0809);
    write_reg16(&mut dma, 0, OFF_CNT_L, 0x1234);
    assert_eq!(dma.read_u8(off_of(0, OFF_SAD)), 0);
    assert_eq!(dma.read_u8(off_of(0, OFF_DAD)), 0);
    assert_eq!(dma.read_u8(off_of(0, OFF_CNT_L)), 0);
    write_reg16(&mut dma, 0, OFF_CNT_H, 0xABCD);
    assert_eq!(dma.read_u8(off_of(0, OFF_CNT_H)), 0xCD);
    assert_eq!(dma.read_u8(off_of(0, OFF_CNT_H) + 1), 0xAB);
}

#[test]
fn poll_dispara_solo_en_el_flanco_de_enable_inmediato() {
    let mut dma = Dma::new();
    write_reg16(&mut dma, 0, OFF_CNT_H, CTRL_ENABLE_BIT);
    assert!(dma.poll_channel(0));
    assert!(!dma.poll_channel(0));
}

#[test]
fn un_canal_no_inmediato_queda_armado_sin_disparar() {
    let mut dma = Dma::new();
    let vblank = CTRL_ENABLE_BIT | (1 << CTRL_TIMING_SHIFT);
    write_reg16(&mut dma, 0, OFF_CNT_H, vblank);
    assert!(!dma.poll_channel(0), "V-Blank no dispara como inmediato");
    assert!(!dma.poll_channel(0));
}

#[test]
fn plan_decodifica_una_copia_de_32_bits_incremental() {
    let mut dma = Dma::new();
    write_reg32(&mut dma, 3, OFF_SAD, 0x0200_0000);
    write_reg32(&mut dma, 3, OFF_DAD, 0x0300_0000);
    write_reg16(&mut dma, 3, OFF_CNT_L, 4);
    write_reg16(&mut dma, 3, OFF_CNT_H, CTRL_WORD_BIT | CTRL_ENABLE_BIT);

    let plan = dma.plan(3);
    assert_eq!(
        plan,
        DmaTransfer {
            src: 0x0200_0000,
            dst: 0x0300_0000,
            count: 4,
            word: true,
            src_step: 4,
            dst_step: 4,
        }
    );
}

#[test]
fn plan_resuelve_conteo_cero_como_el_maximo_del_canal() {
    let mut dma = Dma::new();
    write_reg16(&mut dma, 0, OFF_CNT_H, CTRL_ENABLE_BIT);
    assert_eq!(dma.plan(0).count, 0x4000);
    write_reg16(&mut dma, 3, OFF_CNT_H, CTRL_ENABLE_BIT);
    assert_eq!(dma.plan(3).count, 0x1_0000);
}

#[test]
fn plan_alinea_las_direcciones_a_la_unidad() {
    let mut dma = Dma::new();
    write_reg32(&mut dma, 3, OFF_SAD, 0x0200_0003);
    write_reg32(&mut dma, 3, OFF_DAD, 0x0300_0002);
    write_reg16(&mut dma, 3, OFF_CNT_H, CTRL_WORD_BIT | CTRL_ENABLE_BIT);
    let plan = dma.plan(3);
    assert_eq!(plan.src, 0x0200_0000);
    assert_eq!(plan.dst, 0x0300_0000);
}

#[test]
fn plan_decodifica_pasos_decreciente_y_fijo() {
    let mut dma = Dma::new();
    let control = CTRL_ENABLE_BIT
        | (1 << CTRL_DST_CTL_SHIFT)
        | (2 << CTRL_SRC_CTL_SHIFT);
    write_reg16(&mut dma, 1, OFF_CNT_H, control);
    let plan = dma.plan(1);
    assert!(!plan.word, "sin bit 10 → 16 bits");
    assert_eq!(plan.src_step, 0, "origen fijo");
    assert_eq!(plan.dst_step, -2, "destino decrementa una unidad de 16 bits");
}

#[test]
fn finish_immediate_limpia_el_enable_y_el_latch() {
    let mut dma = Dma::new();
    write_reg16(&mut dma, 2, OFF_CNT_H, CTRL_ENABLE_BIT);
    assert!(dma.poll_channel(2));
    dma.finish_immediate(2);
    assert_eq!(dma.control(2) & CTRL_ENABLE_BIT, 0);
    write_reg16(&mut dma, 2, OFF_CNT_H, CTRL_ENABLE_BIT);
    assert!(dma.poll_channel(2));
}

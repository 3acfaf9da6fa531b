use gba_core::{Interrupt, InterruptControl};

#[test]
fn handles_reconoce_ie_if_ime_pero_no_waitcnt() {
    assert!(InterruptControl::handles(0x200));
    assert!(InterruptControl::handles(0x201));
    assert!(InterruptControl::handles(0x202));
    assert!(InterruptControl::handles(0x203));
    assert!(!InterruptControl::handles(0x204));
    assert!(!InterruptControl::handles(0x207));
    assert!(InterruptControl::handles(0x208));
    assert!(InterruptControl::handles(0x20B));
    assert!(!InterruptControl::handles(0x20C));
}

#[test]
fn ie_e_ime_se_leen_como_se_escriben() {
    let mut irq = InterruptControl::new();
    irq.write_u8(0x200, 0x34);
    irq.write_u8(0x201, 0x12);
    assert_eq!(irq.read_u8(0x200), 0x34);
    assert_eq!(irq.read_u8(0x201), 0x12);
    irq.write_u8(0x208, 1);
    assert_eq!(irq.read_u8(0x208), 1);
    irq.write_u8(0x208, 0xFE);
    assert_eq!(irq.read_u8(0x208), 0);
}

#[test]
fn if_se_borra_escribiendo_un_uno() {
    let mut irq = InterruptControl::new();
    irq.request(Interrupt::VBlank);
    irq.request(Interrupt::Timer0);
    assert_eq!(irq.read_u8(0x202) & 0b1001, 0b1001);
    irq.write_u8(0x202, 0x01);
    assert_eq!(irq.read_u8(0x202) & 0x01, 0, "V-Blank reconocido (borrado)");
    assert_ne!(irq.read_u8(0x202) & 0x08, 0, "Timer0 sigue pendiente");
    irq.write_u8(0x202, 0x00);
    assert_ne!(irq.read_u8(0x202) & 0x08, 0);
}

#[test]
fn raised_y_pending_combinan_ie_if_e_ime() {
    let mut irq = InterruptControl::new();
    irq.request(Interrupt::Dma0);
    assert!(!irq.raised(), "sin IE habilitado, no cuenta");
    irq.write_u8(0x201, 0x01);
    assert!(irq.raised(), "IE & IF != 0");
    assert!(!irq.pending(), "pero IME está a 0");
    irq.write_u8(0x208, 1);
    assert!(irq.pending(), "ahora sí se atiende");
}

#[test]
fn la_fuente_dma_mapea_al_bit_correcto() {
    assert_eq!(Interrupt::dma(0), Interrupt::Dma0);
    assert_eq!(Interrupt::dma(3), Interrupt::Dma3);
    assert_eq!(Interrupt::Dma0.bit(), 1 << 8);
    assert_eq!(Interrupt::VBlank.bit(), 1 << 0);
    assert_eq!(Interrupt::GamePak.bit(), 1 << 13);
}

use gba_core::bus::{BIOS_SIZE, ROM_START};
use gba_core::{
    ArmInstruction, Bios, Cartridge, Decoded, Gba, Halt, RunStop, ThumbInstruction,
    FRAMEBUFFER_SIZE, MIN_ROM_SIZE, SCREEN_HEIGHT, SCREEN_WIDTH,
};

#[test]
fn las_dimensiones_son_las_de_la_gba_real() {
    assert_eq!(SCREEN_WIDTH, 240);
    assert_eq!(SCREEN_HEIGHT, 160);
    assert_eq!(FRAMEBUFFER_SIZE, 240 * 160 * 4);
}

#[test]
fn el_framebuffer_tiene_el_tamano_correcto() {
    let gba = Gba::new();
    assert_eq!(gba.framebuffer().len(), FRAMEBUFFER_SIZE);
}

#[test]
fn clear_rellena_todos_los_pixeles_con_el_color() {
    let mut gba = Gba::new();
    gba.clear(10, 20, 30);
    let fb = gba.framebuffer();

    assert_eq!(&fb[0..4], &[10, 20, 30, 0xFF]);
    let n = fb.len();
    assert_eq!(&fb[n - 4..n], &[10, 20, 30, 0xFF]);
}

#[test]
fn fetch_lee_la_primera_instruccion_del_cartucho() {
    let mut rom = vec![0u8; MIN_ROM_SIZE];
    rom[..4].copy_from_slice(&[0x2E, 0x00, 0x00, 0xEA]);
    let cart = Cartridge::from_bytes(rom).expect("ROM mínima válida");

    let gba = Gba::with_cartridge(cart);

    assert_eq!(gba.pc(), ROM_START);
    assert_eq!(gba.fetch(), 0xEA00_002E);
}

#[test]
fn decodifica_la_primera_instruccion_como_salto() {
    let mut rom = vec![0u8; MIN_ROM_SIZE];
    rom[..4].copy_from_slice(&[0x2E, 0x00, 0x00, 0xEA]);
    let gba = Gba::with_cartridge(Cartridge::from_bytes(rom).unwrap());

    match gba.decode_arm(gba.fetch()) {
        Decoded::Execute(kind) => {
            assert_eq!(kind, ArmInstruction::Branch { link: false });
            assert_eq!(format!("¡Es una instrucción de {}!", kind.describe()), "¡Es una instrucción de Salto (B / Branch)!");
        }
        Decoded::ConditionFailed(c) => panic!("no debería fallar la condición: {c:?}"),
    }
}

#[test]
fn decodifica_thumb_con_un_decoder_separado() {
    let gba = Gba::new();
    assert_eq!(
        gba.decode_thumb(0x2005),
        ThumbInstruction::MoveCompareAddSubImm
    );
}

#[test]
fn run_ejecuta_la_rom_hasta_una_no_implementada() {
    let programa = [0xE3A0_0001u32, 0xE3A0_1002, 0xEE00_0000];
    let mut rom = vec![0u8; MIN_ROM_SIZE];
    for (i, w) in programa.iter().enumerate() {
        rom[i * 4..i * 4 + 4].copy_from_slice(&w.to_le_bytes());
    }
    let cart = Cartridge::from_bytes(rom).unwrap();
    let mut gba = Gba::with_cartridge(cart);

    let report = gba.run(1_000);
    assert_eq!(report.steps, 2, "dos MOV antes de la CDP");
    assert!(matches!(
        report.stop,
        RunStop::Halted(Halt::Unimplemented { .. })
    ));
}

fn poner(buf: &mut [u8], offset: usize, instr: u32) {
    buf[offset..offset + 4].copy_from_slice(&instr.to_le_bytes());
}

#[test]
fn con_bios_arranca_en_0x0_y_salta_a_la_rom() {
    let mut bios = vec![0u8; BIOS_SIZE];
    poner(&mut bios, 0x00, 0xE3A0_0408);
    poner(&mut bios, 0x04, 0xE12F_FF10);
    let bios = Bios::from_bytes(bios).expect("16 KiB es una BIOS válida");

    let mut rom = vec![0u8; MIN_ROM_SIZE];
    poner(&mut rom, 0x00, 0xE3A0_202A);
    poner(&mut rom, 0x04, 0xEAFF_FFFE);
    let cart = Cartridge::from_bytes(rom).unwrap();

    let mut gba = Gba::with_cartridge_and_bios(cart, bios);

    assert_eq!(gba.pc(), 0x0000_0000);

    let report = gba.run(100);
    assert_eq!(gba.reg(0), 0x0800_0000, "la BIOS se ejecutó desde 0x0");
    assert_eq!(gba.reg(2), 42, "saltó al cartucho y ejecutó su código");
    assert!(
        matches!(report.stop, RunStop::Halted(Halt::InfiniteLoop { .. })),
        "se detiene en el «b .» final de la ROM"
    );
}

#[test]
fn dma_end_to_end_la_cpu_programa_una_copia_y_se_ejecuta() {
    let programa = [
        0xE3A0_1402u32,
        0xE3A0_0042,
        0xE581_0000,
        0xE3A0_4404,
        0xE284_40B0,
        0xE584_1000,
        0xE3A0_2403,
        0xE584_2004,
        0xE3A0_3001,
        0xE1C4_30B8,
        0xE3A0_3C84,
        0xE1C4_30BA,
        0xE592_5000,
        0xEAFF_FFFE,
    ];
    let mut rom = vec![0u8; MIN_ROM_SIZE];
    for (i, w) in programa.iter().enumerate() {
        poner(&mut rom, i * 4, *w);
    }
    let mut gba = Gba::with_cartridge(Cartridge::from_bytes(rom).unwrap());

    let report = gba.run(1_000);
    assert!(
        matches!(report.stop, RunStop::Halted(Halt::InfiniteLoop { .. })),
        "el programa termina en su «b .» final"
    );
    assert_eq!(gba.reg(5), 0x42, "el DMA debe haber copiado el dato");
}

#[test]
fn irq_end_to_end_dma_dispara_una_interrupcion_atendida_por_la_bios() {
    let mut bios = vec![0u8; BIOS_SIZE];
    poner(&mut bios, 0x00, 0xE3A0_0408);
    poner(&mut bios, 0x04, 0xE12F_FF10);
    poner(&mut bios, 0x18, 0xE3A0_A0CA);
    poner(&mut bios, 0x1C, 0xE3A0_B404);
    poner(&mut bios, 0x20, 0xE28B_BC02);
    poner(&mut bios, 0x24, 0xE3E0_C000);
    poner(&mut bios, 0x28, 0xE1CB_C0B2);
    poner(&mut bios, 0x2C, 0xE25E_F004);
    let bios = Bios::from_bytes(bios).expect("16 KiB válida");

    let programa = [
        0xE321_F01Fu32,
        0xE3A0_4404,
        0xE3A0_0001,
        0xE584_0208,
        0xE284_5C02,
        0xE3A0_0C01,
        0xE1C5_00B0,
        0xE3A0_1402,
        0xE3A0_0099,
        0xE581_0000,
        0xE584_10B0,
        0xE3A0_2403,
        0xE584_20B4,
        0xE3A0_3001,
        0xE1C4_3BB8,
        0xE3A0_3CC4,
        0xE1C4_3BBA,
        0xE592_6000,
        0xEAFF_FFFE,
    ];
    let mut rom = vec![0u8; MIN_ROM_SIZE];
    for (i, w) in programa.iter().enumerate() {
        poner(&mut rom, i * 4, *w);
    }
    let mut gba = Gba::with_cartridge_and_bios(Cartridge::from_bytes(rom).unwrap(), bios);

    let report = gba.run(1_000);
    assert!(
        matches!(report.stop, RunStop::Halted(Halt::InfiniteLoop { .. })),
        "termina en el «b .» final"
    );
    assert_eq!(gba.reg(10), 0xCA, "el handler de IRQ se ejecutó");
    assert_eq!(gba.reg(6), 0x99, "y la copia del DMA llegó al destino");
}

#[test]
fn timer_end_to_end_despierta_la_cpu_de_un_halt() {
    let programa = [
        0xE3A0_4404u32,
        0xE3A0_0008,
        0xE284_5C02,
        0xE1C5_00B0,
        0xE284_6C01,
        0xE3A0_0000,
        0xE1C6_00B0,
        0xE3A0_00C0,
        0xE1C6_00B2,
        0xEF02_0000,
        0xE3A0_7077,
        0xEAFF_FFFE,
    ];
    let mut rom = vec![0u8; MIN_ROM_SIZE];
    for (i, w) in programa.iter().enumerate() {
        poner(&mut rom, i * 4, *w);
    }
    let mut gba = Gba::with_cartridge(Cartridge::from_bytes(rom).unwrap());

    let report = gba.run(10_000);
    assert!(
        matches!(report.stop, RunStop::Halted(Halt::InfiniteLoop { .. })),
        "termina en el «b .» final, no dormida"
    );
    assert_eq!(gba.reg(7), 0x77, "la CPU despertó del Halt y siguió ejecutando");
    assert!(
        gba.cycles() >= 65_536,
        "el bucle saltó el tiempo muerto hasta el desborde (cycles={})",
        gba.cycles()
    );
}

#[test]
fn sin_bios_el_atajo_skip_bios_arranca_en_la_rom() {
    let mut rom = vec![0u8; MIN_ROM_SIZE];
    poner(&mut rom, 0x00, 0xEAFF_FFFE);
    let gba = Gba::with_cartridge(Cartridge::from_bytes(rom).unwrap());
    assert_eq!(gba.pc(), ROM_START);
}

use gba_core::header::{GAME_CODE_OFFSET, TITLE_OFFSET};
use gba_core::Header;

fn rom_con(title: &[u8], code: &[u8]) -> Vec<u8> {
    let mut rom = vec![0u8; 0xC0];
    rom[TITLE_OFFSET..TITLE_OFFSET + title.len()].copy_from_slice(title);
    rom[GAME_CODE_OFFSET..GAME_CODE_OFFSET + code.len()].copy_from_slice(code);
    rom
}

#[test]
fn parsea_titulo_y_codigo() {
    let rom = rom_con(b"POKEMON FIRE", b"BPRE");
    let h = Header::parse(&rom).unwrap();
    assert_eq!(h.title, "POKEMON FIRE");
    assert_eq!(h.game_code, "BPRE");
}

#[test]
fn recorta_el_relleno_de_nul_del_titulo() {
    let rom = rom_con(b"MARIO", b"AMRE");
    let h = Header::parse(&rom).unwrap();
    assert_eq!(h.title, "MARIO");
}

#[test]
fn no_panica_con_bytes_no_ascii_en_el_titulo() {
    let rom = rom_con(&[0xFF, 0xFE, 0x80, 0x90], b"AMRE");
    let h = Header::parse(&rom).unwrap();
    assert_eq!(h.game_code, "AMRE");
}

#[test]
fn devuelve_none_si_la_rom_no_cubre_la_cabecera() {
    let rom = vec![0u8; TITLE_OFFSET];
    assert!(Header::parse(&rom).is_none());
}

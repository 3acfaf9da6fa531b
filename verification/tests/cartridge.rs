use gba_core::{Cartridge, CartridgeError, MAX_ROM_SIZE, MIN_ROM_SIZE};

#[test]
fn rechaza_archivos_demasiado_pequenos() {
    let err = Cartridge::from_bytes(vec![0; 10]).err().unwrap();
    assert_eq!(err, CartridgeError::TooSmall { size: 10 });
}

#[test]
fn rechaza_archivos_demasiado_grandes() {
    let size = MAX_ROM_SIZE + 1;
    let err = Cartridge::from_bytes(vec![0; size]).err().unwrap();
    assert_eq!(err, CartridgeError::TooLarge { size });
}

#[test]
fn acepta_el_tamano_minimo_exacto() {
    let cart = Cartridge::from_bytes(vec![0; MIN_ROM_SIZE]).expect("debería aceptarse");
    assert_eq!(cart.len(), MIN_ROM_SIZE);
    assert!(!cart.is_empty());
}

#[test]
fn acepta_el_tamano_maximo_exacto() {
    let cart = Cartridge::from_bytes(vec![0; MAX_ROM_SIZE]).expect("debería aceptarse");
    assert_eq!(cart.len(), MAX_ROM_SIZE);
}

#[test]
fn conserva_los_bytes_de_la_rom() {
    let mut datos = vec![0u8; MIN_ROM_SIZE];
    datos[0] = 0xAB;
    datos[MIN_ROM_SIZE - 1] = 0xCD;
    let cart = Cartridge::from_bytes(datos).unwrap();
    assert_eq!(cart.rom()[0], 0xAB);
    assert_eq!(cart.rom()[MIN_ROM_SIZE - 1], 0xCD);
}

#[test]
fn expone_la_cabecera_parseada() {
    let mut datos = vec![0u8; MIN_ROM_SIZE];
    datos[0xA0..0xA0 + 5].copy_from_slice(b"HELLO");
    datos[0xAC..0xAC + 4].copy_from_slice(b"ABCD");
    let cart = Cartridge::from_bytes(datos).unwrap();
    assert_eq!(cart.header().title, "HELLO");
    assert_eq!(cart.header().game_code, "ABCD");
}

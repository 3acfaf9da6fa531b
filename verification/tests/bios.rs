use gba_core::bus::BIOS_SIZE;
use gba_core::{Bios, BiosError};

#[test]
fn rechaza_un_tamano_menor() {
    let err = Bios::from_bytes(vec![0; BIOS_SIZE - 1]).err().unwrap();
    assert_eq!(err, BiosError::WrongSize { size: BIOS_SIZE - 1 });
}

#[test]
fn rechaza_un_tamano_mayor() {
    let err = Bios::from_bytes(vec![0; BIOS_SIZE + 1]).err().unwrap();
    assert_eq!(err, BiosError::WrongSize { size: BIOS_SIZE + 1 });
}

#[test]
fn acepta_el_tamano_exacto_de_16_kib() {
    let bios = Bios::from_bytes(vec![0; BIOS_SIZE]).expect("16 KiB es válido");
    assert_eq!(bios.len(), BIOS_SIZE);
    assert!(!bios.is_empty());
}

#[test]
fn conserva_los_bytes() {
    let mut datos = vec![0u8; BIOS_SIZE];
    datos[0] = 0x18;
    datos[BIOS_SIZE - 1] = 0xAB;
    let bios = Bios::from_bytes(datos).unwrap();
    assert_eq!(bios.as_bytes()[0], 0x18);
    assert_eq!(bios.as_bytes()[BIOS_SIZE - 1], 0xAB);
}

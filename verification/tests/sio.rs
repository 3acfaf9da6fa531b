use gba_core::Sio;

#[test]
fn handles_reconoce_los_registros_sio_y_rcnt() {
    assert!(Sio::handles(0x120));
    assert!(Sio::handles(0x128));
    assert!(Sio::handles(0x12B));
    assert!(!Sio::handles(0x12C));
    assert!(!Sio::handles(0x133));
    assert!(Sio::handles(0x134));
    assert!(Sio::handles(0x135));
    assert!(!Sio::handles(0x136));
}

#[test]
fn siodata32_almacena_y_devuelve_lo_escrito() {
    let mut sio = Sio::new();
    for (k, b) in [0x78, 0x56, 0x34, 0x12].into_iter().enumerate() {
        sio.write_u8(0x120 + k as u32, b);
    }
    for (k, b) in [0x78, 0x56, 0x34, 0x12].into_iter().enumerate() {
        assert_eq!(sio.read_u8(0x120 + k as u32), b);
    }
}

#[test]
fn siocnt_y_siodata8_son_independientes() {
    let mut sio = Sio::new();
    sio.write_u8(0x128, 0xAB);
    sio.write_u8(0x129, 0xCD);
    sio.write_u8(0x12A, 0xEF);
    assert_eq!(sio.read_u8(0x128), 0xAB);
    assert_eq!(sio.read_u8(0x129), 0xCD);
    assert_eq!(sio.read_u8(0x12A), 0xEF);
}

#[test]
fn rcnt_almacena_y_devuelve_lo_escrito() {
    let mut sio = Sio::new();
    sio.write_u8(0x134, 0x80);
    sio.write_u8(0x135, 0x81);
    assert_eq!(sio.read_u8(0x134), 0x80);
    assert_eq!(sio.read_u8(0x135), 0x81);
}

#[test]
fn un_offset_fuera_de_los_registros_lee_cero_sin_panicar() {
    let mut sio = Sio::new();
    sio.write_u8(0x130, 0xFF);
    assert_eq!(sio.read_u8(0x130), 0);
}

use gba_core::bus::{BIOS_SIZE, ROM_START};
use gba_core::cartridge::may_hold_cartridge;
use gba_core::frontend::{pixel_0rgb, rgba_to_0rgb, verdict, Verdict};
use gba_core::header::{decode_text, is_white_space, trim_padding};
use gba_core::text::decimal;
use gba_core::{
    Bios, BiosError, Cartridge, CartridgeError, Gba, Halt, Header, RunStop, StepResult, MIN_ROM_SIZE,
};

fn cartridge(program: &[u32]) -> Cartridge {
    let mut rom = vec![0u8; MIN_ROM_SIZE];
    for (i, word) in program.iter().enumerate() {
        rom[i * 4..i * 4 + 4].copy_from_slice(&word.to_le_bytes());
    }
    match Cartridge::from_bytes(rom) {
        Ok(cart) => cart,
        Err(e) => panic!("{e:?}"),
    }
}

#[test]
fn whitespace_is_that_of_unicode() {
    for code in 0..=0x10FFFFu32 {
        if let Some(c) = char::from_u32(code) {
            assert_eq!(is_white_space(c), c.is_whitespace(), "{code:#X}");
        }
    }
}

#[test]
fn texts_lose_the_padding_at_their_end_only() {
    assert_eq!(trim_padding(" A B \0 \t\u{3000}"), " A B");
    assert_eq!(trim_padding("\0 \0"), "");
    assert_eq!(trim_padding(""), "");
    assert_eq!(trim_padding("ñ\u{85}"), "ñ");
}

#[test]
fn invalid_bytes_become_replacement_characters() {
    assert_eq!(decode_text(&[0xFF, b'A', 0x00]), "\u{FFFD}A");
    assert_eq!(decode_text("É".as_bytes()), "É");
    let mut rom = vec![0u8; 0xB0];
    rom[0xA0] = 0x80;
    rom[0xAC..0xB0].copy_from_slice(b"AB  ");
    let header = Header::parse(&rom).unwrap();
    assert_eq!(header.title, "\u{FFFD}");
    assert_eq!(header.game_code, "AB");
    assert!(Header::parse(&rom[..0xAF]).is_none());
}

#[test]
fn large_files_are_not_worth_reading() {
    assert!(may_hold_cartridge(0));
    assert!(may_hold_cartridge(32 * 1024 * 1024));
    assert!(!may_hold_cartridge(32 * 1024 * 1024 + 1));
}

#[test]
fn window_pixels_drop_the_alpha() {
    assert_eq!(pixel_0rgb(0x12, 0x34, 0x56), 0x0012_3456);
    let mut out = vec![7u32; 3];
    rgba_to_0rgb(&[1, 2, 3, 0xFF, 4, 5, 6, 0, 9], &mut out);
    assert_eq!(out, vec![0x0001_0203, 0x0004_0506, 7]);
    let mut short = vec![0u32; 1];
    rgba_to_0rgb(&[1, 2, 3, 0xFF, 4, 5, 6, 0], &mut short);
    assert_eq!(short, vec![0x0001_0203]);
}

#[test]
fn a_test_rom_is_judged_by_r12() {
    let halt = RunStop::Halted(Halt::InfiniteLoop { pc: 0x0800_0010, instr: 0xEAFF_FFFE });
    assert_eq!(verdict(halt, 0), Verdict::Passed { pc: 0x0800_0010 });
    assert_eq!(verdict(halt, 21), Verdict::Failed { test: 21, pc: 0x0800_0010 });
    assert_eq!(verdict(RunStop::StepLimit, 0), Verdict::Undecided);
    assert_eq!(verdict(RunStop::Halted(Halt::WaitingForInterrupt), 0), Verdict::Undecided);
}

#[test]
fn a_console_with_a_bios_starts_in_it() {
    let mut image = vec![0u8; BIOS_SIZE];
    image[..4].copy_from_slice(&0xE3A0_0009u32.to_le_bytes());
    let bios = match Bios::from_bytes(image) {
        Ok(bios) => bios,
        Err(e) => panic!("{e:?}"),
    };
    let mut gba = Gba::with_cartridge_and_bios(cartridge(&[]), bios);
    assert_eq!(gba.pc(), 0);
    assert_eq!(gba.fetch(), 0xE3A0_0009);
    assert_eq!(gba.step(), StepResult::Stepped);
    assert_eq!(gba.reg(0), 9);
}

#[test]
fn running_leaves_the_picture() {
    let mut gba = Gba::with_cartridge(cartridge(&[0xE3A0_0001, 0xEAFF_FFFE]));
    let before = gba.framebuffer().to_vec();
    let report = gba.run(10);
    assert_eq!(report.steps, 1);
    assert_eq!(gba.framebuffer(), &before[..]);
    assert_eq!(&before[..4], &[0x1E, 0x90, 0xFF, 0xFF]);
    assert_eq!(report.cycles, gba.cycles());
}

#[test]
fn an_affine_call_is_an_instruction_like_any_other() {
    let mut gba = Gba::with_cartridge(cartridge(&[
        0xE3A0_0402,
        0xE280_1C01,
        0xE3A0_2001,
        0xE3A0_3C01,
        0xE1C0_30BE,
        0xEF0E_0000,
        0xE1D1_40B6,
        0xEAFF_FFFE,
    ]));
    let report = gba.run(100);
    assert_eq!(report.steps, 7);
    assert_eq!(
        report.stop,
        RunStop::Halted(Halt::InfiniteLoop { pc: ROM_START + 28, instr: 0xEAFF_FFFE })
    );
    assert_eq!(gba.reg(4), 0x100);
}

#[test]
fn errors_say_what_is_wrong() {
    let small = Cartridge::from_bytes(vec![0; 10]).err().unwrap();
    assert_eq!(
        small.message(),
        "el archivo es demasiado pequeño (10 bytes); una cabecera de cartucho ocupa al menos 192 bytes"
    );
    let large = CartridgeError::TooLarge { size: 33_554_433 };
    assert_eq!(
        large.message(),
        "el archivo es demasiado grande (33554433 bytes); el máximo direccionable por la GBA es 33554432 bytes (32 MiB)"
    );
    assert_eq!(
        BiosError::WrongSize { size: 0 }.message(),
        "la BIOS mide 0 bytes; debe medir exactamente 16384 bytes (16 KiB)"
    );
    for n in [0usize, 7, 10, 99, 100, 4_294_967_295] {
        assert_eq!(decimal(n), format!("{n}"));
    }
}

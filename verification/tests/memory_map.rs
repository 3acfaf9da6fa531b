use gba_core::bus::{
    EWRAM_START, IO_START, IWRAM_START, OAM_START, PRAM_START, ROM_START, VRAM_START,
};
use gba_core::Bus;

fn write_dma(bus: &mut Bus, ch: u32, src: u32, dst: u32, count: u16, control: u16) {
    let base = IO_START + 0xB0 + ch * 12;
    bus.write_u32(base, src);
    bus.write_u32(base + 4, dst);
    bus.write_u16(base + 8, count);
    bus.write_u16(base + 10, control);
}

#[test]
fn ram_keeps_bytes_and_nothing_else_moves() {
    for start in [EWRAM_START, IWRAM_START, PRAM_START, VRAM_START, OAM_START] {
        let mut bus = Bus::new(vec![0x5A; 0x100]);
        bus.write_u8(start + 0x11, 0xC3);
        assert_eq!(bus.read_u8(start + 0x11), 0xC3);
        assert_eq!(bus.read_u8(start + 0x10), 0);
        assert_eq!(bus.read_u8(start + 0x12), 0);
        assert_eq!(bus.read_u8(ROM_START), 0x5A);
    }
}

#[test]
fn ram_repeats_at_its_size() {
    let mut bus = Bus::new(Vec::new());
    bus.write_u8(EWRAM_START + 0x4_0001, 1);
    bus.write_u8(IWRAM_START + 0x8002, 2);
    bus.write_u8(PRAM_START + 0x403, 3);
    bus.write_u8(OAM_START + 0x404, 4);
    bus.write_u8(VRAM_START + 0x2_0005, 5);
    assert_eq!(bus.read_u8(EWRAM_START + 1), 1);
    assert_eq!(bus.read_u8(IWRAM_START + 2), 2);
    assert_eq!(bus.read_u8(PRAM_START + 3), 3);
    assert_eq!(bus.read_u8(OAM_START + 4), 4);
    assert_eq!(bus.read_u8(VRAM_START + 5), 5);
}

#[test]
fn video_ram_folds_its_last_part() {
    let mut bus = Bus::new(Vec::new());
    bus.write_u8(VRAM_START + 0x1_8007, 9);
    assert_eq!(bus.read_u8(VRAM_START + 0x1_0007), 9);
    bus.write_u8(VRAM_START + 0x1_7FFF, 8);
    assert_eq!(bus.read_u8(VRAM_START + 0x1_FFFF), 8);
}

#[test]
fn rom_windows_show_the_same_bytes() {
    let bus = Bus::new(vec![1, 2, 3, 4]);
    for window in [0x0800_0000, 0x0A00_0000, 0x0C00_0000] {
        assert_eq!(bus.read_u32(window), 0x0403_0201);
        assert_eq!(bus.read_u8(window + 4), 0);
    }
}

#[test]
fn read_only_memory_ignores_all_widths() {
    let mut bus = Bus::new(vec![0x11; 16]);
    let bios_byte = bus.read_u8(0);
    for addr in [0u32, 0x0100_0000, ROM_START, 0x0A00_0000, 0x0E00_0000, 0xFFFF_FFF0] {
        bus.write_u8(addr, 0xEE);
        bus.write_u16(addr, 0xEEEE);
        bus.write_u32(addr, 0xEEEE_EEEE);
    }
    assert_eq!(bus.read_u8(0), bios_byte);
    assert_eq!(bus.read_u32(ROM_START), 0x1111_1111);
    assert_eq!(bus.read_u32(0x0100_0000), 0);
    assert_eq!(bus.read_u32(0xFFFF_FFFD), 0);
    assert_eq!(bus.read_u16(0x0E00_0001), 0);
}

#[test]
fn wide_writes_are_aligned_and_little_endian() {
    let mut bus = Bus::new(Vec::new());
    bus.write_u32(IWRAM_START + 0x103, 0x1122_3344);
    assert_eq!(bus.read_u32(IWRAM_START + 0x100), 0x1122_3344);
    assert_eq!(bus.read_u8(IWRAM_START + 0x100), 0x44);
    assert_eq!(bus.read_u8(IWRAM_START + 0x103), 0x11);
    bus.write_u16(IWRAM_START + 0x105, 0xABCD);
    assert_eq!(bus.read_u16(IWRAM_START + 0x104), 0xABCD);
    assert_eq!(bus.read_u8(IWRAM_START + 0x105), 0xAB);
    assert_eq!(bus.read_u8(IWRAM_START + 0x106), 0);
}

#[test]
fn unaligned_reads_bring_the_addressed_byte_down() {
    let mut bus = Bus::new(Vec::new());
    bus.write_u32(EWRAM_START, 0x1122_3344);
    assert_eq!(bus.read_u32(EWRAM_START + 1), 0x4411_2233);
    assert_eq!(bus.read_u32(EWRAM_START + 2), 0x3344_1122);
    assert_eq!(bus.read_u32(EWRAM_START + 3), 0x2233_4411);
    assert_eq!(bus.read_u16(EWRAM_START + 1), 0x4433);
}

#[test]
fn a_transfer_copies_and_disables_its_channel() {
    let mut bus = Bus::new(Vec::new());
    for i in 0..4u32 {
        bus.write_u32(EWRAM_START + i * 4, 0xA000_0000 + i);
    }
    bus.write_u32(IWRAM_START + 16, 0x5555_5555);
    write_dma(&mut bus, 3, EWRAM_START, IWRAM_START, 4, 0x8400);
    for i in 0..4u32 {
        assert_eq!(bus.read_u32(IWRAM_START + i * 4), 0xA000_0000 + i);
    }
    assert_eq!(bus.read_u32(IWRAM_START + 16), 0x5555_5555);
    assert_eq!(bus.read_u16(IO_START + 0xB0 + 36 + 10), 0x0400);
}

#[test]
fn an_armed_channel_leaves_the_others_alone() {
    let mut bus = Bus::new(Vec::new());
    bus.write_u16(EWRAM_START, 0x1234);
    write_dma(&mut bus, 1, EWRAM_START, IWRAM_START, 1, 0x9000);
    assert_eq!(bus.read_u16(IWRAM_START), 0);
    write_dma(&mut bus, 2, EWRAM_START, IWRAM_START + 2, 1, 0x8000);
    assert_eq!(bus.read_u16(IWRAM_START + 2), 0x1234);
    assert_eq!(bus.read_u16(IWRAM_START), 0);
    assert_eq!(bus.read_u16(IO_START + 0xB0 + 12 + 10), 0x9000);
    assert_eq!(bus.read_u16(IO_START + 0xB0 + 24 + 10), 0x0000);
}

#[test]
fn a_transfer_can_go_down_or_stay() {
    let mut bus = Bus::new(Vec::new());
    for i in 0..4u32 {
        bus.write_u16(EWRAM_START + i * 2, 0x10 + i as u16);
    }
    write_dma(&mut bus, 3, EWRAM_START + 6, IWRAM_START, 4, 0x8080);
    assert_eq!(bus.read_u16(IWRAM_START), 0x13);
    assert_eq!(bus.read_u16(IWRAM_START + 6), 0x10);
    write_dma(&mut bus, 3, EWRAM_START, IWRAM_START + 0x20, 4, 0x8040);
    assert_eq!(bus.read_u16(IWRAM_START + 0x20), 0x13);
    assert_eq!(bus.read_u16(IWRAM_START + 0x22), 0);
}

#[test]
fn due_events_are_handed_out_up_to_the_clock() {
    let mut bus = Bus::new(Vec::new());
    bus.write_u16(IO_START + 0x200, 0x0008);
    bus.write_u16(IO_START + 0x100, 0xFFF0);
    bus.write_u16(IO_START + 0x102, 0x00C0);
    assert_eq!(bus.next_wakeup_cycle(), Some(16));
    bus.sync_to_cycle(15);
    assert!(!bus.irq_raised());
    assert_eq!(bus.read_u16(IO_START + 0x100), 0xFFFF);
    bus.sync_to_cycle(16);
    assert!(bus.irq_raised());
    assert_eq!(bus.read_u16(IO_START + 0x100), 0xFFF0);
    bus.sync_to_cycle(1000);
    assert_eq!(bus.next_wakeup_cycle(), Some(1008));
}

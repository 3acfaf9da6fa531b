use gba_core::bios_hle::dispatch;
use gba_core::bios_math::{arctan2_core, arctan_core, div, isqrt, sqrt};
use gba_core::bios_memory::{cpu_set, register_ram_reset};
use gba_core::bios_unpack::{decompressed_size, diff_unfilter, lz77, rl};
use gba_core::bus::{EWRAM_START, IO_START, IWRAM_START, OAM_START, VRAM_START};
use gba_core::cpu::Executed;
use gba_core::{Bus, Cpu, CpuMode, Halt, Interrupt, RunStop, StepResult};

fn machine() -> (Cpu, Bus) {
    let mut cpu = Cpu::new();
    cpu.set_mode(CpuMode::System);
    cpu.set_pc(IWRAM_START);
    (cpu, Bus::new(Vec::new()))
}

#[test]
fn division_is_exact() {
    let values = [0i32, 1, -1, 2, -2, 7, -7, 100, -100, i32::MAX, i32::MIN + 1, i32::MIN];
    for n in values {
        for d in values {
            if d == 0 || (n == i32::MIN && d == -1) {
                continue;
            }
            let (mut cpu, _) = machine();
            cpu.set_reg(0, n as u32);
            cpu.set_reg(1, d as u32);
            div(&mut cpu);
            assert_eq!(cpu.reg(0) as i32, n / d);
            assert_eq!(cpu.reg(1) as i32, n % d);
            assert_eq!(cpu.reg(3), (n / d).unsigned_abs());
        }
    }
}

#[test]
fn roots_are_the_largest_that_fit() {
    for n in [0u32, 1, 3, 4, 99, 100, 101, 65535, 65536, 0xFFFE_0000, 0xFFFE_0001, 0xFFFF_FFFF] {
        let r = isqrt(n) as u64;
        assert!(r * r <= n as u64 && (r + 1) * (r + 1) > n as u64, "{n}");
    }
    let (mut cpu, _) = machine();
    cpu.set_reg(0, 10_000);
    sqrt(&mut cpu);
    assert_eq!(cpu.reg(0), 100);
}

#[test]
fn the_arc_tangent_is_odd() {
    for i in [1i32, 0x100, 0x1000, 0x2000, 0x4000] {
        assert!((arctan_core(i) + arctan_core(-i)).abs() <= 1);
    }
    assert_eq!(arctan2_core(0, 0), 0);
    assert_eq!(arctan2_core(5, 0), 0);
    assert_eq!(arctan2_core(-5, 0), 0x8000);
}

#[test]
fn reversing_a_vector_adds_half_a_turn() {
    let parts = [-0x7FFFi32, -300, -100, -1, 0, 1, 100, 299, 0x7FFF];
    for x in parts {
        for y in parts {
            if (x, y) != (0, 0) {
                let turned = (arctan2_core(x, y) + 0x8000) % 0x1_0000;
                assert_eq!(arctan2_core(-x, -y), turned, "({x}, {y})");
            }
        }
    }
    assert_eq!(arctan2_core(100, 100), 0x2000);
    assert_eq!(arctan2_core(-100, -100), 0xA000);
}

#[test]
fn a_fill_repeats_its_source_and_stops() {
    let (mut cpu, mut bus) = machine();
    bus.write_u32(EWRAM_START, 0xCAFE_F00D);
    cpu.set_reg(0, EWRAM_START);
    cpu.set_reg(1, IWRAM_START + 0x40);
    cpu.set_reg(2, 3 | 1 << 24 | 1 << 26);
    cpu_set(&mut cpu, &mut bus);
    for i in 0..3u32 {
        assert_eq!(bus.read_u32(IWRAM_START + 0x40 + i * 4), 0xCAFE_F00D);
    }
    assert_eq!(bus.read_u32(IWRAM_START + 0x4C), 0);
    assert_eq!(bus.read_u32(IWRAM_START + 0x3C), 0);
}

#[test]
fn a_reset_keeps_what_is_not_asked_for() {
    for flag in 0..5u32 {
        let (mut cpu, mut bus) = machine();
        let probes = [
            EWRAM_START + 0x3_FFFC,
            IWRAM_START + 0x7DFC,
            0x0500_03FC,
            VRAM_START + 0x1_7FFC,
            OAM_START + 0x3FC,
        ];
        for addr in probes {
            bus.write_u32(addr, 0x7777_7777);
        }
        bus.write_u32(IWRAM_START + 0x7E00, 0x7777_7777);
        cpu.set_reg(0, 1 << flag);
        register_ram_reset(&mut cpu, &mut bus);
        for (i, addr) in probes.into_iter().enumerate() {
            let expected = if i as u32 == flag { 0 } else { 0x7777_7777 };
            assert_eq!(bus.read_u32(addr), expected, "flag {flag}, {addr:#X}");
        }
        assert_eq!(bus.read_u32(IWRAM_START + 0x7E00), 0x7777_7777);
    }
}

#[test]
fn decompression_gives_the_declared_bytes() {
    let (mut cpu, mut bus) = machine();
    let src = EWRAM_START;
    bus.write_u32(src, 6 << 8 | 0x30);
    for (i, b) in [0x01u8, 0xAA, 0xBB, 0x82, 0xCC].into_iter().enumerate() {
        bus.write_u8(src + 4 + i as u32, b);
    }
    assert_eq!(decompressed_size(&bus, src), 6);
    cpu.set_reg(0, src);
    cpu.set_reg(1, IWRAM_START);
    rl(&mut cpu, &mut bus, false);
    let out: Vec<u8> = (0..8).map(|i| bus.read_u8(IWRAM_START + i)).collect();
    assert_eq!(out, vec![0xAA, 0xBB, 0xCC, 0xCC, 0xCC, 0xCC, 0, 0]);
}

#[test]
fn a_reference_before_the_start_gives_zeros() {
    let (mut cpu, mut bus) = machine();
    let src = EWRAM_START;
    bus.write_u32(src, 5 << 8 | 0x10);
    for (i, b) in [0x40u8, 0x99, 0x10, 0x04].into_iter().enumerate() {
        bus.write_u8(src + 4 + i as u32, b);
    }
    cpu.set_reg(0, src);
    cpu.set_reg(1, VRAM_START);
    lz77(&mut cpu, &mut bus, true);
    let out: Vec<u8> = (0..6).map(|i| bus.read_u8(VRAM_START + i)).collect();
    assert_eq!(out, vec![0x99, 0, 0, 0, 0, 0]);
}

#[test]
fn halfword_differences_add_up() {
    let (mut cpu, mut bus) = machine();
    let src = EWRAM_START;
    bus.write_u32(src, 6 << 8 | 0x82);
    bus.write_u16(src + 4, 0xFFFF);
    bus.write_u16(src + 6, 2);
    bus.write_u16(src + 8, 0x100);
    cpu.set_reg(0, src);
    cpu.set_reg(1, IWRAM_START);
    diff_unfilter(&mut cpu, &mut bus, true, true);
    assert_eq!(bus.read_u16(IWRAM_START), 0xFFFF);
    assert_eq!(bus.read_u16(IWRAM_START + 2), 1);
    assert_eq!(bus.read_u16(IWRAM_START + 4), 0x101);
}

#[test]
fn the_built_in_handler_calls_the_program_and_returns() {
    let (mut cpu, mut bus) = machine();
    let handler = EWRAM_START + 0x1000;
    bus.write_u32(0x0300_7FFC, handler);
    bus.write_u32(handler, 0xE281_1001);
    bus.write_u32(handler + 4, 0xE12F_FF1E);
    bus.write_u32(EWRAM_START, 0xE3A0_4007);
    bus.write_u32(EWRAM_START + 4, 0xEAFF_FFFE);
    cpu.skip_bios_init();
    cpu.set_pc(EWRAM_START);
    cpu.cpsr_mut().set_irq_disabled(false);
    for i in 0..13 {
        cpu.set_reg(i, 0x40 + i as u32);
    }
    bus.write_u16(IO_START + 0x200, 0x0001);
    bus.write_u16(IO_START + 0x208, 0x0001);
    bus.request_interrupt(Interrupt::VBlank);
    cpu.step(&mut bus);
    assert_eq!(cpu.mode(), CpuMode::Irq);
    bus.write_u16(IO_START + 0x202, 0x0001);
    let report = cpu.run(&mut bus, 100);
    assert_eq!(
        report.stop,
        RunStop::Halted(Halt::InfiniteLoop { pc: EWRAM_START + 4, instr: 0xEAFF_FFFE })
    );
    assert_eq!(cpu.mode(), CpuMode::System);
    assert_eq!(cpu.reg(4), 7);
    assert_eq!(cpu.reg(0), 0x40);
    assert_eq!(cpu.reg(1), 0x41, "the handler's scratch registers are restored");
    assert_eq!(cpu.sp(), 0x0300_7F00);
}

#[test]
fn unknown_calls_do_nothing() {
    let (mut cpu, mut bus) = machine();
    for i in 0..13 {
        cpu.set_reg(i, 0x40 + i as u32);
    }
    assert_eq!(dispatch(&mut cpu, &mut bus, 0xFE), Executed::Continue { extra_cycles: 0 });
    for i in 0..13 {
        assert_eq!(cpu.reg(i), 0x40 + i as u32);
    }
}

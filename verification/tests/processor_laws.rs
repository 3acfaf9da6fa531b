use gba_core::alu::{alu_add, alu_sub};
use gba_core::bus::{EWRAM_START, IO_START, IWRAM_START, ROM_START};
use gba_core::cpu::Executed;
use gba_core::psr::PSR_VALID;
use gba_core::{Bus, Condition, Cpsr, Cpu, CpuMode, Halt, Interrupt, RunStop, StepResult};

const MODES: [CpuMode; 7] = [
    CpuMode::User,
    CpuMode::Fiq,
    CpuMode::Irq,
    CpuMode::Supervisor,
    CpuMode::Abort,
    CpuMode::Undefined,
    CpuMode::System,
];

fn numbered(mode: CpuMode) -> Cpu {
    let mut cpu = Cpu::new();
    cpu.set_mode(mode);
    for i in 0..15 {
        cpu.set_reg(i, 0x100 + i as u32);
    }
    cpu.set_pc(IWRAM_START);
    cpu
}

#[test]
fn every_mode_switch_is_undone() {
    for from in MODES {
        for to in MODES {
            let mut cpu = numbered(from);
            let psr = cpu.cpsr().bits();
            cpu.set_mode(to);
            assert_eq!(cpu.mode(), to);
            for i in 0..8 {
                assert_eq!(cpu.reg(i), 0x100 + i as u32);
            }
            cpu.set_mode(from);
            for i in 0..15 {
                assert_eq!(cpu.reg(i), 0x100 + i as u32, "{from:?} {to:?} r{i}");
            }
            assert_eq!(cpu.cpsr().bits(), psr);
        }
    }
}

#[test]
fn user_and_system_share_their_registers() {
    let mut cpu = numbered(CpuMode::User);
    cpu.set_mode(CpuMode::System);
    assert_eq!(cpu.sp(), 0x10D);
    assert_eq!(cpu.lr(), 0x10E);
    cpu.set_mode(CpuMode::Fiq);
    assert_eq!(cpu.reg(8), 0);
    assert_eq!(cpu.reg(12), 0);
}

#[test]
fn an_interrupt_is_undone_by_its_return() {
    for thumb in [false, true] {
        let mut bus = Bus::new(Vec::new());
        let mut cpu = numbered(CpuMode::System);
        cpu.cpsr_mut().set_irq_disabled(false);
        cpu.cpsr_mut().set_thumb(thumb);
        cpu.cpsr_mut().set_c(true);
        let psr = cpu.cpsr().bits();
        bus.write_u16(IO_START + 0x200, 0x0001);
        bus.write_u16(IO_START + 0x208, 0x0001);
        bus.request_interrupt(Interrupt::VBlank);
        assert_eq!(cpu.step(&mut bus), StepResult::Stepped);
        assert_eq!(cpu.mode(), CpuMode::Irq);
        assert_eq!(cpu.pc(), 0x18);
        assert_eq!(cpu.lr(), IWRAM_START + 4);
        assert_eq!(cpu.spsr(), Some(psr));
        cpu.execute_data_processing(0xE25E_F004);
        assert_eq!(cpu.cpsr().bits(), psr);
        assert_eq!(cpu.pc(), IWRAM_START);
        for i in 0..15 {
            assert_eq!(cpu.reg(i), 0x100 + i as u32);
        }
    }
}

#[test]
fn user_mode_writes_flags_only() {
    let mut cpu = numbered(CpuMode::User);
    let before = cpu.cpsr().bits();
    cpu.set_reg(0, 0xF000_00D3);
    cpu.execute_psr_transfer(0xE129_F000);
    assert_eq!(cpu.mode(), CpuMode::User);
    assert_eq!(cpu.cpsr().bits(), 0xF000_0000 | (before & 0x0FFF_FFFF));
}

#[test]
fn reserved_status_bits_are_never_written() {
    let mut cpu = numbered(CpuMode::System);
    let before = cpu.cpsr().bits();
    cpu.set_reg(0, 0xFFFF_FF1F);
    cpu.execute_psr_transfer(0xE129_F000);
    assert_eq!(cpu.cpsr().bits() & !PSR_VALID, before & !PSR_VALID);
    assert_eq!(cpu.cpsr().bits() & 0xF000_0000, 0xF000_0000);
}

#[test]
fn a_call_leaves_its_return_address() {
    let mut rom = vec![0u8; 0x100];
    rom[..4].copy_from_slice(&0xEB00_0002u32.to_le_bytes());
    rom[0x10..0x14].copy_from_slice(&0xE12F_FF1Eu32.to_le_bytes());
    let mut bus = Bus::new(rom);
    let mut cpu = Cpu::new();
    cpu.set_pc(ROM_START);
    cpu.step(&mut bus);
    assert_eq!(cpu.pc(), ROM_START + 0x10);
    assert_eq!(cpu.lr(), ROM_START + 4);
    cpu.step(&mut bus);
    assert_eq!(cpu.pc(), ROM_START + 4);
    assert!(!cpu.cpsr().thumb());
}

#[test]
fn a_long_thumb_call_reaches_and_returns() {
    let mut bus = Bus::new(Vec::new());
    bus.write_u16(EWRAM_START, 0xF000);
    bus.write_u16(EWRAM_START + 2, 0xF87E);
    bus.write_u16(EWRAM_START + 0x100, 0x4770);
    let mut cpu = Cpu::new();
    cpu.set_pc(EWRAM_START);
    cpu.cpsr_mut().set_thumb(true);
    cpu.step(&mut bus);
    cpu.step(&mut bus);
    assert_eq!(cpu.pc(), EWRAM_START + 0x100);
    assert_eq!(cpu.lr(), EWRAM_START + 5);
    cpu.step(&mut bus);
    assert_eq!(cpu.pc(), EWRAM_START + 4);
    assert!(cpu.cpsr().thumb());
}

#[test]
fn jumps_are_aligned() {
    let mut cpu = numbered(CpuMode::System);
    cpu.set_reg(0, 0x0800_0007);
    assert_eq!(cpu.execute_data_processing(0xE1A0_F000), Executed::Branched { extra_cycles: 0 });
    assert_eq!(cpu.pc(), 0x0800_0004);
}

#[test]
fn long_products_fill_two_registers() {
    let mut cpu = numbered(CpuMode::System);
    cpu.set_reg(2, 0xFFFF_FFFF);
    cpu.set_reg(3, 0xFFFF_FFFF);
    cpu.execute_multiply_long(0xE081_0392);
    assert_eq!((cpu.reg(1), cpu.reg(0)), (0xFFFF_FFFE, 0x0000_0001));
    cpu.execute_multiply_long(0xE0C1_0392);
    assert_eq!((cpu.reg(1), cpu.reg(0)), (0, 1));
}

#[test]
fn the_processor_sleeps_until_an_interrupt_is_raised() {
    let mut bus = Bus::new(Vec::new());
    bus.write_u32(IWRAM_START, 0xE3A0_0005);
    let mut cpu = Cpu::new();
    cpu.set_pc(IWRAM_START);
    cpu.halt();
    let cycles = cpu.cycles();
    for _ in 0..3 {
        assert_eq!(cpu.step(&mut bus), StepResult::Halted(Halt::WaitingForInterrupt));
    }
    assert_eq!(cpu.cycles(), cycles);
    bus.write_u16(IO_START + 0x200, 0x0001);
    bus.request_interrupt(Interrupt::VBlank);
    assert_eq!(cpu.step(&mut bus), StepResult::Stepped);
    assert!(!cpu.is_halted());
    assert_eq!(cpu.reg(0), 5);
}

#[test]
fn a_sleeping_run_jumps_to_the_timer_that_wakes_it() {
    let mut bus = Bus::new(Vec::new());
    bus.write_u32(IWRAM_START, 0xE3A0_0005);
    bus.write_u32(IWRAM_START + 4, 0xEAFF_FFFE);
    bus.write_u16(IO_START + 0x200, 0x0008);
    bus.write_u16(IO_START + 0x100, 0xF000);
    bus.write_u16(IO_START + 0x102, 0x00C0);
    let mut cpu = Cpu::new();
    cpu.set_pc(IWRAM_START);
    cpu.halt();
    let report = cpu.run(&mut bus, 100);
    assert_eq!(report.steps, 1);
    assert!(report.cycles >= 0x1000);
    assert_eq!(cpu.reg(0), 5);
}

#[test]
fn runs_repeat_and_keep_their_limit() {
    let program = |limit: u64| {
        let mut bus = Bus::new(Vec::new());
        bus.write_u32(IWRAM_START, 0xE280_0001);
        bus.write_u32(IWRAM_START + 4, 0xEAFF_FFFD);
        let mut cpu = Cpu::new();
        cpu.set_pc(IWRAM_START);
        let report = cpu.run(&mut bus, limit);
        (report, cpu.reg(0), cpu.pc())
    };
    assert_eq!(program(101), program(101));
    let (report, r0, _) = program(101);
    assert_eq!(report.steps, 101);
    assert_eq!(report.stop, RunStop::StepLimit);
    assert_eq!(r0, 51);
    assert_eq!(program(0).0.steps, 0);
}

#[test]
fn a_stored_block_comes_back() {
    let mut bus = Bus::new(Vec::new());
    let mut cpu = numbered(CpuMode::System);
    cpu.set_reg(13, IWRAM_START + 0x100);
    cpu.execute_block_data_transfer(0xE92D_50F0, &mut bus);
    assert_eq!(cpu.sp(), IWRAM_START + 0x100 - 24);
    for i in [4usize, 5, 6, 7, 12, 14] {
        cpu.set_reg(i, 0);
    }
    cpu.execute_block_data_transfer(0xE8BD_50F0, &mut bus);
    for i in [4usize, 5, 6, 7, 12, 14] {
        assert_eq!(cpu.reg(i), 0x100 + i as u32);
    }
    assert_eq!(cpu.sp(), IWRAM_START + 0x100);
}

#[test]
fn thumb_pops_what_it_pushed() {
    let mut bus = Bus::new(Vec::new());
    bus.write_u16(EWRAM_START, 0xB4A5);
    bus.write_u16(EWRAM_START + 2, 0xBCA5);
    let mut cpu = numbered(CpuMode::System);
    cpu.set_reg(13, IWRAM_START + 0x200);
    cpu.set_pc(EWRAM_START);
    cpu.cpsr_mut().set_thumb(true);
    cpu.step(&mut bus);
    assert_eq!(cpu.sp(), IWRAM_START + 0x1F0);
    for i in 0..8 {
        cpu.set_reg(i, 7);
    }
    cpu.step(&mut bus);
    assert_eq!(cpu.sp(), IWRAM_START + 0x200);
    for i in 0..8 {
        let kept = 0xA5u32 >> i & 1 == 1;
        assert_eq!(cpu.reg(i), if kept { 0x100 + i as u32 } else { 7 });
    }
}

#[test]
fn thumb_returns_by_popping_what_it_pushed() {
    let mut bus = Bus::new(Vec::new());
    bus.write_u16(EWRAM_START, 0xB5F0);
    bus.write_u16(EWRAM_START + 2, 0xBDF0);
    let mut cpu = numbered(CpuMode::System);
    cpu.set_reg(13, IWRAM_START + 0x200);
    cpu.set_reg(14, EWRAM_START + 0x41);
    cpu.set_pc(EWRAM_START);
    cpu.cpsr_mut().set_thumb(true);
    cpu.step(&mut bus);
    assert_eq!(cpu.sp(), IWRAM_START + 0x1EC);
    for i in 0..8 {
        cpu.set_reg(i, 7);
    }
    cpu.set_reg(14, 9);
    cpu.step(&mut bus);
    assert_eq!(cpu.sp(), IWRAM_START + 0x200);
    assert_eq!(cpu.pc(), EWRAM_START + 0x40);
    assert_eq!(cpu.lr(), 9);
    assert!(cpu.cpsr().thumb());
    for i in 0..8 {
        assert_eq!(cpu.reg(i), if i >= 4 { 0x100 + i as u32 } else { 7 });
    }
}

#[test]
fn a_run_that_stops_early_is_below_its_limit() {
    let mut bus = Bus::new(Vec::new());
    bus.write_u32(IWRAM_START, 0xE280_0001);
    bus.write_u32(IWRAM_START + 4, 0xEAFF_FFFE);
    let run = |limit: u64, bus: &mut Bus| {
        let mut cpu = Cpu::new();
        cpu.set_pc(IWRAM_START);
        cpu.run(bus, limit)
    };
    let at_limit = run(1, &mut bus);
    assert_eq!((at_limit.steps, at_limit.stop), (1, RunStop::StepLimit));
    let early = run(2, &mut bus);
    assert_eq!(early.steps, 1);
    assert!(matches!(early.stop, RunStop::Halted(Halt::InfiniteLoop { .. })));
}

#[test]
fn a_swap_exchanges() {
    let mut bus = Bus::new(Vec::new());
    bus.write_u32(IWRAM_START, 0x1111_1111);
    let mut cpu = numbered(CpuMode::System);
    cpu.set_reg(1, IWRAM_START);
    cpu.set_reg(2, 0x2222_2222);
    cpu.execute_single_data_swap(0xE101_0092, &mut bus);
    assert_eq!(cpu.reg(0), 0x1111_1111);
    assert_eq!(bus.read_u32(IWRAM_START), 0x2222_2222);
}

#[test]
fn conditions_order_the_operands_of_a_comparison() {
    let values = [0u32, 1, 2, 0x7FFF_FFFF, 0x8000_0000, 0x8000_0001, 0xFFFF_FFFF];
    for a in values {
        for b in values {
            let mut cpu = numbered(CpuMode::System);
            cpu.set_reg(0, a);
            cpu.set_reg(1, b);
            cpu.execute_data_processing(0xE150_0001);
            let psr = cpu.cpsr();
            assert_eq!(Condition::Eq.passes(psr), a == b);
            assert_eq!(Condition::Cs.passes(psr), a >= b);
            assert_eq!(Condition::Hi.passes(psr), a > b);
            assert_eq!(Condition::Ls.passes(psr), a <= b);
            assert_eq!(Condition::Ge.passes(psr), a as i32 >= b as i32);
            assert_eq!(Condition::Lt.passes(psr), (a as i32) < b as i32);
            assert_eq!(Condition::Gt.passes(psr), a as i32 > b as i32);
            assert_eq!(Condition::Le.passes(psr), a as i32 <= b as i32);
            assert_eq!(alu_add(alu_sub(a, b, true).0, b, false).0, a);
        }
    }
}

#[test]
fn opposite_conditions_exclude_each_other() {
    let pairs = [
        (Condition::Eq, Condition::Ne),
        (Condition::Cs, Condition::Cc),
        (Condition::Mi, Condition::Pl),
        (Condition::Vs, Condition::Vc),
        (Condition::Hi, Condition::Ls),
        (Condition::Ge, Condition::Lt),
        (Condition::Gt, Condition::Le),
        (Condition::Al, Condition::Nv),
    ];
    for flags in 0..16u32 {
        let psr = Cpsr::from_bits(flags << 28 | 0x1F);
        for (yes, no) in pairs {
            assert_ne!(yes.passes(psr), no.passes(psr));
        }
    }
}

#[test]
fn flags_read_back_and_leave_the_control_bits() {
    let mut cpu = Cpu::new();
    cpu.cpsr_mut().set_v(true);
    cpu.set_reg(1, 0xC000_0000);
    cpu.execute_data_processing(0xE1B0_0081);
    assert_eq!(cpu.cpsr().bits(), 0xB000_00D3);
    cpu.execute_data_processing(0xE092_0002);
    assert_eq!(cpu.cpsr().bits(), 0x4000_00D3);
    for mode in MODES {
        assert_eq!(CpuMode::from_bits(mode.bits()), Some(mode));
    }
    assert_eq!(CpuMode::from_bits(0x00), None);
    assert_eq!(CpuMode::from_bits(0xF3), Some(CpuMode::Supervisor));
}

#[test]
fn a_store_of_the_program_counter_is_twelve_ahead() {
    let mut bus = Bus::new(Vec::new());
    let mut cpu = numbered(CpuMode::System);
    cpu.set_reg(0, EWRAM_START);
    cpu.execute_single_data_transfer(0xE580_F000, &mut bus);
    assert_eq!(bus.read_u32(EWRAM_START), IWRAM_START + 12);
}

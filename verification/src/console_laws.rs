//! How the console starts, and what a DMA transfer leaves behind.

use vstd::prelude::*;

use crate::bus::BusState;
use crate::dma::DmaState;
use crate::gba::GbaState;
use crate::psr::CpuMode;

verus! {

/// Whether all registers but the program counter and the stack pointer are zero.
pub open spec fn registers_are_clear(r: Seq<u32>) -> bool {
    r.len() == 16 && forall|i: int| 0 <= i < 15 && i != 13 ==> #[trigger] r[i] == 0
}

/// Without a BIOS the console starts at the first byte of the ROM, in System mode
/// and ARM state with the fast interrupts and the interrupts masked. The stack of
/// the program ends at 0x03007F00, that of Supervisor mode at 0x03007FE0 and that
/// of the interrupts at 0x03007FA0.
pub proof fn law_start_without_bios(rom: Seq<u8>, offset: int)
    requires
        0 <= offset < rom.len(),
        rom.len() <= 0x200_0000,
    ensures
        ({
            let m = GbaState::without_bios(rom).machine;
            let c = m.cpu;
            let supervisor = c.with_mode(CpuMode::Supervisor);
            let interrupt = c.with_mode(CpuMode::Irq);
            &&& c.r[15] == 0x0800_0000
            &&& c.r[13] == 0x0300_7F00
            &&& registers_are_clear(c.r)
            &&& c.psr == 0xDF
            &&& supervisor.r[13] == 0x0300_7FE0
            &&& interrupt.r[13] == 0x0300_7FA0
            &&& !c.halted && c.cycles == 0
            &&& m.bus.read8((c.r[15] + offset) as u32) == rom[offset]
            &&& !m.bus.bios_loaded
        }),
{
    let c = crate::cpu::CpuState::reset();
    lemma_reset_status();
    let first = c.with_pc(crate::bus::ROM_START).with_reg(13, 0x0300_7FE0);
    lemma_mode_of(first.psr, CpuMode::Supervisor);
    crate::encoding::lemma_status_writes(0xD3, 0, 0x1F);
    let sys = first.with_mode(CpuMode::System);
    assert(sys.psr == 0xDF);
    lemma_mode_of(sys.psr, CpuMode::System);
    let m = GbaState::without_bios(rom).machine;
    reveal(BusState::read8);
    let addr = (0x0800_0000 + offset) as u32;
    assert(addr / 0x100_0000 == 8 || addr / 0x100_0000 == 9);
    assert(addr % 0x200_0000 == offset);
}

/// With a BIOS the console starts at its first byte, in Supervisor mode and ARM
/// state with both kinds of interrupts masked, and every byte of the image stands
/// where it belongs.
pub proof fn law_start_with_bios(rom: Seq<u8>, image: Seq<u8>, offset: int)
    requires
        0 <= offset < image.len(),
        image.len() <= 0x4000,
    ensures
        ({
            let m = GbaState::with_bios(rom, image).machine;
            &&& m.cpu.r[15] == 0
            &&& m.cpu.r[13] == 0
            &&& registers_are_clear(m.cpu.r)
            &&& m.cpu.psr == 0xD3
            &&& !m.cpu.halted && m.cpu.cycles == 0
            &&& m.bus.read8(offset as u32) == image[offset]
            &&& m.bus.bios_loaded
        }),
{
    lemma_reset_status();
    reveal(BusState::read8);
    assert(offset as u32 / 0x100_0000 == 0);
}

proof fn lemma_no_requests()
    by (bit_vector)
    ensures
        (0u16 & 0u16) & 0x3FFFu16 == 0u16,
{
}

proof fn lemma_reset_status()
    ensures
        crate::cpu::CpuState::reset().psr == 0xD3,
{
    crate::encoding::lemma_block_control(0);
}

proof fn lemma_mode_of(psr: u32, mode: CpuMode)
    requires
        psr % 0x20 == mode.bits(),
    ensures
        crate::psr::mode_of(psr) == mode,
{
    crate::encoding::lemma_status_digits(psr);
    crate::psr::law_mode_bits_round_trip(mode, 0);
}

/// Nothing is enabled at the start: no interrupt is pending, no DMA channel and no
/// timer runs, and all RAM is zero.
pub proof fn law_start_is_idle(rom: Seq<u8>, ch: int, addr: u32)
    requires
        0 <= ch < 4,
        2 <= addr / 0x100_0000 <= 7,
        addr / 0x100_0000 != 4,
    ensures
        ({
            let bus = BusState::power_on(rom);
            &&& !bus.irq.raised() && !bus.irq.pending()
            &&& crate::dma_laws::half_in(bus.dma, ch * 12 + 10) == 0
            &&& !bus.dma.triggers(ch)
            &&& !bus.timers[ch].running
            &&& bus.sched.queue.len() == 0
            &&& bus.read8(addr) == 0
        }),
{
    let bus = BusState::power_on(rom);
    reveal(BusState::read8);
    assert(bus.irq.ie == 0 && bus.irq.requested == 0);
    crate::device_laws::law_interrupt_registers(bus.irq, 0, 0);
    lemma_no_requests();
    assert(bus.dma.wf());
    crate::dma_laws::law_immediate_start(bus.dma, ch);
}

/// Without a BIOS the interrupt vector holds a handler: it pushes `r0` to `r3`,
/// `r12` and the link register, points `r0` at the I/O registers, keeps the address
/// of the fifth instruction as the return address, jumps to where the word below
/// the I/O registers says, pops what it pushed and returns from the interrupt. The
/// list of registers has bit `i` for register `i`.
pub proof fn law_handler_at_the_vector(rom: Seq<u8>)
    ensures
        ({
            let bus = BusState::power_on(rom);
            let list = 0xF + 0x1000 + 0x4000;
            &&& bus.read32(0x18) == 0xE92D_0000 + list
            &&& bus.read32(0x1C) == 0xE3A0_0301
            &&& bus.read32(0x20) == 0xE28F_E000
            &&& bus.read32(0x24) == 0xE510_F004
            &&& bus.read32(0x28) == 0xE8BD_0000 + list
            &&& bus.read32(0x2C) == crate::cpu_laws::RETURN_FROM_INTERRUPT
        }),
{
    lemma_handler_word(rom, 0);
    lemma_handler_word(rom, 1);
    lemma_handler_word(rom, 2);
    lemma_handler_word(rom, 3);
    lemma_handler_word(rom, 4);
    lemma_handler_word(rom, 5);
}

proof fn lemma_handler_word(rom: Seq<u8>, i: int)
    requires
        0 <= i < 6,
    ensures
        BusState::power_on(rom).read32((0x18 + 4 * i) as u32) == crate::irq_stub::stub_word(
            i as usize,
        ),
{
    let bus = BusState::power_on(rom);
    let addr = (0x18 + 4 * i) as u32;
    let word = crate::irq_stub::stub_word(i as usize);
    assert forall|k: int| 0 <= k < 4 implies crate::machine_laws::word_byte(
        #[trigger] bus.read32(addr),
        k,
    ) == #[trigger] crate::machine_laws::word_byte(word, k) by {
        crate::machine_laws::law_reads_are_little_endian(bus, addr, k);
        assert((addr + k) % 4 == k && addr % 4 == 0);
        let at = addr + k;
        assert(bus.read8(at as u32) == crate::irq_stub::stub_byte(at)) by {
            reveal(BusState::read8);
        }
        assert((at - 0x18) / 4 == i && (at - 0x18) % 4 == k);
    }
    lemma_same_bytes(bus.read32(addr), word);
}

proof fn lemma_same_bytes(x: u32, y: u32)
    requires
        crate::machine_laws::word_byte(x, 0) == crate::machine_laws::word_byte(y, 0),
        crate::machine_laws::word_byte(x, 1) == crate::machine_laws::word_byte(y, 1),
        crate::machine_laws::word_byte(x, 2) == crate::machine_laws::word_byte(y, 2),
        crate::machine_laws::word_byte(x, 3) == crate::machine_laws::word_byte(y, 3),
    ensures
        x == y,
{
    assert(x / 0x1_0000 == 0x100 * (x / 0x100_0000) + x / 0x1_0000 % 0x100);
    assert(y / 0x1_0000 == 0x100 * (y / 0x100_0000) + y / 0x1_0000 % 0x100);
    assert(x / 0x100 == 0x100 * (x / 0x1_0000) + x / 0x100 % 0x100);
    assert(y / 0x100 == 0x100 * (y / 0x1_0000) + y / 0x100 % 0x100);
}

/// After a transfer the channel is off and its other settings stand, and exactly
/// when bit 14 of its control asks for it the interrupt of that channel is
/// requested: bit 8 for channel 0 up to bit 11 for channel 3.
pub proof fn law_transfer_ends(bus: BusState, ch: int)
    requires
        0 <= ch < 4,
        bus.dma.wf(),
        ({
            let t = bus.dma.plan(ch);
            let started = BusState { dma: DmaState { running: true, ..bus.dma }, ..bus };
            started.dma_copy(t, t.count as nat).dma.wf()
        }),
    ensures
        ({
            let t = bus.dma.plan(ch);
            let started = BusState { dma: DmaState { running: true, ..bus.dma }, ..bus };
            let copied = started.dma_copy(t, t.count as nat);
            let after = bus.run_dma(ch);
            let control = crate::dma_laws::half_in(copied.dma, ch * 12 + 10);
            let request = if ch == 0 {
                0x100u16
            } else if ch == 1 {
                0x200u16
            } else if ch == 2 {
                0x400u16
            } else {
                0x800u16
            };
            &&& crate::dma_laws::half_in(after.dma, ch * 12 + 10) == control % 0x8000
            &&& !after.dma.latch[ch]
            &&& !after.dma.running
            &&& forall|k: int|
                0 <= k < 48 && k != ch * 12 + 11 ==> #[trigger] after.dma.regs[k]
                    == copied.dma.regs[k]
            &&& after.irq.requested == if control / 0x4000 % 2 == 1 {
                copied.irq.requested | request
            } else {
                copied.irq.requested
            }
            &&& after == (BusState { dma: after.dma, irq: after.irq, ..copied })
        }),
{
    let t = bus.dma.plan(ch);
    let started = BusState { dma: DmaState { running: true, ..bus.dma }, ..bus };
    let copied = started.dma_copy(t, t.count as nat);
    crate::dma_laws::law_immediate_start(copied.dma, ch);
    crate::device_laws::law_request_bits(copied.irq, ch as usize);
    let low = copied.dma.regs[ch * 12 + 10] as int;
    let high = copied.dma.regs[ch * 12 + 11] as int;
    lemma_enable_bit(low, high);
}

proof fn lemma_enable_bit(low: int, high: int)
    requires
        0 <= low < 0x100,
        0 <= high < 0x100,
    ensures
        (low + 0x100 * high) % 0x8000 == low + 0x100 * (high % 0x80),
{
}

/// Only the control halfword of a channel can be read; its addresses and its
/// count read as zero. All of it can be written, a byte at a time.
pub proof fn law_channel_registers(dma: DmaState, ch: int, k: int, value: u8)
    requires
        dma.wf(),
        0 <= ch < 4,
        0 <= k < 12,
    ensures
        ({
            let off = (0xB0 + 12 * ch + k) as u32;
            let after = dma.write8(off, value);
            &&& k < 10 ==> dma.read8(off) == 0
            &&& k >= 10 ==> dma.read8(off) == dma.regs[12 * ch + k]
            &&& after.regs[12 * ch + k] == value
            &&& forall|j: int|
                0 <= j < 48 && j != 12 * ch + k ==> #[trigger] after.regs[j] == dma.regs[j]
            &&& after.latch == dma.latch && after.running == dma.running
        }),
{
    assert((12 * ch + k) % 12 == k);
}

} // verus!

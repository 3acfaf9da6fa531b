//! What holds of the machine as a whole: the order of bytes in memory, the banks
//! of registers, the cycles that instructions take and the turns of a run.

use vstd::prelude::*;

use crate::arm::ArmInstruction;
use crate::bits::bit;
use crate::bus::{AccessWidth, BusState};
use crate::cpu::{CpuState, Executed, Machine, RunStop, StepResult};
use crate::cpu_run::RunState;
use crate::interrupt::IrqState;
use crate::psr::CpuMode;

verus! {

/// Byte `k` of a word, the lowest first.
pub open spec fn word_byte(word: u32, k: int) -> int {
    if k == 0 {
        (word % 0x100) as int
    } else if k == 1 {
        (word / 0x100 % 0x100) as int
    } else if k == 2 {
        (word / 0x1_0000 % 0x100) as int
    } else {
        (word / 0x100_0000) as int
    }
}

/// Memory holds the lowest byte first. A word read from an unaligned address is
/// that of the aligned word, turned so that the addressed byte comes lowest; a
/// halfword from an odd address has its bytes exchanged.
pub proof fn law_reads_are_little_endian(b: BusState, addr: u32, k: int)
    requires
        0 <= k < 4,
    ensures
        ({
            let base = addr - addr % 4;
            let pair = addr - addr % 2;
            let low = b.read8(pair as u32);
            let high = b.read8((pair + 1) as u32);
            &&& word_byte(b.read32(addr), k) == b.read8((base + (addr + k) % 4) as u32)
            &&& b.read16(addr) == if addr % 2 == 0 {
                low + 0x100 * high
            } else {
                high + 0x100 * low
            }
        }),
{
    let base = (addr - addr % 4) as u32;
    let b0 = b.read8(base);
    let b1 = b.read8((base + 1) as u32);
    let b2 = b.read8((base + 2) as u32);
    let b3 = b.read8((base + 3) as u32);
    let word = crate::bits::word_from_bytes(b0, b1, b2, b3);
    lemma_word_bytes(b0, b1, b2, b3);
    crate::encoding::lemma_turned_bytes(word);
    let n = addr % 4;
    assert((addr + k) % 4 == if n + k < 4 {
        n + k
    } else {
        n + k - 4
    });
    assert((8 * n) as u32 % 32 == 8 * n);
}

proof fn lemma_word_bytes(b0: u8, b1: u8, b2: u8, b3: u8)
    ensures
        ({
            let word = crate::bits::word_from_bytes(b0, b1, b2, b3);
            &&& word_byte(word, 0) == b0
            &&& word_byte(word, 1) == b1
            &&& word_byte(word, 2) == b2
            &&& word_byte(word, 3) == b3
        }),
{
    let word = b0 + 0x100 * b1 + 0x1_0000 * b2 + 0x100_0000 * b3;
    let upper = b1 + 0x100 * b2 + 0x1_0000 * b3;
    assert(word == 0x100 * upper + b0);
    assert(word / 0x100 == upper && word % 0x100 == b0);
    let third = b2 + 0x100 * b3;
    assert(upper == 0x100 * third + b1);
    assert(upper % 0x100 == b1);
    assert(word / 0x1_0000 == third);
    assert(third % 0x100 == b2);
    assert(word / 0x100_0000 == b3);
}

/// Words and halfwords are written to RAM the lowest byte first, at the address
/// rounded down.
pub proof fn law_writes_are_little_endian(b: BusState, addr: u32, word: u32, half: u16, k: int)
    requires
        b.wf(),
        crate::memory_laws::is_ram(addr),
        0 <= k < 4,
    ensures
        b.write32(addr, word).read8((addr - addr % 4 + k) as u32) == word_byte(word, k),
        b.write16(addr, half).read8((addr - addr % 2) as u32) == half % 0x100,
        b.write16(addr, half).read8((addr - addr % 2 + 1) as u32) == half / 0x100,
{
    crate::memory_laws::law_ram_keeps_words(b, addr, word, addr);
    crate::memory_laws::law_ram_keeps_halfwords(b, addr, half, addr);
    let base = (addr - addr % 4) as u32;
    assert(b.write32(addr, word).read8((base + k) as u32) == crate::bits::byte_of(word, k));
}

/// The bank of `r13` and `r14` of a mode: User and System share the first; FIQ,
/// IRQ, Supervisor, Abort and Undefined follow.
pub open spec fn stack_bank(m: int) -> int {
    match crate::arm_control_laws::bank_of_mode(m) {
        Some(bank) => bank,
        None => 0,
    }
}

/// A change of mode keeps the stack pointer and link register of the old mode in
/// its bank and brings those of the new one; between modes with one bank they
/// stay. FIQ has registers 8 to 12 of its own. All else stays.
pub proof fn law_mode_change(c: CpuState, mode: CpuMode)
    requires
        c.wf(),
        crate::arm_control_laws::is_mode((c.psr % 0x20) as int),
        mode.bits() != c.psr % 0x20,
    ensures
        ({
            let from = stack_bank((c.psr % 0x20) as int);
            let to = stack_bank(mode.bits() as int);
            let after = c.with_mode(mode);
            &&& after.psr == c.psr - c.psr % 0x20 + mode.bits()
            &&& from != to ==> {
                &&& after.r[13] == c.bank_sp[to]
                &&& after.r[14] == c.bank_lr[to]
                &&& after.bank_sp[from] == c.r[13]
                &&& after.bank_lr[from] == c.r[14]
            }
            &&& from == to ==> after.r[13] == c.r[13] && after.r[14] == c.r[14]
            &&& forall|j: int| 0 <= j < 8 || j == 15 ==> #[trigger] after.r[j] == c.r[j]
            &&& forall|j: int|
                8 <= j < 13 ==> #[trigger] after.r[j] == if mode.bits() == 0x11 {
                    c.fiq_high[j - 8]
                } else if c.psr % 0x20 == 0x11 {
                    c.usr_high[j - 8]
                } else {
                    c.r[j]
                }
            &&& forall|j: int|
                0 <= j < 5 ==> (mode.bits() == 0x11 ==> #[trigger] after.usr_high[j] == c.r[8 + j])
            &&& forall|j: int|
                0 <= j < 5 ==> (c.psr % 0x20 == 0x11 ==> #[trigger] after.fiq_high[j] == c.r[8 + j])
            &&& after.spsr == c.spsr
        }),
{
    crate::arm_control_laws::lemma_modes(c.psr);
    crate::encoding::lemma_status_writes(c.psr, 0, mode.bits() as u32);
    crate::arm_control_laws::lemma_modes(mode.bits() as u32);
    crate::psr::law_mode_bits_round_trip(mode, mode.bits());
}

/// A data-processing instruction that writes the program counter and no flags
/// jumps to its result, rounded down to a multiple of four: the second operand
/// for `MOV`, the sum for `ADD`, the difference for `SUB`.
pub proof fn law_computed_jump(m: Machine, instr: u32)
    requires
        crate::arm_laws::runs_arm(m, instr),
        crate::arm_laws::is_data_processing(instr),
        instr / 0x1000 % 16 == 15,
        instr / 0x10_0000 % 2 == 0,
        instr / 0x20_0000 % 16 == 2 || instr / 0x20_0000 % 16 == 4 || instr / 0x20_0000 % 16 == 13,
    ensures
        ({
            let op = instr / 0x20_0000 % 16;
            let a = crate::arm_laws::first_operand(m.cpu, instr);
            let b = m.cpu.shifter_operand(instr).0;
            let target = (if op == 2 {
                a - b
            } else if op == 4 {
                a + b
            } else {
                b as int
            }) % 0x1_0000_0000;
            let after = m.stepped().0;
            &&& after.cpu.r[15] == target - target % 4
            &&& after.cpu.psr == m.cpu.psr
            &&& after.bus == m.bus
            &&& forall|j: int| 0 <= j < 15 ==> #[trigger] after.cpu.r[j] == m.cpu.r[j]
        }),
{
    crate::arm_laws::lemma_data_processing(instr);
    crate::encoding::lemma_status_digits(m.cpu.psr);
    assert(m.arm_executed(ArmInstruction::category(instr), instr) == m.on_cpu(
        m.cpu.data_processing(instr),
    )) by {
        reveal(Machine::arm_executed);
    }
    assert(crate::bits::nibble_of(instr, 16) == instr / 0x1_0000 % 16 && crate::bits::nibble_of(
        instr,
        12,
    ) == 15 && crate::bits::nibble_of(instr, 21) == instr / 0x20_0000 % 16 && !bit(instr, 20) && (
    !bit(instr, 25) && bit(instr, 4)) == (instr / 0x200_0000 % 2 == 0 && instr / 0x10 % 2 == 1))
        by {
        crate::encoding::lemma_word_digits(instr);
    }
    crate::arm_laws::lemma_first_operand(m.cpu, instr);
    crate::arm_memory_laws::lemma_arm_jumps(m, instr);
}

/// The cycles of a step besides those of the fetch: one more for a shift by
/// register, one per significant byte of the multiplier for `MUL` and one more
/// for `MLA`.
pub proof fn law_arithmetic_cycles(c: CpuState, instr: u32)
    requires
        c.wf(),
    ensures
        ({
            let shift = c.data_processing(instr).1;
            let extra = if instr / 0x200_0000 % 2 == 0 && instr / 0x10 % 2 == 1 {
                1u64
            } else {
                0u64
            };
            let b = c.reg((instr / 0x100 % 16) as int);
            let magnitude = if b >= 0x8000_0000 {
                0xFFFF_FFFF - b
            } else {
                b as int
            };
            let bytes = if magnitude < 0x100 {
                1int
            } else if magnitude < 0x1_0000 {
                2int
            } else if magnitude < 0x100_0000 {
                3int
            } else {
                4int
            };
            let more = if instr / 0x20_0000 % 2 == 1 {
                1int
            } else {
                0int
            };
            &&& shift == Executed::Continue { extra_cycles: extra } || shift
                == Executed::Branched { extra_cycles: extra }
            &&& c.multiply(instr).1 == Executed::Continue { extra_cycles: (bytes + more) as u64 }
        }),
{
    crate::encoding::lemma_word_digits(instr);
}

/// A step that goes on costs the fetch and the extra cycles, one that jumps also
/// the fetch of the instruction behind it; the clock moves by that much.
pub proof fn law_step_cycles(
    m: Machine,
    executed: Executed,
    pc: u32,
    fetch: u32,
    size: u32,
    halt: crate::cpu::Halt,
)
    requires
        size == 2 || size == 4,
        pc < 0xFFFF_FFF0,
        m.cpu.cycles < 0x8000_0000_0000_0000,
        fetch < 0x100,
        match executed {
            Executed::Continue { extra_cycles } => extra_cycles < 0x1_0000,
            Executed::Branched { extra_cycles } => extra_cycles < 0x1_0000,
            Executed::Accessed { extra_cycles } => extra_cycles < 0x1_0000,
            Executed::Unimplemented => false,
        },
    ensures
        ({
            let after = m.step_finished(executed, pc, fetch, size, halt).0.cpu;
            let behind = crate::bus::cycles_of_access(
                (pc + size) as u32,
                if size == 2 {
                    AccessWidth::Half
                } else {
                    AccessWidth::Word
                },
                true,
            );
            let next = if m.cpu.psr / 0x20 % 2 == 1 {
                (m.cpu.r[15] + 2) % 0x1_0000_0000
            } else {
                (m.cpu.r[15] + 4) % 0x1_0000_0000
            };
            match executed {
                Executed::Continue { extra_cycles } => {
                    &&& after.cycles == m.cpu.cycles + fetch + extra_cycles
                    &&& after.next_seq == Some(next as u32)
                },
                Executed::Accessed { extra_cycles } => {
                    &&& after.cycles == m.cpu.cycles + fetch + extra_cycles
                    &&& after.next_seq is None
                },
                Executed::Branched { extra_cycles } => {
                    &&& after.cycles == m.cpu.cycles + fetch + behind + extra_cycles
                    &&& after.next_seq is None
                },
                Executed::Unimplemented => true,
            }
        }),
{
    crate::encoding::lemma_status_digits(m.cpu.psr);
    crate::encoding::lemma_wrapping(m.cpu.r[15], 2);
    crate::encoding::lemma_wrapping(m.cpu.r[15], 4);
    crate::encoding::lemma_wrapping(pc, size);
}

/// A turn of a run that has not ended, in which no event is due and the processor
/// does not sleep, does one step of the machine with the devices brought up to
/// the clock of the processor, and counts it.
pub proof fn law_turn_steps(run: RunState, max_steps: u64)
    requires
        run.stop is None,
        run.steps < max_steps,
        !run.machine.bus.advanced(run.machine.cpu.cycles).sched.due(),
        !run.machine.cpu.halted || run.machine.bus.irq.raised(),
    ensures
        ({
            let bus = run.machine.bus.advanced(run.machine.cpu.cycles);
            let (after, result) = (Machine { cpu: run.machine.cpu, bus }).stepped();
            let turned = run.turn(max_steps);
            &&& turned.machine == after
            &&& match result {
                StepResult::Stepped => turned.stop is None && turned.steps == run.steps + 1,
                StepResult::Halted(halt) => turned.stop == Some(RunStop::Halted(halt))
                    && turned.steps == run.steps,
            }
        }),
{
}

/// A run stops at its limit without another step, and stays stopped.
pub proof fn law_turn_limit(run: RunState, max_steps: u64)
    ensures
        run.stop is Some ==> run.turn(max_steps) == run,
        run.stop is None && run.steps >= max_steps ==> run.turn(max_steps) == (RunState {
            stop: Some(RunStop::StepLimit),
            ..run
        }),
{
}

/// The requests of the display: bit 0 when line 160 starts and bit 3 of its
/// status is set, bit 2 when the line to compare with starts and bit 5 is set,
/// and bit 1 when a horizontal blank starts and bit 4 is set.
pub proof fn law_display_requests(p: crate::ppu::PpuState, irq: IrqState)
    requires
        p.wf(),
    ensures
        ({
            let status = p.read8(4) as int;
            let line = (p.vcount + 1) % 228;
            let matched = if line == p.read8(5) && status / 0x20 % 2 == 1 {
                irq.requested | 4u16
            } else {
                irq.requested
            };
            &&& p.line_requests(irq).requested == if line == 160 && status / 8 % 2 == 1 {
                matched | 1u16
            } else {
                matched
            }
            &&& p.hblank_requests(irq).requested == if status / 0x10 % 2 == 1 {
                irq.requested | 2u16
            } else {
                irq.requested
            }
            &&& p.line_requests(irq).ie == irq.ie && p.line_requests(irq).ime == irq.ime
        }),
{
}

} // verus!

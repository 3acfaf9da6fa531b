//! The ARM7TDMI processor: registers, modes and register banks.
//!
//! Sixteen registers are visible at a time. `r13` and `r14` exist once per bank
//! of modes, `r8`-`r12` exist once for FIQ and once for the other modes, and
//! each exception mode has a saved status register. Changing the mode swaps the
//! banks ([`Cpu::set_mode`]).
//!
//! Because of the pipeline, an instruction that reads `r15` sees its own
//! address plus 8 (plus 4 in THUMB state).

use vstd::prelude::*;

use crate::arm::{ArmInstruction, Decoded};
use crate::bus::Bus;
use crate::bus::BusState;
use crate::thumb::ThumbInstruction;

pub use crate::psr::{Cpsr, CpuMode};

verus! {

/// Number of visible registers.
pub const NUM_REGISTERS: usize = 16;

/// Index of the stack pointer.
pub const SP: usize = 13;

/// Index of the link register.
pub const LR: usize = 14;

/// Index of the program counter.
pub const PC: usize = 15;

/// How far `r15` reads ahead in ARM state.
pub const PC_AHEAD_ARM: u32 = 8;

/// How far `r15` reads ahead in THUMB state.
pub const PC_AHEAD_THUMB: u32 = 4;

/// Where an interrupt jumps to.
pub const IRQ_VECTOR: u32 = 0x0000_0018;

/// Where `SWI` jumps to.
pub const SWI_VECTOR: u32 = 0x0000_0008;

/// Where an undefined instruction jumps to.
pub const UNDEFINED_VECTOR: u32 = 0x0000_0004;

/// Result of one step.
#[derive(Debug, Clone, Copy, PartialEq, Eq, Structural)]
pub enum StepResult {
    /// An instruction was processed.
    Stepped,
    /// The processor stopped.
    Halted(Halt),
}

/// Why the processor stops the run loop.
#[derive(Debug, Clone, Copy, PartialEq, Eq, Structural)]
pub enum Halt {
    /// An instruction that has no implementation.
    Unimplemented {
        /// Its address.
        pc: u32,
        /// Its bits.
        instr: u32,
        /// Its category.
        kind: ArmInstruction,
    },
    /// A branch to itself.
    InfiniteLoop {
        /// Its address.
        pc: u32,
        /// Its bits.
        instr: u32,
    },
    /// A THUMB instruction that has no implementation.
    ThumbNotImplemented {
        /// Its address.
        pc: u32,
    },
    /// Asleep, with no interrupt that could come.
    WaitingForInterrupt,
}

/// Report of a run.
#[derive(Debug, Clone, Copy, PartialEq, Eq, Structural)]
pub struct RunReport {
    /// Instructions executed.
    pub steps: u64,
    /// Cycles consumed.
    pub cycles: u64,
    /// Why the run ended.
    pub stop: RunStop,
}

/// How a run ended.
#[derive(Debug, Clone, Copy, PartialEq, Eq, Structural)]
pub enum RunStop {
    /// The processor stopped by itself.
    Halted(Halt),
    /// The step limit was reached.
    StepLimit,
}

/// Effect of an instruction on the program counter and on time.
#[derive(Debug, Clone, Copy, PartialEq, Eq, Structural)]
pub enum Executed {
    /// Done; the next instruction follows.
    Continue {
        /// Cycles besides those of the fetch.
        extra_cycles: u64,
    },
    /// Done, and the program counter holds the target of a jump.
    Branched {
        /// Cycles besides those of the fetch.
        extra_cycles: u64,
    },
    /// Done with an access to data, after which the next fetch is not
    /// sequential.
    Accessed {
        /// Cycles besides those of the fetch.
        extra_cycles: u64,
    },
    /// There is no implementation.
    Unimplemented,
}

/// `cycles` more, up to the end of the 64-bit clock.
pub open spec fn clock_plus(clock: u64, cycles: int) -> u64 {
    if clock + cycles > u64::MAX {
        u64::MAX
    } else {
        (clock + cycles) as u64
    }
}

/// The processor as values.
#[verifier::ext_equal]
pub struct CpuState {
    /// Visible registers; `r[15]` is the address of the current instruction.
    pub r: Seq<u32>,
    /// Current status word.
    pub psr: u32,
    /// Stack pointer of each bank that is not visible.
    pub bank_sp: Seq<u32>,
    /// Link register of each bank that is not visible.
    pub bank_lr: Seq<u32>,
    /// Saved status word of each bank.
    pub spsr: Seq<u32>,
    /// `r8`-`r12` of the modes other than FIQ, while FIQ is on.
    pub usr_high: Seq<u32>,
    /// `r8`-`r12` of FIQ, while it is off.
    pub fiq_high: Seq<u32>,
    /// Cycles since reset.
    pub cycles: u64,
    /// Address from which the next fetch would be sequential.
    pub next_seq: Option<u32>,
    /// Whether the processor sleeps until an interrupt is raised.
    pub halted: bool,
}

/// `r` with registers 8 to 12 replaced.
pub open spec fn with_high(r: Seq<u32>, high: Seq<u32>) -> Seq<u32> {
    Seq::new(
        NUM_REGISTERS as nat,
        |i: int|
            if 8 <= i < 13 {
                high[i - 8]
            } else {
                r[i]
            },
    )
}

/// `addr` rounded down to a multiple of four.
#[verifier::allow_in_spec]
pub fn word_aligned(addr: u32) -> u32
    returns
        (addr - addr % 4) as u32,
{
    addr - addr % 4
}

/// `addr` rounded down to a multiple of two.
#[verifier::allow_in_spec]
pub fn half_aligned(addr: u32) -> u32
    returns
        (addr - addr % 2) as u32,
{
    addr - addr % 2
}

impl CpuState {
    /// All registers zero, Supervisor mode, ARM state, interrupts masked.
    pub open spec fn reset() -> CpuState {
        CpuState {
            r: Seq::new(NUM_REGISTERS as nat, |i: int| 0u32),
            psr: crate::psr::with_flag(
                crate::psr::with_flag(
                    crate::psr::with_mode(0, CpuMode::Supervisor),
                    crate::psr::I,
                    true,
                ),
                crate::psr::F,
                true,
            ),
            bank_sp: Seq::new(6, |i: int| 0u32),
            bank_lr: Seq::new(6, |i: int| 0u32),
            spsr: Seq::new(6, |i: int| 0u32),
            usr_high: Seq::new(5, |i: int| 0u32),
            fiq_high: Seq::new(5, |i: int| 0u32),
            cycles: 0,
            next_seq: None,
            halted: false,
        }
    }

    /// The register files have their sizes.
    pub open spec fn wf(self) -> bool {
        &&& self.r.len() == NUM_REGISTERS
        &&& self.bank_sp.len() == 6
        &&& self.bank_lr.len() == 6
        &&& self.spsr.len() == 6
        &&& self.usr_high.len() == 5
        &&& self.fiq_high.len() == 5
    }

    /// Whether the processor is in THUMB state.
    pub open spec fn thumb(self) -> bool {
        self.psr & crate::psr::T != 0
    }

    /// The carry flag.
    pub open spec fn carry(self) -> bool {
        self.psr & crate::psr::C != 0
    }

    /// How far `r15` reads ahead.
    pub open spec fn pipeline_offset(self) -> u32 {
        if self.thumb() {
            PC_AHEAD_THUMB
        } else {
            PC_AHEAD_ARM
        }
    }

    /// Bytes of an instruction.
    pub open spec fn instruction_size(self) -> u32 {
        if self.thumb() {
            2
        } else {
            4
        }
    }

    /// Register `i` as an instruction reads it.
    pub open spec fn reg(self, i: int) -> u32 {
        if i == PC {
            self.r[15].wrapping_add(self.pipeline_offset())
        } else {
            self.r[i]
        }
    }

    /// Register `i` as an operand: next to a shift by register, `r15` reads
    /// four bytes further ahead.
    pub open spec fn operand(self, i: int, register_shift: bool) -> u32 {
        if register_shift && i == PC {
            self.reg(i).wrapping_add(4)
        } else {
            self.reg(i)
        }
    }

    /// Register `i` as it is stored to memory: `r15` counts four bytes more.
    pub open spec fn store_value(self, i: int) -> u32 {
        if i == PC {
            self.reg(i).wrapping_add(4)
        } else {
            self.reg(i)
        }
    }

    /// With register `i` set.
    pub open spec fn with_reg(self, i: int, value: u32) -> CpuState {
        CpuState { r: self.r.update(i, value), ..self }
    }

    /// With the program counter set.
    pub open spec fn with_pc(self, value: u32) -> CpuState {
        self.with_reg(15, value)
    }

    /// With the program counter set to `target`, aligned for the state.
    pub open spec fn jumped(self, target: u32) -> CpuState {
        self.with_pc(
            if self.thumb() {
                half_aligned(target)
            } else {
                word_aligned(target)
            },
        )
    }

    /// With a jump to `target`, whose bit 0 selects THUMB state.
    pub open spec fn exchanged(self, target: u32) -> CpuState {
        let to_thumb = target % 2 == 1;
        let c = CpuState {
            psr: crate::psr::with_flag(self.psr, crate::psr::T, to_thumb),
            ..self
        };
        c.with_pc(
            if to_thumb {
                half_aligned(target)
            } else {
                word_aligned(target)
            },
        )
    }

    /// The current mode.
    pub open spec fn mode(self) -> CpuMode {
        crate::psr::mode_of(self.psr)
    }

    /// The saved status word of the current mode, if it has one.
    pub open spec fn saved_psr(self) -> Option<u32> {
        if self.mode().has_spsr() {
            Some(self.spsr[self.mode().bank_of()])
        } else {
            None
        }
    }

    /// With the saved status word of the current mode set, if it has one.
    pub open spec fn with_saved_psr(self, value: u32) -> CpuState {
        if self.mode().has_spsr() {
            CpuState { spsr: self.spsr.update(self.mode().bank_of(), value), ..self }
        } else {
            self
        }
    }

    /// With the banks of `new` swapped in and its mode bits set.
    pub open spec fn with_mode(self, new: CpuMode) -> CpuState {
        let old = self.mode();
        if old == new {
            self
        } else {
            let high = self.r.subrange(8, 13);
            let entering = new == CpuMode::Fiq;
            let leaving = old == CpuMode::Fiq;
            let r1 = if entering {
                with_high(self.r, self.fiq_high)
            } else if leaving {
                with_high(self.r, self.usr_high)
            } else {
                self.r
            };
            let same = old.bank_of() == new.bank_of();
            let sp = self.bank_sp.update(old.bank_of(), self.r[13]);
            let lr = self.bank_lr.update(old.bank_of(), self.r[14]);
            CpuState {
                r: if same {
                    r1
                } else {
                    r1.update(13, sp[new.bank_of()]).update(14, lr[new.bank_of()])
                },
                bank_sp: if same {
                    self.bank_sp
                } else {
                    sp
                },
                bank_lr: if same {
                    self.bank_lr
                } else {
                    lr
                },
                usr_high: if entering {
                    high
                } else {
                    self.usr_high
                },
                fiq_high: if leaving {
                    high
                } else {
                    self.fiq_high
                },
                psr: crate::psr::with_mode(self.psr, new),
                ..self
            }
        }
    }

    /// With the flags of an ALU result.
    pub open spec fn with_flags(self, result: u32, carry: bool, overflow: Option<bool>) -> CpuState {
        CpuState {
            psr: crate::psr::with_alu_flags(self.psr, result, carry, overflow),
            ..self
        }
    }

    /// With N and Z of a result, and C and V as they are.
    pub open spec fn with_nz(self, result: u32) -> CpuState {
        self.with_flags(result, self.carry(), None)
    }

    /// With the status word restored from the saved one, and the banks of its
    /// mode. Without a saved word, or when its mode is not one, nothing
    /// changes.
    pub open spec fn with_restored_psr(self) -> CpuState {
        match self.saved_psr() {
            Some(saved) => match CpuMode::from_bits((saved & crate::psr::MODE_MASK) as u8) {
                Some(mode) => CpuState { psr: saved, ..self.with_mode(mode) },
                None => self,
            },
            None => self,
        }
    }

    /// After entering an exception: the mode changes, the status word is saved,
    /// the return address goes to `LR`, interrupts are masked and the jump to
    /// the vector is in ARM state.
    pub open spec fn exception_at(self, mode: CpuMode, vector: u32, return_addr: u32) -> CpuState {
        let banked = self.with_mode(mode).with_saved_psr(self.psr).with_reg(14, return_addr);
        CpuState {
            psr: crate::psr::with_flag(
                crate::psr::with_flag(banked.psr, crate::psr::I, true),
                crate::psr::T,
                false,
            ),
            ..banked
        }.with_pc(vector)
    }

    /// After an exception that returns to the next instruction.
    pub open spec fn exception(self, mode: CpuMode, vector: u32) -> CpuState {
        self.exception_at(mode, vector, self.r[15].wrapping_add(self.instruction_size()))
    }

    /// As a BIOS leaves the processor to a program: System mode with the three
    /// stacks in place.
    pub open spec fn without_bios(self) -> CpuState {
        let sys = self.with_reg(13, 0x0300_7FE0).with_mode(CpuMode::System).with_reg(
            13,
            0x0300_7F00,
        );
        CpuState { bank_sp: sys.bank_sp.update(2, 0x0300_7FA0), ..sys }
    }

    /// After a soft reset that goes on at `entry`. The clock keeps running.
    pub open spec fn soft_reset(self, entry: u32) -> CpuState {
        CpuState {
            cycles: self.cycles,
            ..CpuState::reset().without_bios().with_pc(entry)
        }
    }
}

/// The processor together with everything behind the bus.
#[verifier::ext_equal]
pub struct Machine {
    /// The processor.
    pub cpu: CpuState,
    /// The bus.
    pub bus: BusState,
}

/// The processor.
pub struct Cpu {
    r: [u32; 16],
    cpsr: Cpsr,
    bank_sp: [u32; 6],
    bank_lr: [u32; 6],
    spsr: [u32; 6],
    usr_r8_r12: [u32; 5],
    fiq_r8_r12: [u32; 5],
    cycles: u64,
    seq_fetch_addr: Option<u32>,
    halted: bool,
}

impl View for Cpu {
    type V = CpuState;

    closed spec fn view(&self) -> CpuState {
        CpuState {
            r: self.r@,
            psr: self.cpsr@,
            bank_sp: self.bank_sp@,
            bank_lr: self.bank_lr@,
            spsr: self.spsr@,
            usr_high: self.usr_r8_r12@,
            fiq_high: self.fiq_r8_r12@,
            cycles: self.cycles,
            next_seq: self.seq_fetch_addr,
            halted: self.halted,
        }
    }
}

impl Cpu {
    /// A processor at reset.
    pub fn new() -> (r: Self)
        ensures
            r@ == CpuState::reset(),
            r@.wf(),
    {
        let mut cpsr: Cpsr = Cpsr::from_bits(0);
        cpsr.set_mode_bits(CpuMode::Supervisor);
        cpsr.set_irq_disabled(true);
        cpsr.set_fiq_disabled(true);
        let r = Cpu {
            r: [0; 16],
            cpsr,
            bank_sp: [0; 6],
            bank_lr: [0; 6],
            spsr: [0; 6],
            usr_r8_r12: [0; 5],
            fiq_r8_r12: [0; 5],
            cycles: 0,
            seq_fetch_addr: None,
            halted: false,
        };
        assert(r@ =~= CpuState::reset());
        r
    }

    /// Puts the processor in the state in which a BIOS hands over to a program:
    /// System mode, and the stack pointers of System, IRQ and Supervisor in
    /// place.
    pub fn skip_bios_init(&mut self)
        ensures
            final(self)@ == old(self)@.without_bios(),
    {
        self.set_reg(SP, 0x0300_7FE0);
        self.set_mode(CpuMode::System);
        self.set_reg(SP, 0x0300_7F00);
        self.bank_sp[CpuMode::Irq.bank()] = 0x0300_7FA0;
    }

    /// Restarts the processor as a soft reset does, at `entry`. The cycle count
    /// goes on.
    pub fn enter_soft_reset(&mut self, entry: u32)
        ensures
            final(self)@ == old(self)@.soft_reset(entry),
    {
        let cycles: u64 = self.cycles;
        *self = Cpu::new();
        self.skip_bios_init();
        self.set_pc(entry);
        self.cycles = cycles;
    }

    /// Register `index` as an instruction reads it; `r15` reads ahead.
    pub fn reg(&self, index: usize) -> (r: u32)
        requires
            index < NUM_REGISTERS,
        ensures
            r == self@.reg(index as int),
    {
        if index == PC {
            self.r[PC].wrapping_add(self.pipeline_offset())
        } else {
            self.r[index]
        }
    }

    /// Sets register `index`.
    pub fn set_reg(&mut self, index: usize, value: u32)
        requires
            index < NUM_REGISTERS,
        ensures
            final(self)@ == old(self)@.with_reg(index as int, value),
    {
        self.r[index] = value;
    }

    /// The address of the current instruction.
    pub fn pc(&self) -> (r: u32)
        ensures
            r == self@.r[15],
    {
        self.r[PC]
    }

    /// Sets the program counter.
    pub fn set_pc(&mut self, value: u32)
        ensures
            final(self)@ == old(self)@.with_pc(value),
    {
        self.r[PC] = value;
    }

    /// The stack pointer of the current mode.
    pub fn sp(&self) -> (r: u32)
        ensures
            r == self@.r[13],
    {
        self.r[SP]
    }

    /// The link register of the current mode.
    pub fn lr(&self) -> (r: u32)
        ensures
            r == self@.r[14],
    {
        self.r[LR]
    }

    /// How far `r15` reads ahead: 8, or 4 in THUMB state.
    pub fn pipeline_offset(&self) -> (r: u32)
        ensures
            r == self@.pipeline_offset(),
    {
        if self.cpsr.thumb() {
            PC_AHEAD_THUMB
        } else {
            PC_AHEAD_ARM
        }
    }

    /// Bytes of an instruction in the current state.
    pub fn instruction_size(&self) -> (r: u32)
        ensures
            r == self@.instruction_size(),
    {
        if self.cpsr.thumb() {
            2
        } else {
            4
        }
    }

    /// Reads the instruction at the program counter: a word, or in THUMB state
    /// a halfword.
    pub fn fetch(&self, bus: &Bus) -> (r: u32)
        ensures
            r == (if self@.thumb() {
                bus@.read16(self@.r[15]) as u32
            } else {
                bus@.read32(self@.r[15])
            }),
    {
        if self.cpsr.thumb() {
            bus.read_u16(self.pc()) as u32
        } else {
            bus.read_u32(self.pc())
        }
    }

    /// Decodes an ARM instruction under the current flags.
    pub fn decode_arm(&self, instr: u32) -> (r: Decoded)
        ensures
            r == crate::arm::decoded(instr, self@.psr),
    {
        crate::arm::decode(instr, self.cpsr)
    }

    /// Decodes a THUMB instruction.
    pub fn decode_thumb(&self, instr: u16) -> (r: ThumbInstruction)
        ensures
            r == ThumbInstruction::format(instr),
    {
        ThumbInstruction::decode(instr)
    }

    /// Register `index` as an operand; see [`CpuState::operand`].
    pub fn reg_operand(&self, index: usize, register_shift: bool) -> (r: u32)
        requires
            index < NUM_REGISTERS,
        ensures
            r == self@.operand(index as int, register_shift),
    {
        let base: u32 = self.reg(index);
        if register_shift && index == PC {
            base.wrapping_add(4)
        } else {
            base
        }
    }

    /// Register `index` as it is stored to memory; see
    /// [`CpuState::store_value`].
    pub fn store_value(&self, index: usize) -> (r: u32)
        requires
            index < NUM_REGISTERS,
        ensures
            r == self@.store_value(index as int),
    {
        if index == PC {
            self.reg(PC).wrapping_add(4)
        } else {
            self.reg(index)
        }
    }

    /// Writes the flags of an ALU result.
    pub(crate) fn write_flags(&mut self, result: u32, carry: bool, overflow: Option<bool>)
        ensures
            final(self)@ == old(self)@.with_flags(result, carry, overflow),
    {
        self.cpsr.set_alu_flags(result, carry, overflow);
    }

    /// Writes N and Z of a result.
    pub(crate) fn set_nz(&mut self, result: u32)
        ensures
            final(self)@ == old(self)@.with_nz(result),
    {
        let c: bool = self.cpsr.c();
        self.write_flags(result, c, None);
    }

    /// Jumps to `target`, aligned for the current state.
    pub(crate) fn jump(&mut self, target: u32)
        ensures
            final(self)@ == old(self)@.jumped(target),
    {
        if self.cpsr.thumb() {
            self.set_pc(half_aligned(target));
        } else {
            self.set_pc(word_aligned(target));
        }
    }

    /// Jumps to `target`, whose bit 0 selects THUMB state.
    pub(crate) fn jump_exchange(&mut self, target: u32)
        ensures
            final(self)@ == old(self)@.exchanged(target),
    {
        let to_thumb: bool = target % 2 == 1;
        self.cpsr.set_thumb(to_thumb);
        if to_thumb {
            self.set_pc(half_aligned(target));
        } else {
            self.set_pc(word_aligned(target));
        }
    }

    /// Restores the status word from the saved one, as the return from an
    /// exception does.
    pub(crate) fn restore_cpsr_from_spsr(&mut self)
        ensures
            final(self)@ == old(self)@.with_restored_psr(),
    {
        match self.spsr() {
            None => {},
            Some(saved) => {
                match CpuMode::from_bits((saved & crate::psr::MODE_MASK) as u8) {
                    Some(mode) => {
                        self.set_mode(mode);
                        self.cpsr = Cpsr::from_bits(saved);
                    },
                    None => {},
                }
            },
        }
    }

    /// Replaces the status word without touching the banks.
    pub(crate) fn set_cpsr(&mut self, bits: u32)
        ensures
            final(self)@ == (CpuState { psr: bits, ..old(self)@ }),
    {
        self.cpsr = Cpsr::from_bits(bits);
    }

    /// Enters an exception that returns to the next instruction.
    pub(crate) fn enter_exception(&mut self, mode: CpuMode, vector: u32) -> (r: Executed)
        ensures
            final(self)@ == old(self)@.exception(mode, vector),
            r == (Executed::Branched { extra_cycles: 0 }),
    {
        let return_addr: u32 = self.pc().wrapping_add(self.instruction_size());
        self.enter_exception_at(mode, vector, return_addr);
        Executed::Branched { extra_cycles: 0 }
    }

    /// Enters an exception with the given return address.
    pub(crate) fn enter_exception_at(&mut self, mode: CpuMode, vector: u32, return_addr: u32)
        ensures
            final(self)@ == old(self)@.exception_at(mode, vector, return_addr),
    {
        let saved: u32 = self.cpsr.bits();
        self.set_mode(mode);
        self.set_spsr(saved);
        self.set_reg(LR, return_addr);
        self.cpsr.set_irq_disabled(true);
        self.cpsr.set_thumb(false);
        self.set_pc(vector);
    }

    /// Puts the processor to sleep until an interrupt is raised.
    pub fn halt(&mut self)
        ensures
            final(self)@ == (CpuState { halted: true, ..old(self)@ }),
    {
        self.halted = true;
    }

    /// Wakes the processor.
    pub(crate) fn wake(&mut self)
        ensures
            final(self)@ == (CpuState { halted: false, ..old(self)@ }),
    {
        self.halted = false;
    }

    /// Whether the processor sleeps.
    pub fn is_halted(&self) -> (r: bool)
        ensures
            r == self@.halted,
    {
        self.halted
    }

    /// Cycles since reset. The count stops at the largest 64-bit value.
    pub fn cycles(&self) -> (r: u64)
        ensures
            r == self@.cycles,
    {
        self.cycles
    }

    /// Adds cycles to the clock.
    pub(crate) fn spend(&mut self, cycles: u64)
        ensures
            final(self)@ == (CpuState {
                cycles: clock_plus(old(self)@.cycles, cycles as int),
                ..old(self)@
            }),
    {
        self.cycles = self.cycles.saturating_add(cycles);
    }

    /// Moves the clock forward to `cycle`.
    pub(crate) fn sleep_until(&mut self, cycle: u64)
        ensures
            final(self)@ == (CpuState {
                cycles: if cycle > old(self)@.cycles {
                    cycle
                } else {
                    old(self)@.cycles
                },
                ..old(self)@
            }),
    {
        if cycle > self.cycles {
            self.cycles = cycle;
        }
    }

    /// Notes from where the next fetch would be sequential.
    pub(crate) fn set_next_seq(&mut self, addr: Option<u32>)
        ensures
            final(self)@ == (CpuState { next_seq: addr, ..old(self)@ }),
    {
        self.seq_fetch_addr = addr;
    }

    /// Whether a fetch at `addr` would be sequential.
    pub(crate) fn is_sequential(&self, addr: u32) -> (r: bool)
        ensures
            r == (self@.next_seq == Some(addr)),
    {
        match self.seq_fetch_addr {
            Some(expected) => expected == addr,
            None => false,
        }
    }

    /// The current status register.
    pub fn cpsr(&self) -> (r: Cpsr)
        ensures
            r@ == self@.psr,
    {
        self.cpsr
    }

    /// The current status register, to be changed in place. Changing the mode
    /// bits here swaps no bank; see [`Cpu::set_mode`].
    pub fn cpsr_mut(&mut self) -> (r: &mut Cpsr)
        ensures
            r@ == old(self)@.psr,
            final(self)@ == (CpuState { psr: final(r)@, ..old(self)@ }),
    {
        &mut self.cpsr
    }

    /// The current mode. Mode bits that name no mode count as System.
    pub fn mode(&self) -> (r: CpuMode)
        ensures
            r == self@.mode(),
    {
        match CpuMode::from_bits(self.cpsr.mode_bits()) {
            Some(mode) => mode,
            None => CpuMode::System,
        }
    }

    /// The saved status word of the current mode; User and System have none.
    pub fn spsr(&self) -> (r: Option<u32>)
        ensures
            r == self@.saved_psr(),
    {
        let mode: CpuMode = self.mode();
        if mode.has_spsr() {
            Some(self.spsr[mode.bank()])
        } else {
            None
        }
    }

    /// Sets the saved status word of the current mode; in User and System this
    /// has no effect.
    pub fn set_spsr(&mut self, value: u32)
        ensures
            final(self)@ == old(self)@.with_saved_psr(value),
    {
        let mode: CpuMode = self.mode();
        if mode.has_spsr() {
            self.spsr[mode.bank()] = value;
        }
    }

    /// Changes the mode and swaps the register banks.
    pub fn set_mode(&mut self, new_mode: CpuMode)
        ensures
            final(self)@ == old(self)@.with_mode(new_mode),
    {
        let old_mode: CpuMode = self.mode();
        if old_mode == new_mode {
            return;
        }
        let ghost before = self@;
        if new_mode == CpuMode::Fiq {
            let high: [u32; 5] = [self.r[8], self.r[9], self.r[10], self.r[11], self.r[12]];
            self.usr_r8_r12 = high;
            self.r[8] = self.fiq_r8_r12[0];
            self.r[9] = self.fiq_r8_r12[1];
            self.r[10] = self.fiq_r8_r12[2];
            self.r[11] = self.fiq_r8_r12[3];
            self.r[12] = self.fiq_r8_r12[4];
            assert(self@.usr_high =~= before.r.subrange(8, 13));
            assert(self@.r =~= with_high(before.r, before.fiq_high));
        } else if old_mode == CpuMode::Fiq {
            let high: [u32; 5] = [self.r[8], self.r[9], self.r[10], self.r[11], self.r[12]];
            self.fiq_r8_r12 = high;
            self.r[8] = self.usr_r8_r12[0];
            self.r[9] = self.usr_r8_r12[1];
            self.r[10] = self.usr_r8_r12[2];
            self.r[11] = self.usr_r8_r12[3];
            self.r[12] = self.usr_r8_r12[4];
            assert(self@.fiq_high =~= before.r.subrange(8, 13));
            assert(self@.r =~= with_high(before.r, before.usr_high));
        }
        let old_bank: usize = old_mode.bank();
        let new_bank: usize = new_mode.bank();
        if old_bank != new_bank {
            self.bank_sp[old_bank] = self.r[SP];
            self.bank_lr[old_bank] = self.r[LR];
            self.r[SP] = self.bank_sp[new_bank];
            self.r[LR] = self.bank_lr[new_bank];
        }
        self.cpsr.set_mode_bits(new_mode);
    }
}

impl Default for Cpu {
    fn default() -> (r: Self)
        ensures
            r@ == CpuState::reset(),
    {
        Cpu::new()
    }
}

/// The register files of a processor always have their sizes.
pub proof fn law_register_files(cpu: &Cpu)
    ensures
        cpu@.wf(),
{
}

} // verus!

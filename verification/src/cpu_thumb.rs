//! Execution of THUMB instructions, one function per format.

use vstd::prelude::*;

use crate::alu::{
    alu_add, alu_sub, multiply_internal_cycles, shift_by_immediate, shift_by_register,
    thumb_branch_offset11, thumb_branch_offset8, thumb_long_branch_high, AluOutput, ShiftType,
};
use crate::arm::Condition;
use crate::bits::{bit16, count_ones, octal, sign_extend_8};
use crate::bus::{AccessWidth, Bus};
use crate::cpu::{half_aligned, Cpu, CpuState, Executed, Machine, LR, PC, SP};
use crate::cpu_arm::{load_halfword, load_signed_halfword};

verus! {

/// Operation of the register-to-register format.
pub open spec fn thumb_alu_output(op: u16, a: u32, b: u32, carry: bool) -> AluOutput {
    match op {
        0x0 => (a & b, carry, None),
        0x1 => (a ^ b, carry, None),
        0x2 => thumb_shift_output(ShiftType::Lsl, a, b, carry),
        0x3 => thumb_shift_output(ShiftType::Lsr, a, b, carry),
        0x4 => thumb_shift_output(ShiftType::Asr, a, b, carry),
        0x5 => crate::alu::sum(a, b, carry),
        0x6 => crate::alu::difference(a, b, carry),
        0x7 => thumb_shift_output(ShiftType::Ror, a, b, carry),
        0x8 => (a & b, carry, None),
        0x9 => crate::alu::difference(0, b, true),
        0xA => crate::alu::difference(a, b, true),
        0xB => crate::alu::sum(a, b, false),
        0xC => (a | b, carry, None),
        0xD => (a.wrapping_mul(b), carry, None),
        0xE => (a & !b, carry, None),
        _ => (!b, carry, None),
    }
}

/// Shift of `a` by the low byte of `b`.
pub open spec fn thumb_shift_output(ty: ShiftType, a: u32, b: u32, carry: bool) -> AluOutput {
    let (result, out) = crate::alu::shifted_by_register(ty, b % 0x100, a, carry);
    (result, out, None)
}

fn thumb_shift(ty: ShiftType, a: u32, b: u32, carry: bool) -> (r: AluOutput)
    ensures
        r == thumb_shift_output(ty, a, b, carry),
{
    let (result, out): (u32, bool) = shift_by_register(ty, b % 0x100, a, carry);
    (result, out, None)
}

/// Internal cycles of the register-to-register format: one for a shift, those
/// of the multiplier for `MUL`.
pub open spec fn thumb_alu_cycles(op: u16, b: u32) -> u64 {
    if op == 0x2 || op == 0x3 || op == 0x4 || op == 0x7 {
        1
    } else if op == 0xD {
        crate::alu::multiplier_cycles(b, true)
    } else {
        0
    }
}

impl CpuState {
    /// Shift by an immediate.
    pub open spec fn thumb_move_shifted(self, instr: u16) -> (CpuState, Executed) {
        let ty = ShiftType::from_bits(((instr >> 11) % 4) as u32);
        let (result, carry) = crate::alu::shifted_by_immediate(
            ty,
            ((instr >> 6) % 32) as u32,
            self.reg(crate::bits::octal_of(instr, 3) as int),
            self.carry(),
        );
        (
            self.with_reg(crate::bits::octal_of(instr, 0) as int, result).with_flags(
                result,
                carry,
                None,
            ),
            Executed::Continue { extra_cycles: 0 },
        )
    }

    /// `ADD` or `SUB` of a register or a 3-bit immediate.
    pub open spec fn thumb_add_subtract(self, instr: u16) -> (CpuState, Executed) {
        let a = self.reg(crate::bits::octal_of(instr, 3) as int);
        let b = if bit16(instr, 10) {
            crate::bits::octal_of(instr, 6) as u32
        } else {
            self.reg(crate::bits::octal_of(instr, 6) as int)
        };
        let (result, carry, overflow) = if bit16(instr, 9) {
            crate::alu::difference(a, b, true)
        } else {
            crate::alu::sum(a, b, false)
        };
        (
            self.with_reg(crate::bits::octal_of(instr, 0) as int, result).with_flags(
                result,
                carry,
                overflow,
            ),
            Executed::Continue { extra_cycles: 0 },
        )
    }

    /// `MOV`, `CMP`, `ADD` or `SUB` with an 8-bit immediate.
    pub open spec fn thumb_immediate_op(self, instr: u16) -> (CpuState, Executed) {
        let op = (instr >> 11) % 4;
        let rd = crate::bits::octal_of(instr, 8) as int;
        let imm = (instr % 0x100) as u32;
        let a = self.reg(rd);
        let (result, carry, overflow) = if op == 2 {
            crate::alu::sum(a, imm, false)
        } else {
            crate::alu::difference(a, imm, true)
        };
        (
            if op == 0 {
                self.with_reg(rd, imm).with_nz(imm)
            } else if op == 1 {
                self.with_flags(result, carry, overflow)
            } else {
                self.with_reg(rd, result).with_flags(result, carry, overflow)
            },
            Executed::Continue { extra_cycles: 0 },
        )
    }

    /// Register-to-register operation. `TST`, `CMP` and `CMN` only set flags.
    pub open spec fn thumb_alu(self, instr: u16) -> (CpuState, Executed) {
        let op = (instr >> 6) % 16;
        let rd = crate::bits::octal_of(instr, 0) as int;
        let b = self.reg(crate::bits::octal_of(instr, 3) as int);
        let (result, carry, overflow) = thumb_alu_output(op, self.reg(rd), b, self.carry());
        let c = if op == 0x8 || op == 0xA || op == 0xB {
            self
        } else {
            self.with_reg(rd, result)
        };
        (
            c.with_flags(result, carry, overflow),
            Executed::Continue { extra_cycles: thumb_alu_cycles(op, b) },
        )
    }

    /// Operation on high registers, or `BX`. `ADD` and `MOV` set no flags, and
    /// with `r15` as their target they jump.
    pub open spec fn thumb_hi_reg_op(self, instr: u16) -> (CpuState, Executed) {
        let op = (instr >> 8) % 4;
        let rs = crate::bits::octal_of(instr, 3) + if bit16(instr, 6) {
            8int
        } else {
            0int
        };
        let rd = crate::bits::octal_of(instr, 0) + if bit16(instr, 7) {
            8int
        } else {
            0int
        };
        let a = self.reg(rd);
        let b = self.reg(rs);
        if op == 1 {
            let (result, carry, overflow) = crate::alu::difference(a, b, true);
            (
                self.with_flags(result, carry, overflow),
                Executed::Continue { extra_cycles: 0 },
            )
        } else if op == 3 {
            (self.exchanged(b), Executed::Branched { extra_cycles: 0 })
        } else {
            let result = if op == 0 {
                a.wrapping_add(b)
            } else {
                b
            };
            if rd == PC {
                (self.with_pc(half_aligned(result)), Executed::Branched { extra_cycles: 0 })
            } else {
                (self.with_reg(rd, result), Executed::Continue { extra_cycles: 0 })
            }
        }
    }

    /// The program counter as a base: read ahead, with bit 1 cleared.
    pub open spec fn thumb_pc_base(self) -> u32 {
        self.reg(15) & !2u32
    }

    /// `ADD Rd, PC|SP, #imm`.
    pub open spec fn thumb_load_address(self, instr: u16) -> (CpuState, Executed) {
        let base = if bit16(instr, 11) {
            self.reg(13)
        } else {
            self.thumb_pc_base()
        };
        (
            self.with_reg(
                crate::bits::octal_of(instr, 8) as int,
                base.wrapping_add((instr % 0x100 * 4) as u32),
            ),
            Executed::Continue { extra_cycles: 0 },
        )
    }

    /// `ADD SP, #imm`.
    pub open spec fn thumb_add_offset_to_sp(self, instr: u16) -> (CpuState, Executed) {
        (
            self.with_reg(
                13,
                crate::cpu_arm::displaced(
                    self.reg(13),
                    (instr % 0x80 * 4) as u32,
                    !bit16(instr, 7),
                ),
            ),
            Executed::Continue { extra_cycles: 0 },
        )
    }

    /// `B<cond>`.
    pub open spec fn thumb_conditional_branch(self, instr: u16) -> (CpuState, Executed) {
        if Condition::with_code(((instr >> 8) % 16) as u32).holds_in(self.psr) {
            (
                self.with_pc(
                    half_aligned(self.reg(15).wrapping_add_signed(thumb_branch_offset8(instr))),
                ),
                Executed::Branched { extra_cycles: 0 },
            )
        } else {
            (self, Executed::Continue { extra_cycles: 0 })
        }
    }

    /// `B`.
    pub open spec fn thumb_unconditional_branch(self, instr: u16) -> (CpuState, Executed) {
        (
            self.with_pc(
                half_aligned(self.reg(15).wrapping_add_signed(thumb_branch_offset11(instr))),
            ),
            Executed::Branched { extra_cycles: 0 },
        )
    }

    /// One half of `BL`. The first leaves the high part of the target in `LR`,
    /// the second jumps and leaves the return address there, with bit 0 set.
    pub open spec fn thumb_long_branch_with_link(self, instr: u16) -> (CpuState, Executed) {
        if bit16(instr, 11) {
            let target = self.reg(14).wrapping_add((instr % 0x800 * 2) as u32);
            (
                self.with_reg(14, self.r[15].wrapping_add(2) | 1u32).with_pc(half_aligned(target)),
                Executed::Branched { extra_cycles: 0 },
            )
        } else {
            (
                self.with_reg(
                    14,
                    self.reg(15).wrapping_add_signed(thumb_long_branch_high(instr)),
                ),
                Executed::Continue { extra_cycles: 0 },
            )
        }
    }
}

impl Machine {
    /// A word or byte load or store at a computed address.
    pub open spec fn thumb_load_store(
        self,
        load: bool,
        byte: bool,
        rd: int,
        address: u32,
    ) -> (Machine, Executed) {
        let cost = crate::bus::cycles_of_access(
            address,
            if byte {
                AccessWidth::Byte
            } else {
                AccessWidth::Word
            },
            false,
        ) as u64;
        if load {
            let value = if byte {
                self.bus.read8(address) as u32
            } else {
                self.bus.read32(address)
            };
            (
                Machine { cpu: self.cpu.with_reg(rd, value), ..self },
                Executed::Accessed { extra_cycles: (cost + 1) as u64 },
            )
        } else {
            let value = self.cpu.reg(rd);
            (
                Machine {
                    bus: if byte {
                        self.bus.write8(address, (value % 0x100) as u8)
                    } else {
                        self.bus.write32(address, value)
                    },
                    ..self
                },
                Executed::Accessed { extra_cycles: cost },
            )
        }
    }

    /// `LDR` relative to the program counter.
    pub open spec fn thumb_pc_relative_load(self, instr: u16) -> (Machine, Executed) {
        self.thumb_load_store(
            true,
            false,
            crate::bits::octal_of(instr, 8) as int,
            self.cpu.thumb_pc_base().wrapping_add((instr % 0x100 * 4) as u32),
        )
    }

    /// Load or store with a register offset.
    pub open spec fn thumb_load_store_reg_offset(self, instr: u16) -> (Machine, Executed) {
        self.thumb_load_store(
            bit16(instr, 11),
            bit16(instr, 10),
            crate::bits::octal_of(instr, 0) as int,
            self.cpu.reg(crate::bits::octal_of(instr, 3) as int).wrapping_add(
                self.cpu.reg(crate::bits::octal_of(instr, 6) as int),
            ),
        )
    }

    /// Load or store with an immediate offset, in units of the access.
    pub open spec fn thumb_load_store_imm_offset(self, instr: u16) -> (Machine, Executed) {
        let imm = ((instr >> 6) % 32) as u32;
        self.thumb_load_store(
            bit16(instr, 11),
            bit16(instr, 12),
            crate::bits::octal_of(instr, 0) as int,
            self.cpu.reg(crate::bits::octal_of(instr, 3) as int).wrapping_add(
                if bit16(instr, 12) {
                    imm
                } else {
                    (imm * 4) as u32
                },
            ),
        )
    }

    /// Load or store relative to the stack pointer.
    pub open spec fn thumb_sp_relative_load_store(self, instr: u16) -> (Machine, Executed) {
        self.thumb_load_store(
            bit16(instr, 11),
            false,
            crate::bits::octal_of(instr, 8) as int,
            self.cpu.reg(13).wrapping_add((instr % 0x100 * 4) as u32),
        )
    }

    /// `STRH`, `LDRSB`, `LDRH` or `LDRSH` with a register offset.
    pub open spec fn thumb_load_store_sign_extended(self, instr: u16) -> (Machine, Executed) {
        let op = (instr >> 10) % 4;
        let rd = crate::bits::octal_of(instr, 0) as int;
        let address = self.cpu.reg(crate::bits::octal_of(instr, 3) as int).wrapping_add(
            self.cpu.reg(crate::bits::octal_of(instr, 6) as int),
        );
        let cost = crate::bus::cycles_of_access(address, AccessWidth::Half, false) as u64;
        if op == 0 {
            (
                Machine {
                    bus: self.bus.write16(address, (self.cpu.reg(rd) % 0x1_0000) as u16),
                    ..self
                },
                Executed::Accessed { extra_cycles: cost },
            )
        } else {
            let value = if op == 1 {
                sign_extend_8(self.bus.read8(address))
            } else if op == 2 {
                crate::cpu_arm::unsigned_half(self.bus, address)
            } else {
                crate::cpu_arm::signed_half(self.bus, address)
            };
            (
                Machine { cpu: self.cpu.with_reg(rd, value), ..self },
                Executed::Accessed { extra_cycles: (cost + 1) as u64 },
            )
        }
    }

    /// `LDRH` or `STRH` with an immediate offset.
    pub open spec fn thumb_load_store_halfword(self, instr: u16) -> (Machine, Executed) {
        let rd = crate::bits::octal_of(instr, 0) as int;
        let address = self.cpu.reg(crate::bits::octal_of(instr, 3) as int).wrapping_add(
            ((instr >> 6) % 32 * 2) as u32,
        );
        let cost = crate::bus::cycles_of_access(address, AccessWidth::Half, false) as u64;
        if bit16(instr, 11) {
            (
                Machine {
                    cpu: self.cpu.with_reg(rd, crate::cpu_arm::unsigned_half(self.bus, address)),
                    ..self
                },
                Executed::Accessed { extra_cycles: (cost + 1) as u64 },
            )
        } else {
            (
                Machine {
                    bus: self.bus.write16(address, (self.cpu.reg(rd) % 0x1_0000) as u16),
                    ..self
                },
                Executed::Accessed { extra_cycles: cost },
            )
        }
    }

    /// `PUSH` or `POP`, with `LR` (`PC` for `POP`) when bit 8 is set. Popping
    /// `PC` jumps and stays in THUMB state.
    pub open spec fn thumb_push_pop(self, instr: u16) -> (Machine, Executed) {
        let low = (instr % 0x100) as u32;
        if bit16(instr, 11) {
            let list = (low + if bit16(instr, 8) {
                0x8000int
            } else {
                0int
            }) as u32;
            let base = self.cpu.reg(13);
            let cycles = crate::cpu_arm::block_cycles(list, base, 16);
            let loaded = CpuState {
                r: crate::cpu_arm::block_loaded(self.cpu.r, self.bus, list, base),
                ..self.cpu
            }.with_reg(13, crate::cpu_arm::block_addr(list, base, 16));
            if bit16(instr, 8) {
                let target = self.bus.read32(crate::cpu_arm::block_addr(list, base, 15));
                (
                    Machine { cpu: loaded.with_pc(half_aligned(target)), ..self },
                    Executed::Branched { extra_cycles: (cycles + 1) as u64 },
                )
            } else {
                (
                    Machine { cpu: loaded, ..self },
                    Executed::Accessed { extra_cycles: (cycles + 1) as u64 },
                )
            }
        } else {
            let list = (low + if bit16(instr, 8) {
                0x4000int
            } else {
                0int
            }) as u32;
            let base = self.cpu.reg(13).wrapping_sub(
                (4 * crate::bits::ones(list, 16)) as u32,
            );
            (
                Machine {
                    cpu: self.cpu.with_reg(13, base),
                    bus: self.block_stored(list, base, 13, None, 16),
                },
                Executed::Accessed {
                    extra_cycles: crate::cpu_arm::block_cycles(list, base, 16),
                },
            )
        }
    }

    /// `LDMIA` or `STMIA`, which always move the base.
    pub open spec fn thumb_multiple_load_store(self, instr: u16) -> (Machine, Executed) {
        let list = (instr % 0x100) as u32;
        let rb = crate::bits::octal_of(instr, 8) as int;
        let base = self.cpu.reg(rb);
        let end = crate::cpu_arm::block_addr(list, base, 16);
        let cycles = crate::cpu_arm::block_cycles(list, base, 16);
        if bit16(instr, 11) {
            let loaded = CpuState {
                r: crate::cpu_arm::block_loaded(self.cpu.r, self.bus, list, base),
                ..self.cpu
            };
            (
                Machine { cpu: loaded.with_reg(rb, end), ..self },
                Executed::Accessed { extra_cycles: (cycles + 1) as u64 },
            )
        } else {
            (
                Machine {
                    cpu: self.cpu.with_reg(rb, end),
                    bus: self.block_stored(list, base, rb, None, 16),
                },
                Executed::Accessed { extra_cycles: cycles },
            )
        }
    }
}

impl Cpu {
    pub(crate) fn thumb_move_shifted(&mut self, instr: u16) -> (r: Executed)
        ensures
            (final(self)@, r) == old(self)@.thumb_move_shifted(instr),
            final(self)@.cycles == old(self)@.cycles,
    {
        let ty: ShiftType = ShiftType::from_bits(((instr >> 11) % 4) as u32);
        let amount: u32 = ((instr >> 6) % 32) as u32;
        let value: u32 = self.reg(octal(instr, 3));
        let (result, carry): (u32, bool) = shift_by_immediate(ty, amount, value, self.cpsr().c());
        self.set_reg(octal(instr, 0), result);
        self.write_flags(result, carry, None);
        Executed::Continue { extra_cycles: 0 }
    }

    pub(crate) fn thumb_add_subtract(&mut self, instr: u16) -> (r: Executed)
        ensures
            (final(self)@, r) == old(self)@.thumb_add_subtract(instr),
            final(self)@.cycles == old(self)@.cycles,
    {
        let a: u32 = self.reg(octal(instr, 3));
        let b: u32 = if bit16(instr, 10) {
            octal(instr, 6) as u32
        } else {
            self.reg(octal(instr, 6))
        };
        let (result, carry, overflow): AluOutput = if bit16(instr, 9) {
            alu_sub(a, b, true)
        } else {
            alu_add(a, b, false)
        };
        self.set_reg(octal(instr, 0), result);
        self.write_flags(result, carry, overflow);
        Executed::Continue { extra_cycles: 0 }
    }

    pub(crate) fn thumb_immediate_op(&mut self, instr: u16) -> (r: Executed)
        ensures
            (final(self)@, r) == old(self)@.thumb_immediate_op(instr),
            final(self)@.cycles == old(self)@.cycles,
    {
        let rd: usize = octal(instr, 8);
        let imm: u32 = (instr % 0x100) as u32;
        let a: u32 = self.reg(rd);
        match (instr >> 11) % 4 {
            0 => {
                self.set_reg(rd, imm);
                self.set_nz(imm);
            },
            1 => {
                let (result, carry, overflow): AluOutput = alu_sub(a, imm, true);
                self.write_flags(result, carry, overflow);
            },
            2 => {
                let (result, carry, overflow): AluOutput = alu_add(a, imm, false);
                self.set_reg(rd, result);
                self.write_flags(result, carry, overflow);
            },
            _ => {
                let (result, carry, overflow): AluOutput = alu_sub(a, imm, true);
                self.set_reg(rd, result);
                self.write_flags(result, carry, overflow);
            },
        }
        Executed::Continue { extra_cycles: 0 }
    }

    pub(crate) fn thumb_alu(&mut self, instr: u16) -> (r: Executed)
        ensures
            (final(self)@, r) == old(self)@.thumb_alu(instr),
            final(self)@.cycles == old(self)@.cycles,
    {
        let op: u16 = (instr >> 6) % 16;
        let rd: usize = octal(instr, 0);
        let a: u32 = self.reg(rd);
        let b: u32 = self.reg(octal(instr, 3));
        let carry_in: bool = self.cpsr().c();
        let (result, carry, overflow): AluOutput = match op {
            0x0 => (a & b, carry_in, None),
            0x1 => (a ^ b, carry_in, None),
            0x2 => thumb_shift(ShiftType::Lsl, a, b, carry_in),
            0x3 => thumb_shift(ShiftType::Lsr, a, b, carry_in),
            0x4 => thumb_shift(ShiftType::Asr, a, b, carry_in),
            0x5 => alu_add(a, b, carry_in),
            0x6 => alu_sub(a, b, carry_in),
            0x7 => thumb_shift(ShiftType::Ror, a, b, carry_in),
            0x8 => (a & b, carry_in, None),
            0x9 => alu_sub(0, b, true),
            0xA => alu_sub(a, b, true),
            0xB => alu_add(a, b, false),
            0xC => (a | b, carry_in, None),
            0xD => (a.wrapping_mul(b), carry_in, None),
            0xE => (a & !b, carry_in, None),
            _ => (!b, carry_in, None),
        };
        let extra_cycles: u64 = match op {
            0x2 | 0x3 | 0x4 | 0x7 => 1,
            0xD => multiply_internal_cycles(b, true),
            _ => 0,
        };
        if op != 0x8 && op != 0xA && op != 0xB {
            self.set_reg(rd, result);
        }
        self.write_flags(result, carry, overflow);
        Executed::Continue { extra_cycles }
    }

    pub(crate) fn thumb_hi_reg_op(&mut self, instr: u16) -> (r: Executed)
        ensures
            (final(self)@, r) == old(self)@.thumb_hi_reg_op(instr),
            final(self)@.cycles == old(self)@.cycles,
    {
        let h1: usize = if bit16(instr, 7) {
            8
        } else {
            0
        };
        let h2: usize = if bit16(instr, 6) {
            8
        } else {
            0
        };
        let rs: usize = octal(instr, 3) + h2;
        let rd: usize = octal(instr, 0) + h1;
        let a: u32 = self.reg(rd);
        let b: u32 = self.reg(rs);
        match (instr >> 8) % 4 {
            0 => {
                let result: u32 = a.wrapping_add(b);
                if rd == PC {
                    self.set_pc(half_aligned(result));
                    return Executed::Branched { extra_cycles: 0 };
                }
                self.set_reg(rd, result);
            },
            1 => {
                let (result, carry, overflow): AluOutput = alu_sub(a, b, true);
                self.write_flags(result, carry, overflow);
            },
            2 => {
                if rd == PC {
                    self.set_pc(half_aligned(b));
                    return Executed::Branched { extra_cycles: 0 };
                }
                self.set_reg(rd, b);
            },
            _ => {
                self.jump_exchange(b);
                return Executed::Branched { extra_cycles: 0 };
            },
        }
        Executed::Continue { extra_cycles: 0 }
    }

    pub(crate) fn thumb_pc_relative_load(&mut self, instr: u16, bus: &mut Bus) -> (r: Executed)
        requires
            old(bus)@.wf(),
        ensures
            (Machine { cpu: final(self)@, bus: final(bus)@ }, r) == (Machine {
                cpu: old(self)@,
                bus: old(bus)@,
            }).thumb_pc_relative_load(instr),
            final(bus)@.wf(),
            final(self)@.cycles == old(self)@.cycles,
    {
        let offset: u32 = (instr % 0x100) as u32 * 4;
        let address: u32 = (self.reg(PC) & !2u32).wrapping_add(offset);
        self.thumb_load_store(true, false, octal(instr, 8), address, bus)
    }

    pub(crate) fn thumb_load_store_reg_offset(
        &mut self,
        instr: u16,
        bus: &mut Bus,
    ) -> (r: Executed)
        requires
            old(bus)@.wf(),
        ensures
            (Machine { cpu: final(self)@, bus: final(bus)@ }, r) == (Machine {
                cpu: old(self)@,
                bus: old(bus)@,
            }).thumb_load_store_reg_offset(instr),
            final(bus)@.wf(),
            final(self)@.cycles == old(self)@.cycles,
    {
        let address: u32 = self.reg(octal(instr, 3)).wrapping_add(self.reg(octal(instr, 6)));
        self.thumb_load_store(bit16(instr, 11), bit16(instr, 10), octal(instr, 0), address, bus)
    }

    pub(crate) fn thumb_load_store_imm_offset(
        &mut self,
        instr: u16,
        bus: &mut Bus,
    ) -> (r: Executed)
        requires
            old(bus)@.wf(),
        ensures
            (Machine { cpu: final(self)@, bus: final(bus)@ }, r) == (Machine {
                cpu: old(self)@,
                bus: old(bus)@,
            }).thumb_load_store_imm_offset(instr),
            final(bus)@.wf(),
            final(self)@.cycles == old(self)@.cycles,
    {
        let byte: bool = bit16(instr, 12);
        let imm: u32 = ((instr >> 6) % 32) as u32;
        let offset: u32 = if byte {
            imm
        } else {
            imm * 4
        };
        let address: u32 = self.reg(octal(instr, 3)).wrapping_add(offset);
        self.thumb_load_store(bit16(instr, 11), byte, octal(instr, 0), address, bus)
    }

    fn thumb_load_store(
        &mut self,
        load: bool,
        byte: bool,
        rd: usize,
        address: u32,
        bus: &mut Bus,
    ) -> (r: Executed)
        requires
            rd < 16,
            old(bus)@.wf(),
        ensures
            (Machine { cpu: final(self)@, bus: final(bus)@ }, r) == (Machine {
                cpu: old(self)@,
                bus: old(bus)@,
            }).thumb_load_store(load, byte, rd as int, address),
            final(bus)@.wf(),
            final(self)@.cycles == old(self)@.cycles,
    {
        let width: AccessWidth = if byte {
            AccessWidth::Byte
        } else {
            AccessWidth::Word
        };
        let cost: u64 = bus.access_cycles(address, width, false) as u64;
        if load {
            let value: u32 = if byte {
                bus.read_u8(address) as u32
            } else {
                bus.read_u32(address)
            };
            self.set_reg(rd, value);
            Executed::Accessed { extra_cycles: cost + 1 }
        } else {
            let value: u32 = self.reg(rd);
            if byte {
                bus.write_u8(address, (value % 0x100) as u8);
            } else {
                bus.write_u32(address, value);
            }
            Executed::Accessed { extra_cycles: cost }
        }
    }

    pub(crate) fn thumb_load_store_sign_extended(
        &mut self,
        instr: u16,
        bus: &mut Bus,
    ) -> (r: Executed)
        requires
            old(bus)@.wf(),
        ensures
            (Machine { cpu: final(self)@, bus: final(bus)@ }, r) == (Machine {
                cpu: old(self)@,
                bus: old(bus)@,
            }).thumb_load_store_sign_extended(instr),
            final(bus)@.wf(),
            final(self)@.cycles == old(self)@.cycles,
    {
        let rd: usize = octal(instr, 0);
        let address: u32 = self.reg(octal(instr, 3)).wrapping_add(self.reg(octal(instr, 6)));
        let cost: u64 = bus.access_cycles(address, AccessWidth::Half, false) as u64;
        match (instr >> 10) % 4 {
            0 => {
                bus.write_u16(address, (self.reg(rd) % 0x1_0000) as u16);
                Executed::Accessed { extra_cycles: cost }
            },
            1 => {
                self.set_reg(rd, sign_extend_8(bus.read_u8(address)));
                Executed::Accessed { extra_cycles: cost + 1 }
            },
            2 => {
                self.set_reg(rd, load_halfword(bus, address));
                Executed::Accessed { extra_cycles: cost + 1 }
            },
            _ => {
                self.set_reg(rd, load_signed_halfword(bus, address));
                Executed::Accessed { extra_cycles: cost + 1 }
            },
        }
    }

    pub(crate) fn thumb_load_store_halfword(&mut self, instr: u16, bus: &mut Bus) -> (r: Executed)
        requires
            old(bus)@.wf(),
        ensures
            (Machine { cpu: final(self)@, bus: final(bus)@ }, r) == (Machine {
                cpu: old(self)@,
                bus: old(bus)@,
            }).thumb_load_store_halfword(instr),
            final(bus)@.wf(),
            final(self)@.cycles == old(self)@.cycles,
    {
        let rd: usize = octal(instr, 0);
        let offset: u32 = ((instr >> 6) % 32) as u32 * 2;
        let address: u32 = self.reg(octal(instr, 3)).wrapping_add(offset);
        let cost: u64 = bus.access_cycles(address, AccessWidth::Half, false) as u64;
        if bit16(instr, 11) {
            self.set_reg(rd, load_halfword(bus, address));
            Executed::Accessed { extra_cycles: cost + 1 }
        } else {
            bus.write_u16(address, (self.reg(rd) % 0x1_0000) as u16);
            Executed::Accessed { extra_cycles: cost }
        }
    }

    pub(crate) fn thumb_sp_relative_load_store(
        &mut self,
        instr: u16,
        bus: &mut Bus,
    ) -> (r: Executed)
        requires
            old(bus)@.wf(),
        ensures
            (Machine { cpu: final(self)@, bus: final(bus)@ }, r) == (Machine {
                cpu: old(self)@,
                bus: old(bus)@,
            }).thumb_sp_relative_load_store(instr),
            final(bus)@.wf(),
            final(self)@.cycles == old(self)@.cycles,
    {
        let offset: u32 = (instr % 0x100) as u32 * 4;
        let address: u32 = self.reg(SP).wrapping_add(offset);
        self.thumb_load_store(bit16(instr, 11), false, octal(instr, 8), address, bus)
    }

    pub(crate) fn thumb_load_address(&mut self, instr: u16) -> (r: Executed)
        ensures
            (final(self)@, r) == old(self)@.thumb_load_address(instr),
            final(self)@.cycles == old(self)@.cycles,
    {
        let offset: u32 = (instr % 0x100) as u32 * 4;
        let base: u32 = if bit16(instr, 11) {
            self.reg(SP)
        } else {
            self.reg(PC) & !2u32
        };
        self.set_reg(octal(instr, 8), base.wrapping_add(offset));
        Executed::Continue { extra_cycles: 0 }
    }

    pub(crate) fn thumb_add_offset_to_sp(&mut self, instr: u16) -> (r: Executed)
        ensures
            (final(self)@, r) == old(self)@.thumb_add_offset_to_sp(instr),
            final(self)@.cycles == old(self)@.cycles,
    {
        let offset: u32 = (instr % 0x80) as u32 * 4;
        let sp: u32 = self.reg(SP);
        self.set_reg(SP, crate::cpu_arm::displaced(sp, offset, !bit16(instr, 7)));
        Executed::Continue { extra_cycles: 0 }
    }

    pub(crate) fn thumb_push_pop(&mut self, instr: u16, bus: &mut Bus) -> (r: Executed)
        requires
            old(bus)@.wf(),
        ensures
            (Machine { cpu: final(self)@, bus: final(bus)@ }, r) == (Machine {
                cpu: old(self)@,
                bus: old(bus)@,
            }).thumb_push_pop(instr),
            final(bus)@.wf(),
            final(self)@.cycles == old(self)@.cycles,
    {
        let low: u32 = (instr % 0x100) as u32;
        let with_extra: bool = bit16(instr, 8);
        if bit16(instr, 11) {
            let list: u32 = low + if with_extra {
                0x8000
            } else {
                0
            };
            let base: u32 = self.reg(SP);
            let n: u32 = count_ones(list, 16);
            let below: u32 = count_ones(list, 15);
            let cycles: u64 = self.load_block(bus, list, base);
            self.set_reg(SP, base.wrapping_add(4 * n));
            if with_extra {
                let target: u32 = bus.read_u32(base.wrapping_add(4 * below));
                self.set_pc(half_aligned(target));
                Executed::Branched { extra_cycles: cycles + 1 }
            } else {
                Executed::Accessed { extra_cycles: cycles + 1 }
            }
        } else {
            let list: u32 = low + if with_extra {
                0x4000
            } else {
                0
            };
            let n: u32 = count_ones(list, 16);
            let base: u32 = self.reg(SP).wrapping_sub(4 * n);
            let cycles: u64 = self.store_block(bus, list, base, SP, None);
            self.set_reg(SP, base);
            Executed::Accessed { extra_cycles: cycles }
        }
    }

    pub(crate) fn thumb_multiple_load_store(&mut self, instr: u16, bus: &mut Bus) -> (r: Executed)
        requires
            old(bus)@.wf(),
        ensures
            (Machine { cpu: final(self)@, bus: final(bus)@ }, r) == (Machine {
                cpu: old(self)@,
                bus: old(bus)@,
            }).thumb_multiple_load_store(instr),
            final(bus)@.wf(),
            final(self)@.cycles == old(self)@.cycles,
    {
        let list: u32 = (instr % 0x100) as u32;
        let rb: usize = octal(instr, 8);
        let base: u32 = self.reg(rb);
        let n: u32 = count_ones(list, 16);
        let end: u32 = base.wrapping_add(4 * n);
        if bit16(instr, 11) {
            let cycles: u64 = self.load_block(bus, list, base);
            self.set_reg(rb, end);
            Executed::Accessed { extra_cycles: cycles + 1 }
        } else {
            let cycles: u64 = self.store_block(bus, list, base, rb, None);
            self.set_reg(rb, end);
            Executed::Accessed { extra_cycles: cycles }
        }
    }

    pub(crate) fn thumb_conditional_branch(&mut self, instr: u16) -> (r: Executed)
        ensures
            (final(self)@, r) == old(self)@.thumb_conditional_branch(instr),
            final(self)@.cycles == old(self)@.cycles,
    {
        let code: u32 = ((instr >> 8) % 16) as u32;
        assert(code < 16 ==> ((code << 28) >> 28) & 0xF == code) by (bit_vector);
        let condition: Condition = Condition::from_instr(code << 28);
        if !condition.passes(self.cpsr()) {
            return Executed::Continue { extra_cycles: 0 };
        }
        let target: u32 = self.reg(PC).wrapping_add_signed(thumb_branch_offset8(instr));
        self.set_pc(half_aligned(target));
        Executed::Branched { extra_cycles: 0 }
    }

    pub(crate) fn thumb_unconditional_branch(&mut self, instr: u16) -> (r: Executed)
        ensures
            (final(self)@, r) == old(self)@.thumb_unconditional_branch(instr),
            final(self)@.cycles == old(self)@.cycles,
    {
        let target: u32 = self.reg(PC).wrapping_add_signed(thumb_branch_offset11(instr));
        self.set_pc(half_aligned(target));
        Executed::Branched { extra_cycles: 0 }
    }

    pub(crate) fn thumb_long_branch_with_link(&mut self, instr: u16) -> (r: Executed)
        ensures
            (final(self)@, r) == old(self)@.thumb_long_branch_with_link(instr),
            final(self)@.cycles == old(self)@.cycles,
    {
        if bit16(instr, 11) {
            let return_addr: u32 = self.pc().wrapping_add(2) | 1u32;
            let target: u32 = self.reg(LR).wrapping_add((instr % 0x800) as u32 * 2);
            self.set_reg(LR, return_addr);
            self.set_pc(half_aligned(target));
            Executed::Branched { extra_cycles: 0 }
        } else {
            let high: u32 = self.reg(PC).wrapping_add_signed(thumb_long_branch_high(instr));
            self.set_reg(LR, high);
            Executed::Continue { extra_cycles: 0 }
        }
    }
}

} // verus!

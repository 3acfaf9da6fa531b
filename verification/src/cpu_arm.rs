//! Execution of ARM instructions whose condition holds.

use vstd::prelude::*;

use crate::alu::{
    alu_add, alu_sub, arm_branch_offset, multiply_internal_cycles, shift_by_immediate,
    shift_by_register, signed_value, AluOutput, ShiftType,
};
use crate::bits::{bit, count_ones, half_from_bytes, nibble, rotate_right, sign_extend_16, sign_extend_8};
use crate::bus::{AccessWidth, Bus, BusState};
use crate::cpu::{word_aligned, Cpu, CpuState, Executed, Machine, LR, PC};
use crate::psr::CpuMode;

verus! {

/// An 8-bit immediate rotated right by twice the field in bits 11-8.
#[verifier::allow_in_spec]
pub fn rotated_immediate(instr: u32) -> u32
    returns
        rotate_right(instr % 0x100, (2 * ((instr >> 8) % 16)) as u32),
{
    rotate_right(instr % 0x100, 2 * ((instr >> 8) % 16))
}

/// Result, carry and overflow of the data-processing operation `opcode` on `a`
/// and `b`. The logical ones take the carry of the shifter and define no
/// overflow.
pub open spec fn alu_operation(
    opcode: u32,
    a: u32,
    b: u32,
    carry: bool,
    shifter_carry: bool,
) -> AluOutput {
    match opcode {
        0x0 => (a & b, shifter_carry, None),
        0x1 => (a ^ b, shifter_carry, None),
        0x2 => crate::alu::difference(a, b, true),
        0x3 => crate::alu::difference(b, a, true),
        0x4 => crate::alu::sum(a, b, false),
        0x5 => crate::alu::sum(a, b, carry),
        0x6 => crate::alu::difference(a, b, carry),
        0x7 => crate::alu::difference(b, a, carry),
        0x8 => (a & b, shifter_carry, None),
        0x9 => (a ^ b, shifter_carry, None),
        0xA => crate::alu::difference(a, b, true),
        0xB => crate::alu::sum(a, b, false),
        0xC => (a | b, shifter_carry, None),
        0xD => (b, shifter_carry, None),
        0xE => (a & !b, shifter_carry, None),
        _ => (!b, shifter_carry, None),
    }
}

fn alu_operate(opcode: usize, a: u32, b: u32, carry: bool, shifter_carry: bool) -> (r: AluOutput)
    requires
        opcode < 16,
    ensures
        r == alu_operation(opcode as u32, a, b, carry, shifter_carry),
{
    match opcode {
        0x0 => (a & b, shifter_carry, None),
        0x1 => (a ^ b, shifter_carry, None),
        0x2 => alu_sub(a, b, true),
        0x3 => alu_sub(b, a, true),
        0x4 => alu_add(a, b, false),
        0x5 => alu_add(a, b, carry),
        0x6 => alu_sub(a, b, carry),
        0x7 => alu_sub(b, a, carry),
        0x8 => (a & b, shifter_carry, None),
        0x9 => (a ^ b, shifter_carry, None),
        0xA => alu_sub(a, b, true),
        0xB => alu_add(a, b, false),
        0xC => (a | b, shifter_carry, None),
        0xD => (b, shifter_carry, None),
        0xE => (a & !b, shifter_carry, None),
        _ => (!b, shifter_carry, None),
    }
}

/// The status bits that `MSR` may write: the control byte and the flags, each
/// when its field bit is set, and in User mode the flags only.
#[verifier::allow_in_spec]
pub fn msr_mask(instr: u32, flags_only: bool) -> u32
    returns
        ((if bit(instr, 16) && !flags_only {
            0xFFint
        } else {
            0int
        }) + (if bit(instr, 19) {
            0xF000_0000int
        } else {
            0int
        })) as u32,
{
    let control: u32 = if bit(instr, 16) && !flags_only {
        0xFF
    } else {
        0
    };
    let flags: u32 = if bit(instr, 19) {
        0xF000_0000
    } else {
        0
    };
    control + flags
}

/// `old` with the bits of `mask` taken from `value`.
#[verifier::allow_in_spec]
pub fn masked(old: u32, value: u32, mask: u32) -> u32
    returns
        (old & !mask) | (value & mask),
{
    (old & !mask) | (value & mask)
}

/// The 64-bit product of two words, signed or not, modulo 2^64.
pub open spec fn long_product(a: u32, b: u32, signed: bool) -> u64 {
    if signed {
        ((crate::alu::signed(a) * crate::alu::signed(b)) % 0x1_0000_0000_0000_0000) as u64
    } else {
        (a * b) as u64
    }
}

fn multiply_long(a: u32, b: u32, signed: bool) -> (r: u64)
    ensures
        r == long_product(a, b, signed),
{
    if signed {
        let x: i64 = signed_value(a);
        let y: i64 = signed_value(b);
        assert(-0x4000_0000_0000_0000 <= x * y <= 0x4000_0000_0000_0000) by (nonlinear_arith)
            requires
                -0x8000_0000 <= x <= 0x7FFF_FFFF,
                -0x8000_0000 <= y <= 0x7FFF_FFFF,
        ;
        let product: i64 = x * y;
        if product < 0 {
            (product as i128 + 0x1_0000_0000_0000_0000) as u64
        } else {
            product as u64
        }
    } else {
        assert(0 <= a * b <= 0xFFFF_FFFF * 0xFFFF_FFFF) by (nonlinear_arith)
            requires
                0 <= a <= 0xFFFF_FFFF,
                0 <= b <= 0xFFFF_FFFF,
        ;
        a as u64 * b as u64
    }
}

impl CpuState {
    /// Second operand and shifter carry of a data-processing instruction.
    pub open spec fn shifter_operand(self, instr: u32) -> (u32, bool) {
        if bit(instr, 25) {
            let value = rotated_immediate(instr);
            (
                value,
                if (instr >> 8) % 16 == 0 {
                    self.carry()
                } else {
                    bit(value, 31)
                },
            )
        } else if bit(instr, 4) {
            crate::alu::shifted_by_register(
                ShiftType::from_bits(instr >> 5),
                self.reg(crate::bits::nibble_of(instr, 8) as int) % 0x100,
                self.operand(crate::bits::nibble_of(instr, 0) as int, true),
                self.carry(),
            )
        } else {
            crate::alu::shifted_by_immediate(
                ShiftType::from_bits(instr >> 5),
                (instr >> 7) % 32,
                self.operand(crate::bits::nibble_of(instr, 0) as int, false),
                self.carry(),
            )
        }
    }

    /// After a data-processing instruction. Comparisons only set flags. A
    /// result for `r15` is a jump, and with the flag bit it returns from an
    /// exception.
    pub open spec fn data_processing(self, instr: u32) -> (CpuState, Executed) {
        let register_shift = !bit(instr, 25) && bit(instr, 4);
        let extra_cycles = if register_shift {
            1u64
        } else {
            0u64
        };
        let a = self.operand(crate::bits::nibble_of(instr, 16) as int, register_shift);
        let (b, shifter_carry) = self.shifter_operand(instr);
        let opcode = crate::bits::nibble_of(instr, 21);
        let (result, carry, overflow) = alu_operation(opcode, a, b, self.carry(), shifter_carry);
        let rd = crate::bits::nibble_of(instr, 12) as int;
        if 0x8 <= opcode <= 0xB {
            (self.with_flags(result, carry, overflow), Executed::Continue { extra_cycles })
        } else if rd == PC {
            let c = if bit(instr, 20) {
                self.with_restored_psr()
            } else {
                self
            };
            (c.jumped(result), Executed::Branched { extra_cycles })
        } else {
            let c = if bit(instr, 20) {
                self.with_flags(result, carry, overflow)
            } else {
                self
            };
            (c.with_reg(rd, result), Executed::Continue { extra_cycles })
        }
    }

    /// After `MRS`. Without a saved status word the current one is read.
    pub open spec fn mrs(self, instr: u32) -> CpuState {
        self.with_reg(
            crate::bits::nibble_of(instr, 12) as int,
            if bit(instr, 22) {
                match self.saved_psr() {
                    Some(saved) => saved,
                    None => self.psr,
                }
            } else {
                self.psr
            },
        )
    }

    /// With the bits of `mask` of the status word taken from `value`. New mode
    /// bits swap the banks; mode bits that name no mode are not taken.
    pub open spec fn with_psr_bits(self, value: u32, mask: u32) -> CpuState {
        let new = masked(self.psr, value, mask);
        if new & crate::psr::MODE_MASK != self.psr & crate::psr::MODE_MASK {
            match CpuMode::from_bits((new & crate::psr::MODE_MASK) as u8) {
                Some(mode) => CpuState { psr: new, ..self.with_mode(mode) },
                None => CpuState {
                    psr: (new & !crate::psr::MODE_MASK) | (self.psr & crate::psr::MODE_MASK),
                    ..self
                },
            }
        } else {
            CpuState { psr: new, ..self }
        }
    }

    /// After `MSR`.
    pub open spec fn msr(self, instr: u32) -> CpuState {
        let value = if bit(instr, 25) {
            rotated_immediate(instr)
        } else {
            self.reg(crate::bits::nibble_of(instr, 0) as int)
        };
        if bit(instr, 22) {
            match self.saved_psr() {
                Some(saved) => self.with_saved_psr(masked(saved, value, msr_mask(instr, false))),
                None => self,
            }
        } else {
            self.with_psr_bits(value, msr_mask(instr, self.mode() == CpuMode::User))
        }
    }

    /// After a transfer between a register and a status word.
    pub open spec fn psr_transfer(self, instr: u32) -> (CpuState, Executed) {
        (
            if bit(instr, 21) {
                self.msr(instr)
            } else {
                self.mrs(instr)
            },
            Executed::Continue { extra_cycles: 0 },
        )
    }

    /// With N and Z set as given.
    pub open spec fn with_n_and_z(self, n: bool, z: bool) -> CpuState {
        CpuState {
            psr: crate::psr::with_flag(
                crate::psr::with_flag(self.psr, crate::psr::N, n),
                crate::psr::Z,
                z,
            ),
            ..self
        }
    }

    /// After `MUL` or `MLA`.
    pub open spec fn multiply(self, instr: u32) -> (CpuState, Executed) {
        let multiplier = self.reg(crate::bits::nibble_of(instr, 8) as int);
        let product = self.reg(crate::bits::nibble_of(instr, 0) as int).wrapping_mul(multiplier);
        let result = if bit(instr, 21) {
            product.wrapping_add(self.reg(crate::bits::nibble_of(instr, 12) as int))
        } else {
            product
        };
        let c = self.with_reg(crate::bits::nibble_of(instr, 16) as int, result);
        let m = crate::alu::multiplier_cycles(multiplier, true);
        (
            if bit(instr, 20) {
                c.with_n_and_z(bit(result, 31), result == 0)
            } else {
                c
            },
            Executed::Continue {
                extra_cycles: if bit(instr, 21) {
                    (m + 1) as u64
                } else {
                    m
                },
            },
        )
    }

    /// After a long multiplication, which may add the two result registers.
    pub open spec fn multiply_long(self, instr: u32) -> (CpuState, Executed) {
        let signed = bit(instr, 22);
        let hi = crate::bits::nibble_of(instr, 16) as int;
        let lo = crate::bits::nibble_of(instr, 12) as int;
        let multiplier = self.reg(crate::bits::nibble_of(instr, 8) as int);
        let product = long_product(
            self.reg(crate::bits::nibble_of(instr, 0) as int),
            multiplier,
            signed,
        );
        let result = if bit(instr, 21) {
            product.wrapping_add((self.reg(hi) * 0x1_0000_0000 + self.reg(lo)) as u64)
        } else {
            product
        };
        let c = self.with_reg(lo, (result % 0x1_0000_0000) as u32).with_reg(
            hi,
            (result / 0x1_0000_0000) as u32,
        );
        let m = crate::alu::multiplier_cycles(multiplier, signed);
        (
            if bit(instr, 20) {
                c.with_n_and_z(result >= 0x8000_0000_0000_0000, result == 0)
            } else {
                c
            },
            Executed::Continue {
                extra_cycles: if bit(instr, 21) {
                    (m + 2) as u64
                } else {
                    (m + 1) as u64
                },
            },
        )
    }

    /// With the base register moved: always after a post-indexed access, on
    /// request after a pre-indexed one.
    pub open spec fn with_base(self, rn: int, addr: u32, pre: bool, write_back: bool) -> CpuState {
        if !pre || write_back {
            self.with_reg(rn, addr)
        } else {
            self
        }
    }

    /// After `B`, or `BL` when `link` is set.
    pub open spec fn branch(self, instr: u32, link: bool) -> CpuState {
        let c = if link {
            self.with_reg(14, self.r[15].wrapping_add(self.instruction_size()))
        } else {
            self
        };
        c.with_pc(c.reg(15).wrapping_add_signed(arm_branch_offset(instr)))
    }

    /// After `BX`.
    pub open spec fn branch_exchange(self, instr: u32) -> CpuState {
        self.exchanged(self.reg(crate::bits::nibble_of(instr, 0) as int))
    }
}

/// `base` moved up or down by `offset`.
#[verifier::allow_in_spec]
pub fn displaced(base: u32, offset: u32, up: bool) -> u32
    returns
        (if up {
            base.wrapping_add(offset)
        } else {
            base.wrapping_sub(offset)
        }),
{
    if up {
        base.wrapping_add(offset)
    } else {
        base.wrapping_sub(offset)
    }
}

/// What `LDRH` loads: the halfword, and from an odd address the halfword
/// rotated by eight within the 32 bits.
pub open spec fn unsigned_half(bus: BusState, addr: u32) -> u32 {
    let base = addr - addr % 2;
    rotate_right(
        half_from_bytes(bus.read8(base as u32), bus.read8((base + 1) as u32)) as u32,
        (8 * (addr % 2)) as u32,
    )
}

/// What `LDRSH` loads: the halfword with its sign, and from an odd address the
/// byte there with its sign.
pub open spec fn signed_half(bus: BusState, addr: u32) -> u32 {
    if addr % 2 == 1 {
        sign_extend_8(bus.read8(addr))
    } else {
        sign_extend_16(half_from_bytes(bus.read8(addr), bus.read8((addr + 1) as u32)))
    }
}

/// Loads a halfword for `LDRH`.
pub fn load_halfword(bus: &Bus, addr: u32) -> (r: u32)
    ensures
        r == unsigned_half(bus@, addr),
{
    let base: u32 = addr - addr % 2;
    let half: u16 = half_from_bytes(bus.read_u8(base), bus.read_u8(base + 1));
    rotate_right(half as u32, 8 * (addr % 2))
}

/// Loads a signed halfword for `LDRSH`.
pub fn load_signed_halfword(bus: &Bus, addr: u32) -> (r: u32)
    ensures
        r == signed_half(bus@, addr),
{
    if addr % 2 == 1 {
        sign_extend_8(bus.read_u8(addr))
    } else {
        sign_extend_16(half_from_bytes(bus.read_u8(addr), bus.read_u8(addr + 1)))
    }
}

/// The address of register `i` of a block at `base`: the registers of the list
/// lie in order, the lowest one at the lowest address.
pub open spec fn block_addr(list: u32, base: u32, i: nat) -> u32 {
    base.wrapping_add((4 * crate::bits::ones(list, i)) as u32)
}

/// Cycles of accessing the registers of the list below `n`: the first access is
/// not sequential, the others are.
pub open spec fn block_cycles(list: u32, base: u32, n: nat) -> u64
    decreases n,
{
    if n == 0 {
        0
    } else {
        let i = (n - 1) as nat;
        if bit(list, i as u32) {
            (block_cycles(list, base, i) + crate::bus::cycles_of_access(
                block_addr(list, base, i),
                AccessWidth::Word,
                crate::bits::ones(list, i) > 0,
            )) as u64
        } else {
            block_cycles(list, base, i)
        }
    }
}

/// The registers after loading those of the list, except `r15`, from a block.
pub open spec fn block_loaded(r: Seq<u32>, bus: BusState, list: u32, base: u32) -> Seq<u32> {
    Seq::new(
        16,
        |i: int|
            if i != 15 && bit(list, i as u32) {
                bus.read32(block_addr(list, base, i as nat))
            } else {
                r[i]
            },
    )
}

impl Machine {
    /// The bus after storing the registers of the list below `n` to a block.
    /// The base register is stored as `base_value` when that is given.
    pub open spec fn block_stored(
        self,
        list: u32,
        base: u32,
        rn: int,
        base_value: Option<u32>,
        n: nat,
    ) -> BusState
        decreases n,
    {
        if n == 0 {
            self.bus
        } else {
            let i = (n - 1) as nat;
            let before = self.block_stored(list, base, rn, base_value, i);
            if bit(list, i as u32) {
                let value = if i == rn && base_value is Some {
                    base_value->0
                } else {
                    self.cpu.store_value(i as int)
                };
                before.write32(block_addr(list, base, i), value)
            } else {
                before
            }
        }
    }

    /// After `LDR`, `STR`, `LDRB` or `STRB`.
    pub open spec fn single_data_transfer(self, instr: u32) -> (Machine, Executed) {
        let cpu = self.cpu;
        let pre = bit(instr, 24);
        let byte = bit(instr, 22);
        let rn = crate::bits::nibble_of(instr, 16) as int;
        let rd = crate::bits::nibble_of(instr, 12) as int;
        let offset = if bit(instr, 25) {
            crate::alu::shifted_by_immediate(
                ShiftType::from_bits(instr >> 5),
                (instr >> 7) % 32,
                cpu.reg(crate::bits::nibble_of(instr, 0) as int),
                cpu.carry(),
            ).0
        } else {
            instr % 0x1000
        };
        let moved = displaced(cpu.reg(rn), offset, bit(instr, 23));
        let address = if pre {
            moved
        } else {
            cpu.reg(rn)
        };
        let cost = crate::bus::cycles_of_access(
            address,
            if byte {
                AccessWidth::Byte
            } else {
                AccessWidth::Word
            },
            false,
        ) as u64;
        let based = cpu.with_base(rn, moved, pre, bit(instr, 21));
        if bit(instr, 20) {
            let value = if byte {
                self.bus.read8(address) as u32
            } else {
                self.bus.read32(address)
            };
            if rd == PC {
                (
                    Machine { cpu: based.with_pc(word_aligned(value)), ..self },
                    Executed::Branched { extra_cycles: (cost + 1) as u64 },
                )
            } else {
                (
                    Machine { cpu: based.with_reg(rd, value), ..self },
                    Executed::Accessed { extra_cycles: (cost + 1) as u64 },
                )
            }
        } else {
            let value = cpu.store_value(rd);
            (
                Machine {
                    cpu: based,
                    bus: if byte {
                        self.bus.write8(address, (value % 0x100) as u8)
                    } else {
                        self.bus.write32(address, value)
                    },
                },
                Executed::Accessed { extra_cycles: cost },
            )
        }
    }

    /// After `LDRH`, `STRH`, `LDRSB` or `LDRSH`.
    pub open spec fn halfword_transfer(self, instr: u32) -> (Machine, Executed) {
        let cpu = self.cpu;
        let pre = bit(instr, 24);
        let rn = crate::bits::nibble_of(instr, 16) as int;
        let rd = crate::bits::nibble_of(instr, 12) as int;
        let kind = (instr >> 5) % 4;
        let offset = if bit(instr, 22) {
            (crate::bits::nibble_of(instr, 8) * 16 + crate::bits::nibble_of(instr, 0)) as u32
        } else {
            cpu.reg(crate::bits::nibble_of(instr, 0) as int)
        };
        let moved = displaced(cpu.reg(rn), offset, bit(instr, 23));
        let address = if pre {
            moved
        } else {
            cpu.reg(rn)
        };
        let cost = crate::bus::cycles_of_access(
            address,
            if kind == 2 {
                AccessWidth::Byte
            } else {
                AccessWidth::Half
            },
            false,
        ) as u64;
        let based = cpu.with_base(rn, moved, pre, bit(instr, 21));
        if bit(instr, 20) {
            let value = if kind == 1 {
                unsigned_half(self.bus, address)
            } else if kind == 2 {
                sign_extend_8(self.bus.read8(address))
            } else {
                signed_half(self.bus, address)
            };
            if rd == PC {
                (
                    Machine { cpu: based.with_pc(word_aligned(value)), ..self },
                    Executed::Branched { extra_cycles: (cost + 1) as u64 },
                )
            } else {
                (
                    Machine { cpu: based.with_reg(rd, value), ..self },
                    Executed::Accessed { extra_cycles: (cost + 1) as u64 },
                )
            }
        } else {
            (
                Machine {
                    cpu: based,
                    bus: self.bus.write16(address, (cpu.store_value(rd) % 0x1_0000) as u16),
                },
                Executed::Accessed { extra_cycles: cost },
            )
        }
    }

    /// After `LDM` or `STM`.
    pub open spec fn block_data_transfer(self, instr: u32) -> (Machine, Executed) {
        let cpu = self.cpu;
        let pre = bit(instr, 24);
        let up = bit(instr, 23);
        let write_back = bit(instr, 21);
        let rn = crate::bits::nibble_of(instr, 16);
        let list = instr % 0x1_0000;
        let bytes = (4 * crate::bits::ones(list, 16)) as u32;
        let base = cpu.reg(rn as int);
        let end = displaced(base, bytes, up);
        let low = if up {
            base
        } else {
            end
        };
        // Ascending with pre-increment and descending with post-decrement
        // leave out the lowest word.
        let start = word_aligned(
            if pre == up {
                low.wrapping_add(4)
            } else {
                low
            },
        );
        let in_list = bit(list, rn);
        let first = in_list && crate::bits::ones(list, rn as nat) == 0;
        let cycles = block_cycles(list, start, 16);
        if bit(instr, 20) {
            let loaded = CpuState { r: block_loaded(cpu.r, self.bus, list, start), ..cpu };
            let based = if write_back && !in_list {
                loaded.with_reg(rn as int, end)
            } else {
                loaded
            };
            if bit(list, 15) {
                let target = self.bus.read32(block_addr(list, start, 15));
                let restored = if bit(instr, 22) {
                    based.with_restored_psr()
                } else {
                    based
                };
                (
                    Machine { cpu: restored.jumped(target), ..self },
                    Executed::Branched { extra_cycles: (cycles + 1) as u64 },
                )
            } else {
                (
                    Machine { cpu: based, ..self },
                    Executed::Accessed { extra_cycles: (cycles + 1) as u64 },
                )
            }
        } else {
            let base_value = if write_back && !first {
                Some(end)
            } else {
                None
            };
            (
                Machine {
                    cpu: if write_back {
                        cpu.with_reg(rn as int, end)
                    } else {
                        cpu
                    },
                    bus: self.block_stored(list, start, rn as int, base_value, 16),
                },
                Executed::Accessed { extra_cycles: cycles },
            )
        }
    }

    /// After `SWP` or `SWPB`.
    pub open spec fn single_data_swap(self, instr: u32) -> (Machine, Executed) {
        let byte = bit(instr, 22);
        let address = self.cpu.reg(crate::bits::nibble_of(instr, 16) as int);
        let source = self.cpu.reg(crate::bits::nibble_of(instr, 0) as int);
        let rd = crate::bits::nibble_of(instr, 12) as int;
        let cost = crate::bus::cycles_of_access(
            address,
            if byte {
                AccessWidth::Byte
            } else {
                AccessWidth::Word
            },
            false,
        );
        let executed = Executed::Accessed { extra_cycles: (2 * cost + 1) as u64 };
        if byte {
            (
                Machine {
                    cpu: self.cpu.with_reg(rd, self.bus.read8(address) as u32),
                    bus: self.bus.write8(address, (source % 0x100) as u8),
                },
                executed,
            )
        } else {
            (
                Machine {
                    cpu: self.cpu.with_reg(rd, self.bus.read32(address)),
                    bus: self.bus.write32(address, source),
                },
                executed,
            )
        }
    }
}

impl Cpu {
    /// Executes a data-processing instruction.
    pub fn execute_data_processing(&mut self, instr: u32) -> (r: Executed)
        ensures
            (final(self)@, r) == old(self)@.data_processing(instr),
            final(self)@.cycles == old(self)@.cycles,
    {
        let carry_in: bool = self.cpsr().c();
        let is_immediate: bool = bit(instr, 25);
        let register_shift: bool = !is_immediate && bit(instr, 4);
        let a: u32 = self.reg_operand(nibble(instr, 16), register_shift);
        let (b, shifter_carry): (u32, bool) = if is_immediate {
            let value: u32 = rotated_immediate(instr);
            let carry: bool = if (instr >> 8) % 16 == 0 {
                carry_in
            } else {
                bit(value, 31)
            };
            (value, carry)
        } else {
            let value: u32 = self.reg_operand(nibble(instr, 0), register_shift);
            let ty: ShiftType = ShiftType::from_bits(instr >> 5);
            if register_shift {
                let amount: u32 = self.reg(nibble(instr, 8)) % 0x100;
                shift_by_register(ty, amount, value, carry_in)
            } else {
                shift_by_immediate(ty, (instr >> 7) % 32, value, carry_in)
            }
        };
        let opcode: usize = nibble(instr, 21);
        let sets_flags: bool = bit(instr, 20);
        let rd: usize = nibble(instr, 12);
        let (result, carry, overflow): AluOutput = alu_operate(
            opcode,
            a,
            b,
            carry_in,
            shifter_carry,
        );
        let extra_cycles: u64 = if register_shift {
            1
        } else {
            0
        };
        if 0x8 <= opcode && opcode <= 0xB {
            self.write_flags(result, carry, overflow);
            Executed::Continue { extra_cycles }
        } else if rd == PC {
            if sets_flags {
                self.restore_cpsr_from_spsr();
            }
            self.jump(result);
            Executed::Branched { extra_cycles }
        } else {
            if sets_flags {
                self.write_flags(result, carry, overflow);
            }
            self.set_reg(rd, result);
            Executed::Continue { extra_cycles }
        }
    }

    /// Executes `MRS` or `MSR`.
    pub fn execute_psr_transfer(&mut self, instr: u32) -> (r: Executed)
        ensures
            (final(self)@, r) == old(self)@.psr_transfer(instr),
            final(self)@.cycles == old(self)@.cycles,
    {
        let use_spsr: bool = bit(instr, 22);
        if bit(instr, 21) {
            self.execute_msr(instr, use_spsr);
        } else {
            self.execute_mrs(instr, use_spsr);
        }
        Executed::Continue { extra_cycles: 0 }
    }

    fn execute_mrs(&mut self, instr: u32, from_spsr: bool)
        requires
            from_spsr == bit(instr, 22),
        ensures
            final(self)@ == old(self)@.mrs(instr),
    {
        let rd: usize = nibble(instr, 12);
        let value: u32 = if from_spsr {
            match self.spsr() {
                Some(saved) => saved,
                None => self.cpsr().bits(),
            }
        } else {
            self.cpsr().bits()
        };
        self.set_reg(rd, value);
    }

    fn execute_msr(&mut self, instr: u32, to_spsr: bool)
        requires
            to_spsr == bit(instr, 22),
        ensures
            final(self)@ == old(self)@.msr(instr),
    {
        let value: u32 = if bit(instr, 25) {
            rotated_immediate(instr)
        } else {
            self.reg(nibble(instr, 0))
        };
        if to_spsr {
            self.write_spsr_masked(value, msr_mask(instr, false));
        } else {
            let flags_only: bool = self.mode() == CpuMode::User;
            self.write_cpsr_masked(value, msr_mask(instr, flags_only));
        }
    }

    fn write_cpsr_masked(&mut self, value: u32, mask: u32)
        ensures
            final(self)@ == old(self)@.with_psr_bits(value, mask),
    {
        let old_bits: u32 = self.cpsr().bits();
        let new_bits: u32 = masked(old_bits, value, mask);
        if new_bits & crate::psr::MODE_MASK != old_bits & crate::psr::MODE_MASK {
            match CpuMode::from_bits((new_bits & crate::psr::MODE_MASK) as u8) {
                Some(mode) => {
                    self.set_mode(mode);
                    self.set_cpsr(new_bits);
                },
                None => {
                    self.set_cpsr(
                        (new_bits & !crate::psr::MODE_MASK) | (old_bits & crate::psr::MODE_MASK),
                    );
                },
            }
        } else {
            self.set_cpsr(new_bits);
        }
    }

    fn write_spsr_masked(&mut self, value: u32, mask: u32)
        ensures
            final(self)@ == (match old(self)@.saved_psr() {
                Some(saved) => old(self)@.with_saved_psr(masked(saved, value, mask)),
                None => old(self)@,
            }),
    {
        if let Some(saved) = self.spsr() {
            self.set_spsr(masked(saved, value, mask));
        }
    }

    fn set_n_and_z(&mut self, n: bool, z: bool)
        ensures
            final(self)@ == old(self)@.with_n_and_z(n, z),
    {
        let cpsr = self.cpsr_mut();
        cpsr.set_n(n);
        cpsr.set_z(z);
    }

    /// Executes `MUL` or `MLA`.
    pub fn execute_multiply(&mut self, instr: u32) -> (r: Executed)
        ensures
            (final(self)@, r) == old(self)@.multiply(instr),
            final(self)@.cycles == old(self)@.cycles,
    {
        let accumulate: bool = bit(instr, 21);
        let multiplier: u32 = self.reg(nibble(instr, 8));
        let mut result: u32 = self.reg(nibble(instr, 0)).wrapping_mul(multiplier);
        if accumulate {
            result = result.wrapping_add(self.reg(nibble(instr, 12)));
        }
        self.set_reg(nibble(instr, 16), result);
        if bit(instr, 20) {
            self.set_n_and_z(bit(result, 31), result == 0);
        }
        let m: u64 = multiply_internal_cycles(multiplier, true);
        Executed::Continue {
            extra_cycles: if accumulate {
                m + 1
            } else {
                m
            },
        }
    }

    /// Executes `UMULL`, `UMLAL`, `SMULL` or `SMLAL`.
    pub fn execute_multiply_long(&mut self, instr: u32) -> (r: Executed)
        ensures
            (final(self)@, r) == old(self)@.multiply_long(instr),
            final(self)@.cycles == old(self)@.cycles,
    {
        let signed: bool = bit(instr, 22);
        let accumulate: bool = bit(instr, 21);
        let rd_hi: usize = nibble(instr, 16);
        let rd_lo: usize = nibble(instr, 12);
        let multiplier: u32 = self.reg(nibble(instr, 8));
        let operand: u32 = self.reg(nibble(instr, 0));
        let mut product: u64 = multiply_long(operand, multiplier, signed);
        if accumulate {
            let acc: u64 = self.reg(rd_hi) as u64 * 0x1_0000_0000 + self.reg(rd_lo) as u64;
            product = product.wrapping_add(acc);
        }
        self.set_reg(rd_lo, (product % 0x1_0000_0000) as u32);
        self.set_reg(rd_hi, (product / 0x1_0000_0000) as u32);
        if bit(instr, 20) {
            self.set_n_and_z(product >= 0x8000_0000_0000_0000, product == 0);
        }
        let m: u64 = multiply_internal_cycles(multiplier, signed);
        Executed::Continue {
            extra_cycles: if accumulate {
                m + 2
            } else {
                m + 1
            },
        }
    }

    fn apply_writeback(&mut self, rn: usize, addr: u32, pre: bool, write_back: bool)
        requires
            rn < 16,
        ensures
            final(self)@ == old(self)@.with_base(rn as int, addr, pre, write_back),
    {
        if !pre || write_back {
            self.set_reg(rn, addr);
        }
    }

    /// Executes `LDR`, `STR`, `LDRB` or `STRB`.
    pub fn execute_single_data_transfer(&mut self, instr: u32, bus: &mut Bus) -> (r: Executed)
        requires
            old(bus)@.wf(),
        ensures
            (Machine { cpu: final(self)@, bus: final(bus)@ }, r) == (Machine {
                cpu: old(self)@,
                bus: old(bus)@,
            }).single_data_transfer(instr),
            final(bus)@.wf(),
            final(self)@.cycles == old(self)@.cycles,
    {
        let pre: bool = bit(instr, 24);
        let byte: bool = bit(instr, 22);
        let write_back: bool = bit(instr, 21);
        let rn: usize = nibble(instr, 16);
        let rd: usize = nibble(instr, 12);
        let offset: u32 = if bit(instr, 25) {
            let ty: ShiftType = ShiftType::from_bits(instr >> 5);
            let value: u32 = self.reg(nibble(instr, 0));
            shift_by_immediate(ty, (instr >> 7) % 32, value, self.cpsr().c()).0
        } else {
            instr % 0x1000
        };
        let base: u32 = self.reg(rn);
        let moved: u32 = displaced(base, offset, bit(instr, 23));
        let address: u32 = if pre {
            moved
        } else {
            base
        };
        let width: AccessWidth = if byte {
            AccessWidth::Byte
        } else {
            AccessWidth::Word
        };
        let cost: u64 = bus.access_cycles(address, width, false) as u64;
        if bit(instr, 20) {
            let value: u32 = if byte {
                bus.read_u8(address) as u32
            } else {
                bus.read_u32(address)
            };
            self.apply_writeback(rn, moved, pre, write_back);
            if rd == PC {
                self.set_pc(word_aligned(value));
                Executed::Branched { extra_cycles: cost + 1 }
            } else {
                self.set_reg(rd, value);
                Executed::Accessed { extra_cycles: cost + 1 }
            }
        } else {
            let value: u32 = self.store_value(rd);
            if byte {
                bus.write_u8(address, (value % 0x100) as u8);
            } else {
                bus.write_u32(address, value);
            }
            self.apply_writeback(rn, moved, pre, write_back);
            Executed::Accessed { extra_cycles: cost }
        }
    }

    /// Executes `LDRH`, `STRH`, `LDRSB` or `LDRSH`. A load needs one of the
    /// three kinds in bits 6-5.
    pub fn execute_halfword_transfer(&mut self, instr: u32, bus: &mut Bus) -> (r: Executed)
        requires
            old(bus)@.wf(),
            bit(instr, 20) ==> (instr >> 5) % 4 != 0,
        ensures
            (Machine { cpu: final(self)@, bus: final(bus)@ }, r) == (Machine {
                cpu: old(self)@,
                bus: old(bus)@,
            }).halfword_transfer(instr),
            final(bus)@.wf(),
            final(self)@.cycles == old(self)@.cycles,
    {
        let pre: bool = bit(instr, 24);
        let write_back: bool = bit(instr, 21);
        let rn: usize = nibble(instr, 16);
        let rd: usize = nibble(instr, 12);
        let kind: u32 = (instr >> 5) % 4;
        let offset: u32 = if bit(instr, 22) {
            nibble(instr, 8) as u32 * 16 + nibble(instr, 0) as u32
        } else {
            self.reg(nibble(instr, 0))
        };
        let base: u32 = self.reg(rn);
        let moved: u32 = displaced(base, offset, bit(instr, 23));
        let address: u32 = if pre {
            moved
        } else {
            base
        };
        let width: AccessWidth = if kind == 2 {
            AccessWidth::Byte
        } else {
            AccessWidth::Half
        };
        let cost: u64 = bus.access_cycles(address, width, false) as u64;
        if bit(instr, 20) {
            let value: u32 = match kind {
                1 => load_halfword(bus, address),
                2 => sign_extend_8(bus.read_u8(address)),
                _ => load_signed_halfword(bus, address),
            };
            self.apply_writeback(rn, moved, pre, write_back);
            if rd == PC {
                self.set_pc(word_aligned(value));
                Executed::Branched { extra_cycles: cost + 1 }
            } else {
                self.set_reg(rd, value);
                Executed::Accessed { extra_cycles: cost + 1 }
            }
        } else {
            let value: u32 = self.store_value(rd);
            bus.write_u16(address, (value % 0x1_0000) as u16);
            self.apply_writeback(rn, moved, pre, write_back);
            Executed::Accessed { extra_cycles: cost }
        }
    }

    /// Loads the registers of the list, except `r15`, from a block at `base`,
    /// and returns the cycles of all its accesses.
    pub(crate) fn load_block(&mut self, bus: &Bus, list: u32, base: u32) -> (r: u64)
        ensures
            final(self)@ == (CpuState {
                r: block_loaded(old(self)@.r, bus@, list, base),
                ..old(self)@
            }),
            r == block_cycles(list, base, 16),
            r <= 128,
    {
        let ghost before = self@;
        proof {
            crate::cpu::law_register_files(&*self);
        }
        let mut addr: u32 = base;
        let mut cycles: u64 = 0;
        let mut first: bool = true;
        let mut i: usize = 0;
        while i < 16
            invariant
                i <= 16,
                before.wf(),
                self@ == (CpuState { r: self@.r, ..before }),
                self@.r.len() == 16,
                forall|k: int|
                    0 <= k < 16 ==> #[trigger] self@.r[k] == (if k < i {
                        block_loaded(before.r, bus@, list, base)[k]
                    } else {
                        before.r[k]
                    }),
                addr == block_addr(list, base, i as nat),
                crate::bits::ones(list, i as nat) <= i,
                first == (crate::bits::ones(list, i as nat) == 0),
                cycles == block_cycles(list, base, i as nat),
                cycles <= 8 * i,
            decreases 16 - i,
        {
            if bit(list, i as u32) {
                cycles = cycles + bus.access_cycles(addr, AccessWidth::Word, !first) as u64;
                if i != PC {
                    let value: u32 = bus.read_u32(addr);
                    self.set_reg(i, value);
                }
                addr = addr.wrapping_add(4);
                first = false;
            }
            i = i + 1;
        }
        assert(self@.r =~= block_loaded(before.r, bus@, list, base));
        cycles
    }

    /// Stores the registers of the list to a block at `base`, and returns the
    /// cycles of its accesses. Register `rn` is stored as `base_value` when
    /// that is given.
    pub(crate) fn store_block(
        &self,
        bus: &mut Bus,
        list: u32,
        base: u32,
        rn: usize,
        base_value: Option<u32>,
    ) -> (r: u64)
        requires
            old(bus)@.wf(),
        ensures
            final(bus)@ == (Machine { cpu: self@, bus: old(bus)@ }).block_stored(
                list,
                base,
                rn as int,
                base_value,
                16,
            ),
            final(bus)@.wf(),
            r == block_cycles(list, base, 16),
            r <= 128,
    {
        let ghost start = Machine { cpu: self@, bus: bus@ };
        let mut addr: u32 = base;
        let mut cycles: u64 = 0;
        let mut first: bool = true;
        let mut i: usize = 0;
        while i < 16
            invariant
                i <= 16,
                start.cpu == self@,
                bus@.wf(),
                bus@ == start.block_stored(list, base, rn as int, base_value, i as nat),
                addr == block_addr(list, base, i as nat),
                crate::bits::ones(list, i as nat) <= i,
                first == (crate::bits::ones(list, i as nat) == 0),
                cycles == block_cycles(list, base, i as nat),
                cycles <= 8 * i,
            decreases 16 - i,
        {
            if bit(list, i as u32) {
                cycles = cycles + bus.access_cycles(addr, AccessWidth::Word, !first) as u64;
                let value: u32 = match base_value {
                    Some(v) => {
                        if i == rn {
                            v
                        } else {
                            self.store_value(i)
                        }
                    },
                    None => self.store_value(i),
                };
                bus.write_u32(addr, value);
                addr = addr.wrapping_add(4);
                first = false;
            }
            i = i + 1;
        }
        cycles
    }

    /// Executes `LDM` or `STM`.
    pub fn execute_block_data_transfer(&mut self, instr: u32, bus: &mut Bus) -> (r: Executed)
        requires
            old(bus)@.wf(),
        ensures
            (Machine { cpu: final(self)@, bus: final(bus)@ }, r) == (Machine {
                cpu: old(self)@,
                bus: old(bus)@,
            }).block_data_transfer(instr),
            final(bus)@.wf(),
            final(self)@.cycles == old(self)@.cycles,
    {
        let pre: bool = bit(instr, 24);
        let up: bool = bit(instr, 23);
        let write_back: bool = bit(instr, 21);
        let rn: usize = nibble(instr, 16);
        let list: u32 = instr % 0x1_0000;
        let bytes: u32 = 4 * count_ones(list, 16);
        let base: u32 = self.reg(rn);
        let end: u32 = displaced(base, bytes, up);
        let low: u32 = if up {
            base
        } else {
            end
        };
        let start: u32 = word_aligned(
            if pre == up {
                low.wrapping_add(4)
            } else {
                low
            },
        );
        let in_list: bool = bit(list, rn as u32);
        if bit(instr, 20) {
            let cycles: u64 = self.load_block(bus, list, start);
            if write_back && !in_list {
                self.set_reg(rn, end);
            }
            if bit(list, 15) {
                let below: u32 = count_ones(list, 15);
                let target: u32 = bus.read_u32(start.wrapping_add(4 * below));
                if bit(instr, 22) {
                    self.restore_cpsr_from_spsr();
                }
                self.jump(target);
                Executed::Branched { extra_cycles: cycles + 1 }
            } else {
                Executed::Accessed { extra_cycles: cycles + 1 }
            }
        } else {
            let first: bool = in_list && count_ones(list, rn as u32) == 0;
            let base_value: Option<u32> = if write_back && !first {
                Some(end)
            } else {
                None
            };
            let cycles: u64 = self.store_block(bus, list, start, rn, base_value);
            if write_back {
                self.set_reg(rn, end);
            }
            Executed::Accessed { extra_cycles: cycles }
        }
    }

    /// Executes `SWP` or `SWPB`: register and memory change places.
    pub fn execute_single_data_swap(&mut self, instr: u32, bus: &mut Bus) -> (r: Executed)
        requires
            old(bus)@.wf(),
        ensures
            (Machine { cpu: final(self)@, bus: final(bus)@ }, r) == (Machine {
                cpu: old(self)@,
                bus: old(bus)@,
            }).single_data_swap(instr),
            final(bus)@.wf(),
            final(self)@.cycles == old(self)@.cycles,
    {
        let byte: bool = bit(instr, 22);
        let rd: usize = nibble(instr, 12);
        let address: u32 = self.reg(nibble(instr, 16));
        let source: u32 = self.reg(nibble(instr, 0));
        let width: AccessWidth = if byte {
            AccessWidth::Byte
        } else {
            AccessWidth::Word
        };
        let cost: u64 = bus.access_cycles(address, width, false) as u64;
        if byte {
            let loaded: u32 = bus.read_u8(address) as u32;
            bus.write_u8(address, (source % 0x100) as u8);
            self.set_reg(rd, loaded);
        } else {
            let loaded: u32 = bus.read_u32(address);
            bus.write_u32(address, source);
            self.set_reg(rd, loaded);
        }
        Executed::Accessed { extra_cycles: 2 * cost + 1 }
    }

    pub(crate) fn execute_branch(&mut self, instr: u32, link: bool)
        ensures
            final(self)@ == old(self)@.branch(instr, link),
            final(self)@.cycles == old(self)@.cycles,
    {
        if link {
            let return_addr: u32 = self.pc().wrapping_add(self.instruction_size());
            self.set_reg(LR, return_addr);
        }
        let target: u32 = self.reg(PC).wrapping_add_signed(arm_branch_offset(instr));
        self.set_pc(target);
    }

    pub(crate) fn execute_bx(&mut self, instr: u32)
        ensures
            final(self)@ == old(self)@.branch_exchange(instr),
            final(self)@.cycles == old(self)@.cycles,
    {
        let target: u32 = self.reg(nibble(instr, 0));
        self.jump_exchange(target);
    }
}

} // verus!

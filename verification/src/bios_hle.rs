//! The built-in BIOS: what a `SWI` does when no real BIOS is loaded.

use vstd::prelude::*;

use crate::bios_affine::{bg_affine_set, obj_affine_set};
use crate::bios_math::{arctan, arctan2, div, div_arm, sqrt};
use crate::bios_memory::{cpu_fast_set, cpu_set, register_ram_reset, soft_reset};
use crate::bios_unpack::{bit_unpack, diff_unfilter, huff, lz77, rl};
use crate::bits::sign_extend_16;
use crate::bus::{Bus, BusState};
use crate::cpu::{Cpu, CpuState, Executed, Machine};

verus! {

impl Machine {
    /// With the bus replaced.
    pub open spec fn with_bus(self, bus: BusState) -> Machine {
        Machine { bus, ..self }
    }

    /// With the processor replaced.
    pub open spec fn with_cpu(self, cpu: CpuState) -> Machine {
        Machine { cpu, ..self }
    }

    /// After BIOS function `number`. Functions that do not exist do nothing.
    #[verifier::opaque]
    pub open spec fn swi(self, number: u8) -> (Machine, Executed) {
        let r = self.cpu.r;
        let done = Executed::Continue { extra_cycles: 0 };
        match number {
            0x00 => (self.soft_reset(), Executed::Branched { extra_cycles: 0 }),
            0x01 => (self.with_bus(self.bus.ram_reset(r[0])), done),
            0x02 => (self.with_cpu(CpuState { halted: true, ..self.cpu }), done),
            0x04 => (self.with_cpu(CpuState { halted: true, ..self.cpu }), done),
            0x05 => (self.with_cpu(CpuState { halted: true, ..self.cpu }), done),
            0x06 => (
                self.with_cpu(
                    self.cpu.divided(crate::alu::signed(r[0]), crate::alu::signed(r[1])),
                ),
                done,
            ),
            0x07 => (
                self.with_cpu(
                    self.cpu.divided(crate::alu::signed(r[1]), crate::alu::signed(r[0])),
                ),
                done,
            ),
            0x08 => (
                self.with_cpu(
                    self.cpu.with_reg(0, crate::bios_math::integer_sqrt(r[0] as int) as u32),
                ),
                done,
            ),
            0x09 => (
                self.with_cpu(
                    self.cpu.with_reg(
                        0,
                        sign_extend_16(
                            (crate::bios_math::arctan_polynomial(
                                crate::bios_math::signed_low_half(r[0]) as i32,
                            ) % 0x1_0000) as u16,
                        ),
                    ),
                ),
                done,
            ),
            0x0A => (
                self.with_cpu(
                    self.cpu.with_reg(
                        0,
                        crate::bios_math::arctan2_angle(
                            crate::bios_math::signed_low_half(r[0]),
                            crate::bios_math::signed_low_half(r[1]),
                        ),
                    ),
                ),
                done,
            ),
            0x0B => (self.with_bus(self.cpu_set()), done),
            0x0C => (self.with_bus(self.cpu_fast_set()), done),
            0x0E => (self.with_bus(self.bg_affine_set()), done),
            0x0F => (self.with_bus(self.obj_affine_set()), done),
            0x10 => (self.with_bus(self.bit_unpack()), done),
            0x11 => (
                self.with_bus(
                    self.bus.flushed(
                        r[1],
                        crate::bios_unpack::lz77_output(self.bus, r[0]),
                        false,
                    ),
                ),
                done,
            ),
            0x12 => (
                self.with_bus(
                    self.bus.flushed(
                        r[1],
                        crate::bios_unpack::lz77_output(self.bus, r[0]),
                        true,
                    ),
                ),
                done,
            ),
            0x13 => (self.with_bus(self.huffman()), done),
            0x14 => (
                self.with_bus(
                    self.bus.flushed(r[1], crate::bios_unpack::rl_output(self.bus, r[0]), false),
                ),
                done,
            ),
            0x15 => (
                self.with_bus(
                    self.bus.flushed(r[1], crate::bios_unpack::rl_output(self.bus, r[0]), true),
                ),
                done,
            ),
            0x16 => (
                self.with_bus(
                    self.bus.flushed(
                        r[1],
                        crate::bios_unpack::diff_output(self.bus, r[0], false),
                        false,
                    ),
                ),
                done,
            ),
            0x17 => (
                self.with_bus(
                    self.bus.flushed(
                        r[1],
                        crate::bios_unpack::diff_output(self.bus, r[0], false),
                        true,
                    ),
                ),
                done,
            ),
            0x18 => (
                self.with_bus(
                    self.bus.flushed(
                        r[1],
                        crate::bios_unpack::diff_output(self.bus, r[0], true),
                        true,
                    ),
                ),
                done,
            ),
            _ => (self, done),
        }
    }
}

/// Executes BIOS function `number`.
pub fn dispatch(cpu: &mut Cpu, bus: &mut Bus, number: u8) -> (r: Executed)
    requires
        old(bus)@.wf(),
    ensures
        (Machine { cpu: final(cpu)@, bus: final(bus)@ }, r) == (Machine {
            cpu: old(cpu)@,
            bus: old(bus)@,
        }).swi(number),
        final(bus)@.wf(),
        final(cpu)@.cycles == old(cpu)@.cycles,
{
    reveal(Machine::swi);
    match number {
        0x00 => {
            return soft_reset(cpu, bus);
        },
        0x01 => register_ram_reset(cpu, bus),
        0x02 | 0x04 | 0x05 => cpu.halt(),
        0x06 => div(cpu),
        0x07 => div_arm(cpu),
        0x08 => sqrt(cpu),
        0x09 => arctan(cpu),
        0x0A => arctan2(cpu),
        0x0B => cpu_set(cpu, bus),
        0x0C => cpu_fast_set(cpu, bus),
        0x0E => bg_affine_set(cpu, bus),
        0x0F => obj_affine_set(cpu, bus),
        0x10 => bit_unpack(cpu, bus),
        0x11 => lz77(cpu, bus, false),
        0x12 => lz77(cpu, bus, true),
        0x13 => huff(cpu, bus),
        0x14 => rl(cpu, bus, false),
        0x15 => rl(cpu, bus, true),
        0x16 => diff_unfilter(cpu, bus, false, false),
        0x17 => diff_unfilter(cpu, bus, false, true),
        0x18 => diff_unfilter(cpu, bus, true, true),
        _ => {},
    }
    Executed::Continue { extra_cycles: 0 }
}

} // verus!

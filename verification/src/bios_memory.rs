//! Memory functions of the built-in BIOS: block copies and fills, clearing, and
//! the two resets.

use vstd::prelude::*;

use crate::bits::{bit, half_from_bytes};
use crate::bus::{
    Bus, BusState, EWRAM_SIZE, EWRAM_START, IWRAM_SIZE, IWRAM_START, OAM_SIZE, OAM_START,
    PRAM_SIZE, PRAM_START, ROM_START, VRAM_SIZE, VRAM_START,
};
use crate::cpu::{half_aligned, word_aligned, Cpu, Executed, Machine};

verus! {

/// The most bytes that a decompression produces.
pub const MAX_DECOMP_BYTES: usize = 0x40_0000;

/// First address that a soft reset clears.
pub const RESET_CLEAR_START: u32 = 0x0300_7E00;

/// Number of bytes that a soft reset clears.
pub const RESET_CLEAR_LEN: usize = 0x200;

/// The byte that tells a soft reset where to go on.
pub const RESET_FLAG: u32 = 0x0300_7FFA;

impl BusState {
    /// After `n` units of a block copy or fill. A fill reads the same address
    /// each time.
    pub open spec fn block_set(self, src: u32, dst: u32, word: bool, fixed: bool, n: nat) -> BusState
        decreases n,
    {
        if n == 0 {
            self
        } else {
            let k = (n - 1) as nat;
            let before = self.block_set(src, dst, word, fixed, k);
            let unit = if word {
                4int
            } else {
                2int
            };
            let from = if fixed {
                src
            } else {
                crate::bus::stepped(src, unit, k as int)
            };
            let to = crate::bus::stepped(dst, unit, k as int);
            if word {
                before.write32(to, before.read32(from))
            } else {
                before.write16(to, before.read16(from))
            }
        }
    }

    /// After writing the first `n` bytes of `data` from `dst` on.
    pub open spec fn flushed_bytes(self, dst: u32, data: Seq<u8>, n: nat) -> BusState
        decreases n,
    {
        if n == 0 {
            self
        } else {
            self.flushed_bytes(dst, data, (n - 1) as nat).write8(
                crate::bus::stepped(dst, 1, n - 1),
                data[n - 1],
            )
        }
    }

    /// After writing the first `n` pairs of bytes of `data` from `dst` on, as
    /// halfwords. A last single byte goes with a zero.
    pub open spec fn flushed_halves(self, dst: u32, data: Seq<u8>, n: nat) -> BusState
        decreases n,
    {
        if n == 0 {
            self
        } else {
            let k = n - 1;
            self.flushed_halves(dst, data, k as nat).write16(
                crate::bus::stepped(dst, 2, k),
                half_from_bytes(
                    data[2 * k],
                    if 2 * k + 1 < data.len() {
                        data[2 * k + 1]
                    } else {
                        0
                    },
                ),
            )
        }
    }

    /// After writing all of `data` from `dst` on, bytewise or in halfwords.
    pub open spec fn flushed(self, dst: u32, data: Seq<u8>, write16: bool) -> BusState {
        if write16 {
            self.flushed_halves(dst, data, ((data.len() + 1) / 2) as nat)
        } else {
            self.flushed_bytes(dst, data, data.len())
        }
    }

    /// After clearing `n` bytes from `start` on.
    pub open spec fn cleared(self, start: u32, n: nat) -> BusState
        decreases n,
    {
        if n == 0 {
            self
        } else {
            self.cleared(start, (n - 1) as nat).write8(crate::bus::stepped(start, 1, n - 1), 0)
        }
    }

    /// After `RegisterRamReset` with these flags: each of the low five bits
    /// clears a region. Internal work RAM keeps its last 0x200 bytes.
    pub open spec fn ram_reset(self, flags: u32) -> BusState {
        self.cleared_if(bit(flags, 0), EWRAM_START, EWRAM_SIZE as nat).cleared_if(
            bit(flags, 1),
            IWRAM_START,
            (IWRAM_SIZE - 0x200) as nat,
        ).cleared_if(bit(flags, 2), PRAM_START, PRAM_SIZE as nat).cleared_if(
            bit(flags, 3),
            VRAM_START,
            VRAM_SIZE as nat,
        ).cleared_if(bit(flags, 4), OAM_START, OAM_SIZE as nat)
    }

    /// After clearing a region if asked to.
    pub open spec fn cleared_if(self, wanted: bool, start: u32, n: nat) -> BusState {
        if wanted {
            self.cleared(start, n)
        } else {
            self
        }
    }
}

impl Machine {
    /// After `CpuSet`: `r0` is the source, `r1` the destination, `r2` the
    /// number of units with bit 24 for a fill and bit 26 for words.
    pub open spec fn cpu_set(self) -> BusState {
        let ctrl = self.cpu.r[2];
        let word = bit(ctrl, 26);
        self.bus.block_set(
            if word {
                word_aligned(self.cpu.r[0])
            } else {
                half_aligned(self.cpu.r[0])
            },
            if word {
                word_aligned(self.cpu.r[1])
            } else {
                half_aligned(self.cpu.r[1])
            },
            word,
            bit(ctrl, 24),
            (ctrl % 0x20_0000) as nat,
        )
    }

    /// After `CpuFastSet`: words only, their number rounded up to a multiple of
    /// eight.
    pub open spec fn cpu_fast_set(self) -> BusState {
        let ctrl = self.cpu.r[2];
        self.bus.block_set(
            word_aligned(self.cpu.r[0]),
            word_aligned(self.cpu.r[1]),
            true,
            bit(ctrl, 24),
            ((ctrl % 0x20_0000 + 7) / 8 * 8) as nat,
        )
    }

    /// After `SoftReset`.
    pub open spec fn soft_reset(self) -> Machine {
        Machine {
            cpu: self.cpu.soft_reset(
                if self.bus.read8(RESET_FLAG) != 0 {
                    EWRAM_START
                } else {
                    ROM_START
                },
            ),
            bus: self.bus.cleared(RESET_CLEAR_START, RESET_CLEAR_LEN as nat),
        }
    }
}

/// Adding to a start address leads to the address of that unit.
proof fn lemma_stepped_by(start: u32, step: int, k: int)
    requires
        0 <= k * step < 0x1_0000_0000,
    ensures
        crate::bus::stepped(start, step, k) == start.wrapping_add((k * step) as u32),
{
}

/// Copies or fills `count` units.
fn set_block(bus: &mut Bus, src: u32, dst: u32, word: bool, fixed: bool, count: u32)
    requires
        old(bus)@.wf(),
        count <= 0x20_0008,
    ensures
        final(bus)@ == old(bus)@.block_set(src, dst, word, fixed, count as nat),
        final(bus)@.wf(),
{
    let ghost before = bus@;
    let unit: u32 = if word {
        4
    } else {
        2
    };
    let mut i: u32 = 0;
    while i < count
        invariant
            i <= count <= 0x20_0008,
            unit == (if word {
                4u32
            } else {
                2u32
            }),
            bus@.wf(),
            bus@ == before.block_set(src, dst, word, fixed, i as nat),
        decreases count - i,
    {
        proof {
            lemma_stepped_by(
                src,
                if word {
                    4
                } else {
                    2
                },
                i as int,
            );
            lemma_stepped_by(
                dst,
                if word {
                    4
                } else {
                    2
                },
                i as int,
            );
        }
        let from: u32 = if fixed {
            src
        } else if word {
            src.wrapping_add(i * 4)
        } else {
            src.wrapping_add(i * 2)
        };
        if word {
            let value: u32 = bus.read_u32(from);
            bus.write_u32(dst.wrapping_add(i * 4), value);
        } else {
            let value: u16 = bus.read_u16(from);
            bus.write_u16(dst.wrapping_add(i * 2), value);
        }
        i = i + 1;
    }
}

/// `CpuSet`: copies or fills a block in halfwords or words.
pub fn cpu_set(cpu: &mut Cpu, bus: &mut Bus)
    requires
        old(bus)@.wf(),
    ensures
        final(cpu)@ == old(cpu)@,
        final(bus)@ == (Machine { cpu: old(cpu)@, bus: old(bus)@ }).cpu_set(),
        final(bus)@.wf(),
{
    let src: u32 = cpu.reg(0);
    let dst: u32 = cpu.reg(1);
    let ctrl: u32 = cpu.reg(2);
    let count: u32 = ctrl % 0x20_0000;
    let fixed: bool = bit(ctrl, 24);
    if bit(ctrl, 26) {
        set_block(bus, word_aligned(src), word_aligned(dst), true, fixed, count);
    } else {
        set_block(bus, half_aligned(src), half_aligned(dst), false, fixed, count);
    }
}

/// `CpuFastSet`: copies or fills a block in groups of eight words.
pub fn cpu_fast_set(cpu: &mut Cpu, bus: &mut Bus)
    requires
        old(bus)@.wf(),
    ensures
        final(cpu)@ == old(cpu)@,
        final(bus)@ == (Machine { cpu: old(cpu)@, bus: old(bus)@ }).cpu_fast_set(),
        final(bus)@.wf(),
{
    let src: u32 = cpu.reg(0);
    let dst: u32 = cpu.reg(1);
    let ctrl: u32 = cpu.reg(2);
    let count: u32 = (ctrl % 0x20_0000 + 7) / 8 * 8;
    set_block(bus, word_aligned(src), word_aligned(dst), true, bit(ctrl, 24), count);
}

/// Writes `out` from `dst` on, bytewise or in halfwords.
pub(crate) fn flush(bus: &mut Bus, dst: u32, out: &Vec<u8>, write16: bool)
    requires
        old(bus)@.wf(),
        out@.len() <= 0x7FFF_FFFF,
    ensures
        final(bus)@ == old(bus)@.flushed(dst, out@, write16),
        final(bus)@.wf(),
{
    let ghost before = bus@;
    let len: usize = out.len();
    if write16 {
        let pairs: usize = (len + 1) / 2;
        let mut k: usize = 0;
        while k < pairs
            invariant
                k <= pairs,
                pairs == (len + 1) / 2,
                len == out@.len(),
                len <= 0x7FFF_FFFF,
                bus@.wf(),
                bus@ == before.flushed_halves(dst, out@, k as nat),
            decreases pairs - k,
        {
            let hi: u8 = if 2 * k + 1 < len {
                out[2 * k + 1]
            } else {
                0
            };
            proof {
                lemma_stepped_by(dst, 2, k as int);
            }
            bus.write_u16(dst.wrapping_add((2 * k) as u32), half_from_bytes(out[2 * k], hi));
            k = k + 1;
        }
    } else {
        let mut i: usize = 0;
        while i < len
            invariant
                i <= len,
                len == out@.len(),
                len <= 0x7FFF_FFFF,
                bus@.wf(),
                bus@ == before.flushed_bytes(dst, out@, i as nat),
            decreases len - i,
        {
            proof {
                lemma_stepped_by(dst, 1, i as int);
            }
            bus.write_u8(dst.wrapping_add(i as u32), out[i]);
            i = i + 1;
        }
    }
}

/// Clears `len` bytes from `start` on.
pub(crate) fn clear_region(bus: &mut Bus, start: u32, len: usize)
    requires
        old(bus)@.wf(),
        len <= 0x7FFF_FFFF,
    ensures
        final(bus)@ == old(bus)@.cleared(start, len as nat),
        final(bus)@.wf(),
{
    let ghost before = bus@;
    let mut i: usize = 0;
    while i < len
        invariant
            i <= len <= 0x7FFF_FFFF,
            bus@.wf(),
            bus@ == before.cleared(start, i as nat),
        decreases len - i,
    {
        proof {
            lemma_stepped_by(start, 1, i as int);
        }
        bus.write_u8(start.wrapping_add(i as u32), 0);
        i = i + 1;
    }
}

/// `SoftReset`: clears the stack area of internal work RAM and restarts the
/// program in ROM, or in external work RAM if the flag byte says so.
pub fn soft_reset(cpu: &mut Cpu, bus: &mut Bus) -> (r: Executed)
    requires
        old(bus)@.wf(),
    ensures
        (Machine { cpu: final(cpu)@, bus: final(bus)@ }) == (Machine {
            cpu: old(cpu)@,
            bus: old(bus)@,
        }).soft_reset(),
        r == (Executed::Branched { extra_cycles: 0 }),
        final(bus)@.wf(),
        final(cpu)@.cycles == old(cpu)@.cycles,
{
    let to_ewram: bool = bus.read_u8(RESET_FLAG) != 0;
    clear_region(bus, RESET_CLEAR_START, RESET_CLEAR_LEN);
    if to_ewram {
        cpu.enter_soft_reset(EWRAM_START);
    } else {
        cpu.enter_soft_reset(ROM_START);
    }
    Executed::Branched { extra_cycles: 0 }
}

/// `RegisterRamReset`: clears the regions that the low bits of `r0` select.
pub fn register_ram_reset(cpu: &mut Cpu, bus: &mut Bus)
    requires
        old(bus)@.wf(),
    ensures
        final(cpu)@ == old(cpu)@,
        final(bus)@ == old(bus)@.ram_reset(old(cpu)@.r[0]),
        final(bus)@.wf(),
{
    let flags: u32 = cpu.reg(0);
    if bit(flags, 0) {
        clear_region(bus, EWRAM_START, EWRAM_SIZE);
    }
    if bit(flags, 1) {
        clear_region(bus, IWRAM_START, IWRAM_SIZE - 0x200);
    }
    if bit(flags, 2) {
        clear_region(bus, PRAM_START, PRAM_SIZE);
    }
    if bit(flags, 3) {
        clear_region(bus, VRAM_START, VRAM_SIZE);
    }
    if bit(flags, 4) {
        clear_region(bus, OAM_START, OAM_SIZE);
    }
}

} // verus!

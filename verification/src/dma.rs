//! The four DMA channels: their registers, the edge that starts a transfer and
//! the plan of what to copy. The copy itself is done by the bus.
//!
//! Only the immediate start mode copies; the other modes stay armed.

use vstd::prelude::*;

use crate::bits::{bit16, half_from_bytes, word_from_bytes};

verus! {

/// Number of channels.
pub const DMA_CHANNELS: usize = 4;

/// I/O offset of the first DMA register.
pub const DMA_IO_BASE: u32 = 0x0B0;

/// End (exclusive) of the DMA registers.
pub const DMA_IO_END: u32 = 0x0E0;

/// Bytes per channel.
pub const CHANNEL_STRIDE: usize = 12;

/// Bytes of all the registers.
pub const DMA_REGS_LEN: usize = 48;

/// Source address, within a channel.
pub const OFF_SAD: usize = 0;

/// Destination address, within a channel.
pub const OFF_DAD: usize = 4;

/// Unit count, within a channel.
pub const OFF_CNT_L: usize = 8;

/// Control, within a channel.
pub const OFF_CNT_H: usize = 10;

/// What a transfer copies.
#[derive(Debug, Clone, Copy, PartialEq, Eq, Structural)]
pub struct DmaTransfer {
    /// Source address, within the reach of the channel and aligned to the unit.
    pub src: u32,
    /// Destination address, likewise.
    pub dst: u32,
    /// Number of units, never zero.
    pub count: u32,
    /// Whether a unit has 32 bits rather than 16.
    pub word: bool,
    /// How far the source moves after each unit.
    pub src_step: i32,
    /// How far the destination moves after each unit.
    pub dst_step: i32,
}

/// How far an address with control mode `ctl` moves after a unit of `unit`
/// bytes: up, down, not at all; mode 3 moves a destination up and is not valid
/// for a source, which then stays.
#[verifier::allow_in_spec]
pub fn addr_step(ctl: u16, unit: u32, is_dst: bool) -> i32
    requires
        unit <= 4,
    returns
        (if ctl == 0 {
            unit as i32
        } else if ctl == 1 {
            (-unit) as i32
        } else if ctl == 2 {
            0
        } else if is_dst {
            unit as i32
        } else {
            0
        }),
{
    let unit: i32 = unit as i32;
    match ctl {
        0 => unit,
        1 => -unit,
        2 => 0,
        _ => {
            if is_dst {
                unit
            } else {
                0
            }
        },
    }
}

/// `addr` rounded down to a multiple of the unit: four bytes, or two.
#[verifier::allow_in_spec]
pub fn aligned(addr: u32, word: bool) -> u32
    returns
        (if word {
            (addr - addr % 4) as u32
        } else {
            (addr - addr % 2) as u32
        }),
{
    if word {
        addr - addr % 4
    } else {
        addr - addr % 2
    }
}

/// The registers and the edge detector as values.
#[verifier::ext_equal]
pub struct DmaState {
    /// The 48 register bytes.
    pub regs: Seq<u8>,
    /// Last enable bit seen in each channel.
    pub latch: Seq<bool>,
    /// Whether a transfer is under way.
    pub running: bool,
}

impl DmaState {
    /// All registers zero.
    pub open spec fn reset() -> DmaState {
        DmaState {
            regs: Seq::new(DMA_REGS_LEN as nat, |i: int| 0u8),
            latch: Seq::new(DMA_CHANNELS as nat, |i: int| false),
            running: false,
        }
    }

    /// Both sequences have their length.
    pub open spec fn wf(self) -> bool {
        self.regs.len() == DMA_REGS_LEN && self.latch.len() == DMA_CHANNELS
    }

    /// The byte that a read at I/O offset `off` sees: only the control bytes
    /// are readable.
    pub open spec fn read8(self, off: u32) -> u8 {
        if DMA_IO_BASE <= off < DMA_IO_END && (off - DMA_IO_BASE) % 12 >= 10 {
            self.regs[off - DMA_IO_BASE]
        } else {
            0
        }
    }

    /// The registers after writing `value` at I/O offset `off`.
    pub open spec fn write8(self, off: u32, value: u8) -> DmaState {
        if DMA_IO_BASE <= off < DMA_IO_END {
            DmaState { regs: self.regs.update(off - DMA_IO_BASE, value), ..self }
        } else {
            self
        }
    }

    /// The 16-bit register at `off` of channel `ch`.
    pub open spec fn reg16(self, ch: int, off: int) -> u16 {
        half_from_bytes(self.regs[ch * 12 + off], self.regs[ch * 12 + off + 1])
    }

    /// The 32-bit register at `off` of channel `ch`.
    pub open spec fn reg32(self, ch: int, off: int) -> u32 {
        word_from_bytes(
            self.regs[ch * 12 + off],
            self.regs[ch * 12 + off + 1],
            self.regs[ch * 12 + off + 2],
            self.regs[ch * 12 + off + 3],
        )
    }

    /// The control register of channel `ch`; zero for a channel that does not
    /// exist.
    pub open spec fn control(self, ch: int) -> u16 {
        if 0 <= ch < DMA_CHANNELS {
            self.reg16(ch, 10)
        } else {
            0
        }
    }

    /// Whether the enable bit of channel `ch` just rose in immediate mode.
    pub open spec fn triggers(self, ch: int) -> bool {
        &&& 0 <= ch < DMA_CHANNELS
        &&& bit16(self.control(ch), 15)
        &&& !self.latch[ch]
        &&& (self.control(ch) >> 12) & 3 == 0
    }

    /// With the enable bit of channel `ch` remembered.
    pub open spec fn latched(self, ch: int) -> DmaState {
        if 0 <= ch < DMA_CHANNELS {
            DmaState { latch: self.latch.update(ch, bit16(self.control(ch), 15)), ..self }
        } else {
            self
        }
    }

    /// Whether channel `ch` asks for an interrupt at the end of a transfer.
    pub open spec fn irq_on_end(self, ch: int) -> bool {
        bit16(self.control(ch), 14)
    }

    /// The number of units that a count of zero stands for.
    pub open spec fn count_limit(ch: int) -> u32 {
        if ch == 3 {
            0x1_0000
        } else {
            0x4000
        }
    }

    /// The count register of channel `ch`, reduced to the bits it has.
    pub open spec fn raw_count(self, ch: int) -> u32 {
        if ch == 3 {
            self.reg16(ch, 8) as u32
        } else {
            self.reg16(ch, 8) as u32 % 0x4000
        }
    }

    /// What channel `ch` is set up to copy. Channel 0 reads, and channels 0 to
    /// 2 write, internal memory only.
    pub open spec fn plan(self, ch: int) -> DmaTransfer {
        let control = self.control(ch);
        let word = bit16(control, 10);
        let unit = if word {
            4u32
        } else {
            2u32
        };
        let src = if ch == 0 {
            self.reg32(ch, 0) % 0x0800_0000
        } else {
            self.reg32(ch, 0) % 0x1000_0000
        };
        let dst = if ch == 3 {
            self.reg32(ch, 4) % 0x1000_0000
        } else {
            self.reg32(ch, 4) % 0x0800_0000
        };
        DmaTransfer {
            src: aligned(src, word),
            dst: aligned(dst, word),
            count: if self.raw_count(ch) == 0 {
                DmaState::count_limit(ch)
            } else {
                self.raw_count(ch)
            },
            word,
            src_step: addr_step((control >> 7) & 3, unit, false),
            dst_step: addr_step((control >> 5) & 3, unit, true),
        }
    }

    /// With the enable bit and the latch of channel `ch` cleared.
    pub open spec fn finish_immediate(self, ch: int) -> DmaState {
        if 0 <= ch < DMA_CHANNELS {
            DmaState {
                regs: self.regs.update(ch * 12 + 11, self.regs[ch * 12 + 11] % 0x80),
                latch: self.latch.update(ch, false),
                ..self
            }
        } else {
            self
        }
    }
}

/// The DMA controller.
pub struct Dma {
    regs: [u8; 48],
    enabled_latch: [bool; 4],
    running: bool,
}

impl View for Dma {
    type V = DmaState;

    closed spec fn view(&self) -> DmaState {
        DmaState { regs: self.regs@, latch: self.enabled_latch@, running: self.running }
    }
}

impl Dma {
    /// All registers zero and no channel active.
    pub fn new() -> (r: Self)
        ensures
            r@ == DmaState::reset(),
            r@.wf(),
    {
        Dma { regs: [0; 48], enabled_latch: [false; 4], running: false }
    }

    /// Whether the I/O offset belongs to a DMA register.
    #[verifier::allow_in_spec]
    pub fn in_range(io_off: u32) -> bool
        returns
            DMA_IO_BASE <= io_off && io_off < DMA_IO_END,
    {
        DMA_IO_BASE <= io_off && io_off < DMA_IO_END
    }

    /// Whether a write of `width` bytes at the I/O offset reaches a DMA
    /// register.
    #[verifier::allow_in_spec]
    pub fn touches(io_off: u32, width: u32) -> bool
        requires
            io_off < DMA_IO_END ==> io_off + width <= u32::MAX,
        returns
            io_off < DMA_IO_END && io_off + width > DMA_IO_BASE,
    {
        io_off < DMA_IO_END && io_off + width > DMA_IO_BASE
    }

    /// Reads a byte. Addresses and counts are write-only and read as zero.
    pub fn read_u8(&self, io_off: u32) -> (r: u8)
        ensures
            r == self@.read8(io_off),
    {
        if DMA_IO_BASE <= io_off && io_off < DMA_IO_END {
            let local: usize = (io_off - DMA_IO_BASE) as usize;
            if local % CHANNEL_STRIDE >= OFF_CNT_H {
                self.regs[local]
            } else {
                0
            }
        } else {
            0
        }
    }

    /// Stores a byte. This starts no transfer: see [`Dma::poll_channel`].
    pub fn write_u8(&mut self, io_off: u32, value: u8)
        ensures
            final(self)@ == old(self)@.write8(io_off, value),
            final(self)@.wf(),
    {
        if DMA_IO_BASE <= io_off && io_off < DMA_IO_END {
            self.regs[(io_off - DMA_IO_BASE) as usize] = value;
        }
    }

    /// Whether a transfer is under way.
    pub fn is_running(&self) -> (r: bool)
        ensures
            r == self@.running,
    {
        self.running
    }

    /// Marks the start of a transfer.
    pub fn begin(&mut self)
        ensures
            final(self)@ == (DmaState { running: true, ..old(self)@ }),
            final(self)@.wf(),
    {
        self.running = true;
    }

    /// Marks the end of a transfer.
    pub fn end(&mut self)
        ensures
            final(self)@ == (DmaState { running: false, ..old(self)@ }),
            final(self)@.wf(),
    {
        self.running = false;
    }

    /// Remembers the enable bit of channel `ch` and says whether a transfer
    /// starts now: the bit just rose and the start mode is immediate.
    pub fn poll_channel(&mut self, ch: usize) -> (r: bool)
        ensures
            r == old(self)@.triggers(ch as int),
            final(self)@ == old(self)@.latched(ch as int),
            final(self)@.wf(),
    {
        if ch >= DMA_CHANNELS {
            return false;
        }
        let control: u16 = self.control(ch);
        let enable: bool = bit16(control, 15);
        let was_enabled: bool = self.enabled_latch[ch];
        self.enabled_latch[ch] = enable;
        enable && !was_enabled && (control >> 12) & 3 == 0
    }

    /// What channel `ch` is set up to copy: a count of zero stands for the
    /// largest one.
    pub fn plan(&self, ch: usize) -> (r: DmaTransfer)
        requires
            ch < DMA_CHANNELS,
        ensures
            r == self@.plan(ch as int),
    {
        let control: u16 = self.control(ch);
        let word: bool = bit16(control, 10);
        let unit: u32 = if word {
            4
        } else {
            2
        };
        let sad: u32 = self.reg_u32(ch, OFF_SAD);
        let dad: u32 = self.reg_u32(ch, OFF_DAD);
        let src: u32 = if ch == 0 {
            sad % 0x0800_0000
        } else {
            sad % 0x1000_0000
        };
        let dst: u32 = if ch == 3 {
            dad % 0x1000_0000
        } else {
            dad % 0x0800_0000
        };
        let limit: u32 = if ch == 3 {
            0x1_0000
        } else {
            0x4000
        };
        let cnt_l: u32 = self.reg_u16(ch, OFF_CNT_L) as u32;
        let raw_count: u32 = if ch == 3 {
            cnt_l
        } else {
            cnt_l % 0x4000
        };
        DmaTransfer {
            src: aligned(src, word),
            dst: aligned(dst, word),
            count: if raw_count == 0 {
                limit
            } else {
                raw_count
            },
            word,
            src_step: addr_step((control >> 7) & 3, unit, false),
            dst_step: addr_step((control >> 5) & 3, unit, true),
        }
    }

    /// Ends an immediate transfer: the channel is disabled, so that enabling it
    /// again starts another one.
    pub fn finish_immediate(&mut self, ch: usize)
        ensures
            final(self)@ == old(self)@.finish_immediate(ch as int),
            final(self)@.wf(),
    {
        if ch < DMA_CHANNELS {
            let hi_byte: usize = ch * CHANNEL_STRIDE + OFF_CNT_H + 1;
            self.regs[hi_byte] = self.regs[hi_byte] % 0x80;
            self.enabled_latch[ch] = false;
        }
    }

    /// Whether channel `ch` asks for an interrupt at the end of a transfer.
    pub fn irq_on_end(&self, ch: usize) -> (r: bool)
        ensures
            r == self@.irq_on_end(ch as int),
    {
        bit16(self.control(ch), 14)
    }

    /// The control register of channel `ch`; zero for a channel that does not
    /// exist.
    pub fn control(&self, ch: usize) -> (r: u16)
        ensures
            r == self@.control(ch as int),
    {
        if ch < DMA_CHANNELS {
            self.reg_u16(ch, OFF_CNT_H)
        } else {
            0
        }
    }

    fn reg_u16(&self, ch: usize, off: usize) -> (r: u16)
        requires
            ch < DMA_CHANNELS,
            off <= 10,
        ensures
            r == self@.reg16(ch as int, off as int),
    {
        let i: usize = ch * CHANNEL_STRIDE + off;
        half_from_bytes(self.regs[i], self.regs[i + 1])
    }

    fn reg_u32(&self, ch: usize, off: usize) -> (r: u32)
        requires
            ch < DMA_CHANNELS,
            off <= 8,
        ensures
            r == self@.reg32(ch as int, off as int),
    {
        let i: usize = ch * CHANNEL_STRIDE + off;
        word_from_bytes(self.regs[i], self.regs[i + 1], self.regs[i + 2], self.regs[i + 3])
    }
}

impl Default for Dma {
    fn default() -> (r: Self)
        ensures
            r@ == DmaState::reset(),
    {
        Dma::new()
    }
}

/// The registers and latches of a controller always have their sizes.
pub proof fn law_dma_sizes(dma: &Dma)
    ensures
        dma@.wf(),
{
}

/// A transfer is bounded by the hardware, whatever the registers hold: at least
/// one unit and at most 0x4000 (0x10000 in channel 3), from and to addresses
/// that are aligned to the unit and within the reach of the channel.
#[verifier::spinoff_prover]
pub proof fn law_plan_is_bounded(dma: DmaState, ch: int)
    requires
        0 <= ch < DMA_CHANNELS,
    ensures
        ({
            let plan = dma.plan(ch);
            let unit = if plan.word {
                4int
            } else {
                2int
            };
            &&& 1 <= plan.count <= 0x1_0000
            &&& ch != 3 ==> plan.count <= 0x4000
            &&& plan.word ==> plan.src % 4 == 0 && plan.dst % 4 == 0
            &&& plan.src % 2 == 0 && plan.dst % 2 == 0
            &&& plan.src < 0x1000_0000
            &&& plan.dst < 0x1000_0000
            &&& ch == 0 ==> plan.src < 0x0800_0000
            &&& ch != 3 ==> plan.dst < 0x0800_0000
            &&& -unit <= plan.src_step <= unit
            &&& -unit <= plan.dst_step <= unit
        }),
{
    let src = if ch == 0 {
        dma.reg32(ch, 0) % 0x0800_0000
    } else {
        dma.reg32(ch, 0) % 0x1000_0000
    };
    let dst = if ch == 3 {
        dma.reg32(ch, 4) % 0x1000_0000
    } else {
        dma.reg32(ch, 4) % 0x0800_0000
    };
    lemma_aligned(src, dma.plan(ch).word);
    lemma_aligned(dst, dma.plan(ch).word);
}

proof fn lemma_aligned(addr: u32, word: bool)
    ensures
        aligned(addr, word) <= addr,
        aligned(addr, word) % 2 == 0,
        word ==> aligned(addr, word) % 4 == 0,
{
}

/// A transfer starts on the rising edge only: right after a channel was looked
/// at it does not trigger again, and once it has finished, its enable bit is
/// clear and the next rise counts as an edge.
pub proof fn law_trigger_is_an_edge(dma: DmaState, ch: int)
    requires
        dma.wf(),
        0 <= ch < DMA_CHANNELS,
    ensures
        !dma.latched(ch).triggers(ch),
        !bit16(dma.finish_immediate(ch).control(ch), 15),
        !dma.finish_immediate(ch).latch[ch],
{
    let after = dma.finish_immediate(ch);
    let control = after.control(ch);
    assert(after.regs[ch * 12 + 11] < 0x80);
    assert(control < 0x8000);
    assert(control < 0x8000 ==> (control >> 15) & 1u16 == 0) by (bit_vector);
}

} // verus!

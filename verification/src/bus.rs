//! The memory bus: the memory map and the one place through which everything
//! reads and writes.
//!
//! The top byte of an address selects the region. No address fails: what is not
//! mapped reads as zero, and writes to it and to read-only memory have no
//! effect. Reads of 16 and 32 bits from unaligned addresses give the aligned
//! value rotated; writes align the address.
//!
//! The I/O region holds the registers of the DMA, the interrupt controller, the
//! serial port and the timers; the rest of it is plain storage. Writing a DMA
//! control register with 16 or 32 bits may start a copy, which the bus carries
//! out at once.

use vstd::prelude::*;

use crate::bits::{half_from_bytes, offset_by, rotate_right, word_from_bytes};
use crate::dma::{Dma, DmaState, DmaTransfer, DMA_CHANNELS};
use crate::interrupt::{Interrupt, InterruptControl, IrqState};
use crate::scheduler::{Scheduler, SchedulerState};
use crate::sio::{Sio, SioState};
use crate::timers::{Timer, TimerBoard, Timers, NUM_TIMERS};

verus! {

/// A hardware event with its own moment in time.
#[derive(Debug, Clone, Copy, PartialEq, Eq, Structural)]
pub enum Event {
    /// A timer overflows.
    TimerOverflow {
        /// Which timer, 0 to 3.
        timer: usize,
        /// The cycle for which the overflow was scheduled.
        at: u64,
    },
}

/// What an address that is not mapped reads as.
pub const OPEN_BUS: u8 = 0;

/// Start of the BIOS.
pub const BIOS_START: u32 = 0x0000_0000;

/// Start of the external work RAM.
pub const EWRAM_START: u32 = 0x0200_0000;

/// Start of the internal work RAM.
pub const IWRAM_START: u32 = 0x0300_0000;

/// Start of the I/O registers.
pub const IO_START: u32 = 0x0400_0000;

/// Start of the palette RAM.
pub const PRAM_START: u32 = 0x0500_0000;

/// Start of the video RAM.
pub const VRAM_START: u32 = 0x0600_0000;

/// Start of the sprite attribute memory.
pub const OAM_START: u32 = 0x0700_0000;

/// Start of the cartridge ROM.
pub const ROM_START: u32 = 0x0800_0000;

/// Start of the cartridge save memory.
pub const SRAM_START: u32 = 0x0E00_0000;

/// Size of the BIOS: 16 KiB.
pub const BIOS_SIZE: usize = 0x4000;

/// Size of the external work RAM: 256 KiB.
pub const EWRAM_SIZE: usize = 0x4_0000;

/// Size of the internal work RAM: 32 KiB.
pub const IWRAM_SIZE: usize = 0x8000;

/// Size of the I/O registers: 1 KiB.
pub const IO_SIZE: usize = 0x400;

/// Size of the palette RAM: 1 KiB.
pub const PRAM_SIZE: usize = 0x400;

/// Size of the video RAM: 96 KiB.
pub const VRAM_SIZE: usize = 0x1_8000;

/// Size of the sprite attribute memory: 1 KiB.
pub const OAM_SIZE: usize = 0x400;

/// Width of a memory access.
#[derive(Debug, Clone, Copy, PartialEq, Eq, Structural)]
pub enum AccessWidth {
    /// 8 bits.
    Byte,
    /// 16 bits.
    Half,
    /// 32 bits.
    Word,
}

/// The byte of `mem` at `off`, or zero when there is none.
pub open spec fn byte_at(mem: Seq<u8>, off: int) -> u8 {
    if 0 <= off < mem.len() {
        mem[off]
    } else {
        OPEN_BUS
    }
}

/// `mem` with the byte at `off` set to `value`, if there is one.
pub open spec fn with_byte(mem: Seq<u8>, off: int, value: u8) -> Seq<u8> {
    if 0 <= off < mem.len() {
        mem.update(off, value)
    } else {
        mem
    }
}

/// Offset in video RAM of an address in its region. The region repeats every
/// 128 KiB, and in each repetition the last 32 KiB mirror the 32 KiB before.
#[verifier::allow_in_spec]
pub fn vram_offset(addr: u32) -> usize
    returns
        (if addr % 0x2_0000 >= 0x1_8000 {
            (addr % 0x2_0000 - 0x8000) as usize
        } else {
            (addr % 0x2_0000) as usize
        }),
{
    let offset: usize = (addr % 0x2_0000) as usize;
    if offset >= 0x1_8000 {
        offset - 0x8000
    } else {
        offset
    }
}

/// Bus width and wait states of a region.
#[derive(Debug, Clone, Copy, PartialEq, Eq, Structural)]
pub struct RegionTiming {
    /// Whether the region has a 16-bit bus.
    pub bus16: bool,
    /// Wait states of a non-sequential access.
    pub wait_n: u32,
    /// Wait states of a sequential access.
    pub wait_s: u32,
}

/// The timing of the region that holds `addr`.
#[verifier::allow_in_spec]
pub fn region_timing(addr: u32) -> RegionTiming
    returns
        (match addr / 0x100_0000 {
            0x05 => RegionTiming { bus16: true, wait_n: 0, wait_s: 0 },
            0x06 => RegionTiming { bus16: true, wait_n: 0, wait_s: 0 },
            0x02 => RegionTiming { bus16: true, wait_n: 2, wait_s: 2 },
            region => if 0x08 <= region <= 0x0D {
                RegionTiming { bus16: true, wait_n: 4, wait_s: 2 }
            } else {
                RegionTiming { bus16: false, wait_n: 0, wait_s: 0 }
            },
        }),
{
    let region: u32 = addr / 0x100_0000;
    if region == 0x05 || region == 0x06 {
        RegionTiming { bus16: true, wait_n: 0, wait_s: 0 }
    } else if region == 0x02 {
        RegionTiming { bus16: true, wait_n: 2, wait_s: 2 }
    } else if 0x08 <= region && region <= 0x0D {
        RegionTiming { bus16: true, wait_n: 4, wait_s: 2 }
    } else {
        RegionTiming { bus16: false, wait_n: 0, wait_s: 0 }
    }
}

/// The cycles of a memory access. A 32-bit access to a region with a 16-bit bus
/// takes two, the second one sequential.
pub open spec fn cycles_of_access(addr: u32, width: AccessWidth, seq: bool) -> u32 {
    let t = region_timing(addr);
    let first = 1 + if seq {
        t.wait_s
    } else {
        t.wait_n
    };
    if width == AccessWidth::Word && t.bus16 {
        (first + 1 + t.wait_s) as u32
    } else {
        first as u32
    }
}

/// Everything behind the bus, as values.
#[verifier::ext_equal]
pub struct BusState {
    /// BIOS.
    pub bios: Seq<u8>,
    /// External work RAM.
    pub ewram: Seq<u8>,
    /// Internal work RAM.
    pub iwram: Seq<u8>,
    /// I/O registers without behaviour of their own.
    pub io: Seq<u8>,
    /// Palette RAM.
    pub pram: Seq<u8>,
    /// Video RAM.
    pub vram: Seq<u8>,
    /// Sprite attributes.
    pub oam: Seq<u8>,
    /// Cartridge ROM.
    pub rom: Seq<u8>,
    /// DMA controller.
    pub dma: DmaState,
    /// Interrupt controller.
    pub irq: IrqState,
    /// Serial port.
    pub sio: SioState,
    /// Timers.
    pub timers: Seq<Timer>,
    /// Clock and pending events.
    pub sched: SchedulerState<Event>,
    /// Whether a real BIOS was loaded.
    pub bios_loaded: bool,
}

/// The address of unit `k` of a run that starts at `start` and moves by `step`.
pub open spec fn stepped(start: u32, step: int, k: int) -> u32 {
    ((start + k * step) % 0x1_0000_0000) as u32
}

impl BusState {
    /// The regions have their sizes and the devices are well formed.
    pub open spec fn wf(self) -> bool {
        &&& self.bios.len() == BIOS_SIZE
        &&& self.ewram.len() == EWRAM_SIZE
        &&& self.iwram.len() == IWRAM_SIZE
        &&& self.io.len() == IO_SIZE
        &&& self.pram.len() == PRAM_SIZE
        &&& self.vram.len() == VRAM_SIZE
        &&& self.oam.len() == OAM_SIZE
        &&& self.dma.wf()
        &&& self.sio.wf()
        &&& self.board().wf()
    }

    /// The timers with their event queue.
    pub open spec fn board(self) -> TimerBoard {
        crate::timers::board(self.timers, self.sched)
    }

    /// With the timers and the queue replaced.
    pub open spec fn with_board(self, board: TimerBoard) -> BusState {
        BusState { timers: board.timers, sched: board.sched, ..self }
    }

    /// All memory zero, `rom` in place, and the interrupt handler of the
    /// built-in BIOS installed.
    pub open spec fn power_on(rom: Seq<u8>) -> BusState {
        BusState {
            bios: crate::irq_stub::stub_bios(),
            ewram: Seq::new(EWRAM_SIZE as nat, |i: int| 0u8),
            iwram: Seq::new(IWRAM_SIZE as nat, |i: int| 0u8),
            io: Seq::new(IO_SIZE as nat, |i: int| 0u8),
            pram: Seq::new(PRAM_SIZE as nat, |i: int| 0u8),
            vram: Seq::new(VRAM_SIZE as nat, |i: int| 0u8),
            oam: Seq::new(OAM_SIZE as nat, |i: int| 0u8),
            rom,
            dma: DmaState::reset(),
            irq: IrqState::reset(),
            sio: SioState::reset(),
            timers: Seq::new(NUM_TIMERS as nat, |i: int| Timer::new()),
            sched: SchedulerState::reset(),
            bios_loaded: false,
        }
    }

    /// With a BIOS image loaded. What the image does not cover stays.
    pub open spec fn with_bios(self, image: Seq<u8>) -> BusState {
        BusState {
            bios: Seq::new(
                BIOS_SIZE as nat,
                |i: int|
                    if i < image.len() {
                        image[i]
                    } else {
                        self.bios[i]
                    },
            ),
            bios_loaded: true,
            ..self
        }
    }

    /// The I/O byte at offset `off`.
    pub open spec fn read_io(self, off: u32) -> u8 {
        if Dma::in_range(off) {
            self.dma.read8(off)
        } else if InterruptControl::handles(off) {
            self.irq.read8(off)
        } else if Sio::handles(off) {
            self.sio.read8(off)
        } else if Timers::handles(off) {
            crate::timers::read_byte(self.timers, off, self.sched.now)
        } else {
            byte_at(self.io, off as int)
        }
    }

    /// The byte at `addr`.
    #[verifier::opaque]
    pub open spec fn read8(self, addr: u32) -> u8 {
        match addr / 0x100_0000 {
            0x00 => byte_at(self.bios, addr as int),
            0x02 => byte_at(self.ewram, (addr % 0x4_0000) as int),
            0x03 => byte_at(self.iwram, (addr % 0x8000) as int),
            0x04 => self.read_io((addr % 0x100_0000) as u32),
            0x05 => byte_at(self.pram, (addr % 0x400) as int),
            0x06 => byte_at(self.vram, vram_offset(addr) as int),
            0x07 => byte_at(self.oam, (addr % 0x400) as int),
            region => if 0x08 <= region <= 0x0D {
                byte_at(self.rom, (addr % 0x200_0000) as int)
            } else {
                OPEN_BUS
            },
        }
    }

    /// The halfword at `addr`; from an odd address its bytes are swapped.
    pub open spec fn read16(self, addr: u32) -> u16 {
        let base = addr - addr % 2;
        let b0 = self.read8(base as u32);
        let b1 = self.read8((base + 1) as u32);
        if addr % 2 == 0 {
            half_from_bytes(b0, b1)
        } else {
            half_from_bytes(b1, b0)
        }
    }

    /// The word at `addr`; from an unaligned address it is rotated right by
    /// eight bits for each byte of misalignment.
    pub open spec fn read32(self, addr: u32) -> u32 {
        let base = addr - addr % 4;
        rotate_right(
            word_from_bytes(
                self.read8(base as u32),
                self.read8((base + 1) as u32),
                self.read8((base + 2) as u32),
                self.read8((base + 3) as u32),
            ),
            (8 * (addr % 4)) as u32,
        )
    }

    /// After writing the I/O byte at offset `off`.
    pub open spec fn write_io(self, off: u32, value: u8) -> BusState {
        if Dma::in_range(off) {
            BusState { dma: self.dma.write8(off, value), ..self }
        } else if InterruptControl::handles(off) {
            BusState { irq: self.irq.write8(off, value), ..self }
        } else if Sio::handles(off) {
            BusState { sio: self.sio.write8(off, value), ..self }
        } else if Timers::handles(off) {
            self.with_board(self.board().write8(off, value, self.sched.now))
        } else {
            BusState { io: with_byte(self.io, off as int, value), ..self }
        }
    }

    /// After writing the byte at `addr`. ROM, BIOS and unmapped addresses
    /// ignore it.
    #[verifier::opaque]
    pub open spec fn write8(self, addr: u32, value: u8) -> BusState {
        match addr / 0x100_0000 {
            0x02 => BusState { ewram: with_byte(self.ewram, (addr % 0x4_0000) as int, value), ..self },
            0x03 => BusState { iwram: with_byte(self.iwram, (addr % 0x8000) as int, value), ..self },
            0x04 => self.write_io((addr % 0x100_0000) as u32, value),
            0x05 => BusState { pram: with_byte(self.pram, (addr % 0x400) as int, value), ..self },
            0x06 => BusState {
                vram: with_byte(self.vram, vram_offset(addr) as int, value),
                ..self
            },
            0x07 => BusState { oam: with_byte(self.oam, (addr % 0x400) as int, value), ..self },
            _ => self,
        }
    }

    /// After storing the two bytes of `value` at `addr`, aligned.
    pub open spec fn store16(self, addr: u32, value: u16) -> BusState {
        let base = addr - addr % 2;
        self.write8(base as u32, (value % 0x100) as u8).write8(
            (base + 1) as u32,
            (value / 0x100) as u8,
        )
    }

    /// After storing the four bytes of `value` at `addr`, aligned.
    pub open spec fn store32(self, addr: u32, value: u32) -> BusState {
        let base = addr - addr % 4;
        self.write8(base as u32, crate::bits::byte_of(value, 0)).write8(
            (base + 1) as u32,
            crate::bits::byte_of(value, 1),
        ).write8((base + 2) as u32, crate::bits::byte_of(value, 2)).write8(
            (base + 3) as u32,
            crate::bits::byte_of(value, 3),
        )
    }

    /// After copying the first `n` units of a transfer.
    pub open spec fn dma_copy(self, t: DmaTransfer, n: nat) -> BusState
        decreases n,
    {
        if n == 0 {
            self
        } else {
            let k = (n - 1) as nat;
            let before = self.dma_copy(t, k);
            let src = stepped(t.src, t.src_step as int, k as int);
            let dst = stepped(t.dst, t.dst_step as int, k as int);
            if t.word {
                before.store32(dst, before.read32(src))
            } else {
                before.store16(dst, before.read16(src))
            }
        }
    }

    /// After the whole transfer of channel `ch`: the copy, then the channel
    /// disabled, then its interrupt if it asks for one.
    pub open spec fn run_dma(self, ch: int) -> BusState {
        let t = self.dma.plan(ch);
        let started = BusState { dma: DmaState { running: true, ..self.dma }, ..self };
        let copied = started.dma_copy(t, t.count as nat);
        let stopped = BusState {
            dma: (DmaState { running: false, ..copied.dma }).finish_immediate(ch),
            ..copied
        };
        if copied.dma.irq_on_end(ch) {
            BusState { irq: stopped.irq.request(Interrupt::dma(ch as usize)), ..stopped }
        } else {
            stopped
        }
    }

    /// After looking at the channels from `ch` on and running those whose
    /// enable bit just rose.
    pub open spec fn poll_channels(self, ch: int) -> BusState
        decreases DMA_CHANNELS - ch,
    {
        if 0 <= ch < DMA_CHANNELS {
            let latched = BusState { dma: self.dma.latched(ch), ..self };
            if self.dma.triggers(ch) {
                latched.run_dma(ch).poll_channels(ch + 1)
            } else {
                latched.poll_channels(ch + 1)
            }
        } else {
            self
        }
    }

    /// After a write of `width` bytes at `addr`: one that reached a DMA
    /// register may have started a transfer, unless one is under way.
    #[verifier::opaque]
    pub open spec fn after_write(self, addr: u32, width: u32) -> BusState {
        if addr / 0x100_0000 == 0x04 && Dma::touches((addr % 0x100_0000) as u32, width)
            && !self.dma.running {
            self.poll_channels(0)
        } else {
            self
        }
    }

    /// After writing the halfword at `addr`, aligned.
    pub open spec fn write16(self, addr: u32, value: u16) -> BusState {
        self.store16(addr, value).after_write((addr - addr % 2) as u32, 2)
    }

    /// After writing the word at `addr`, aligned.
    pub open spec fn write32(self, addr: u32, value: u32) -> BusState {
        self.store32(addr, value).after_write((addr - addr % 4) as u32, 4)
    }

    /// With the clock moved to `cycle`.
    pub open spec fn advanced(self, cycle: u64) -> BusState {
        BusState { sched: self.sched.advance_to(cycle), ..self }
    }

    /// After handing the next due event to its device; the same when none is
    /// due.
    pub open spec fn delivered(self) -> BusState {
        if self.sched.due() {
            match self.sched.queue[0].1 {
                Event::TimerOverflow { timer, at } => {
                    let popped = BusState { sched: self.sched.popped(), ..self };
                    let (board, irq) = popped.board().on_overflow(popped.irq, timer as int, at);
                    BusState { irq, ..popped.with_board(board) }
                },
            }
        } else {
            self
        }
    }

    /// After handing out the next `n` due events.
    pub open spec fn delivered_n(self, n: nat) -> BusState
        decreases n,
    {
        if n == 0 {
            self
        } else {
            self.delivered_n((n - 1) as nat).delivered()
        }
    }

    /// Whether `after` is this state with all events due at its clock handed
    /// out, in order, and no others.
    pub open spec fn drains_to(self, after: BusState) -> bool {
        exists|n: nat| #[trigger] self.drains_in(n, after)
    }

    /// Whether handing out `n` events, each of them due, leads to `after`,
    /// where none is due.
    pub open spec fn drains_in(self, n: nat, after: BusState) -> bool {
        &&& after == self.delivered_n(n)
        &&& !after.sched.due()
        &&& forall|k: nat| k < n ==> (#[trigger] self.delivered_n(k)).sched.due()
    }

    /// The cycle of the next event, if some timer could wake the processor.
    pub open spec fn next_wakeup(self) -> Option<u64> {
        if crate::timers::some_wakes(self.timers, self.irq) {
            self.sched.next_event_cycle()
        } else {
            None
        }
    }
}

/// The memory bus.
pub struct Bus {
    bios: Vec<u8>,
    ewram: Vec<u8>,
    iwram: Vec<u8>,
    io: Vec<u8>,
    pram: Vec<u8>,
    vram: Vec<u8>,
    oam: Vec<u8>,
    rom: Vec<u8>,
    dma: Dma,
    irq: InterruptControl,
    sio: Sio,
    timers: Timers,
    scheduler: Scheduler<Event>,
    bios_loaded: bool,
}

impl View for Bus {
    type V = BusState;

    closed spec fn view(&self) -> BusState {
        BusState {
            bios: self.bios@,
            ewram: self.ewram@,
            iwram: self.iwram@,
            io: self.io@,
            pram: self.pram@,
            vram: self.vram@,
            oam: self.oam@,
            rom: self.rom@,
            dma: self.dma@,
            irq: self.irq@,
            sio: self.sio@,
            timers: self.timers@,
            sched: self.scheduler@,
            bios_loaded: self.bios_loaded,
        }
    }
}

/// The byte of `buf` at `offset`, or zero when there is none.
fn read_at(buf: &Vec<u8>, offset: usize) -> (r: u8)
    ensures
        r == byte_at(buf@, offset as int),
{
    if offset < buf.len() {
        buf[offset]
    } else {
        OPEN_BUS
    }
}

/// Sets the byte of `buf` at `offset`, if there is one.
fn write_at(buf: &mut Vec<u8>, offset: usize, value: u8)
    ensures
        final(buf)@ == with_byte(old(buf)@, offset as int, value),
{
    if offset < buf.len() {
        buf[offset] = value;
    }
}

impl Bus {
    /// A bus with all RAM zero and `rom` in its place. The BIOS region holds
    /// only the built-in interrupt handler; see [`Bus::load_bios`].
    pub fn new(rom: Vec<u8>) -> (r: Self)
        ensures
            r@ == BusState::power_on(rom@),
            r@.wf(),
    {
        let mut bios: Vec<u8> = vec![0; BIOS_SIZE];
        crate::irq_stub::install_irq_handler(&mut bios);
        let r = Bus {
            bios,
            ewram: vec![0; EWRAM_SIZE],
            iwram: vec![0; IWRAM_SIZE],
            io: vec![0; IO_SIZE],
            pram: vec![0; PRAM_SIZE],
            vram: vec![0; VRAM_SIZE],
            oam: vec![0; OAM_SIZE],
            rom,
            dma: Dma::new(),
            irq: InterruptControl::new(),
            sio: Sio::new(),
            timers: Timers::new(),
            scheduler: Scheduler::new(),
            bios_loaded: false,
        };
        assert(r@ =~= BusState::power_on(rom@));
        r
    }

    /// Loads a BIOS image. At most [`BIOS_SIZE`] bytes are taken; a shorter
    /// image leaves the rest of the region as it was.
    pub fn load_bios(&mut self, bios: &[u8])
        requires
            old(self)@.wf(),
        ensures
            final(self)@ == old(self)@.with_bios(bios@),
            final(self)@.wf(),
    {
        let n: usize = if bios.len() < BIOS_SIZE {
            bios.len()
        } else {
            BIOS_SIZE
        };
        let ghost before = self@;
        let mut i: usize = 0;
        while i < n
            invariant
                i <= n <= bios@.len(),
                n <= BIOS_SIZE,
                before.wf(),
                self@ == (BusState { bios: self@.bios, ..before }),
                self@.bios.len() == BIOS_SIZE,
                forall|k: int| 0 <= k < i ==> self@.bios[k] == bios@[k],
                forall|k: int| i <= k < BIOS_SIZE ==> self@.bios[k] == before.bios[k],
            decreases n - i,
        {
            self.bios[i] = bios[i];
            i = i + 1;
        }
        self.bios_loaded = true;
        assert(self@ =~= old(self)@.with_bios(bios@));
    }

    /// Whether a real BIOS was loaded.
    pub fn has_bios(&self) -> (r: bool)
        ensures
            r == self@.bios_loaded,
    {
        self.bios_loaded
    }

    /// The cartridge ROM.
    pub fn rom(&self) -> (r: &[u8])
        ensures
            r@ == self@.rom,
    {
        self.rom.as_slice()
    }

    /// Reads a byte. No address fails.
    pub fn read_u8(&self, addr: u32) -> (r: u8)
        ensures
            r == self@.read8(addr),
    {
        reveal(BusState::read8);
        let region: u32 = addr / 0x100_0000;
        match region {
            0x00 => read_at(&self.bios, addr as usize),
            0x02 => read_at(&self.ewram, (addr % 0x4_0000) as usize),
            0x03 => read_at(&self.iwram, (addr % 0x8000) as usize),
            0x04 => {
                let off: u32 = addr % 0x100_0000;
                if Dma::in_range(off) {
                    self.dma.read_u8(off)
                } else if InterruptControl::handles(off) {
                    self.irq.read_u8(off)
                } else if Sio::handles(off) {
                    self.sio.read_u8(off)
                } else if Timers::handles(off) {
                    self.timers.read_u8(off, self.scheduler.now())
                } else {
                    read_at(&self.io, off as usize)
                }
            },
            0x05 => read_at(&self.pram, (addr % 0x400) as usize),
            0x06 => read_at(&self.vram, vram_offset(addr)),
            0x07 => read_at(&self.oam, (addr % 0x400) as usize),
            _ => {
                if 0x08 <= region && region <= 0x0D {
                    read_at(&self.rom, (addr % 0x200_0000) as usize)
                } else {
                    OPEN_BUS
                }
            },
        }
    }

    /// Reads a halfword; from an odd address the two bytes come swapped.
    pub fn read_u16(&self, addr: u32) -> (r: u16)
        ensures
            r == self@.read16(addr),
    {
        let aligned: u32 = addr - addr % 2;
        let lo: u8 = self.read_u8(aligned);
        let hi: u8 = self.read_u8(aligned + 1);
        if addr % 2 == 0 {
            half_from_bytes(lo, hi)
        } else {
            half_from_bytes(hi, lo)
        }
    }

    /// Reads a word; from an unaligned address the aligned word comes rotated.
    pub fn read_u32(&self, addr: u32) -> (r: u32)
        ensures
            r == self@.read32(addr),
    {
        let aligned: u32 = addr - addr % 4;
        let b0: u8 = self.read_u8(aligned);
        let b1: u8 = self.read_u8(aligned + 1);
        let b2: u8 = self.read_u8(aligned + 2);
        let b3: u8 = self.read_u8(aligned + 3);
        rotate_right(word_from_bytes(b0, b1, b2, b3), 8 * (addr % 4))
    }

    /// Writes a byte. Read-only and unmapped addresses ignore it.
    pub fn write_u8(&mut self, addr: u32, value: u8)
        requires
            old(self)@.wf(),
        ensures
            final(self)@ == old(self)@.write8(addr, value),
            final(self)@.wf(),
    {
        reveal(BusState::write8);
        match addr / 0x100_0000 {
            0x02 => write_at(&mut self.ewram, (addr % 0x4_0000) as usize, value),
            0x03 => write_at(&mut self.iwram, (addr % 0x8000) as usize, value),
            0x04 => {
                let off: u32 = addr % 0x100_0000;
                if Dma::in_range(off) {
                    self.dma.write_u8(off, value);
                } else if InterruptControl::handles(off) {
                    self.irq.write_u8(off, value);
                } else if Sio::handles(off) {
                    self.sio.write_u8(off, value);
                } else if Timers::handles(off) {
                    let now: u64 = self.scheduler.now();
                    self.timers.write_u8(off, value, now, &mut self.scheduler);
                } else {
                    write_at(&mut self.io, off as usize, value);
                }
            },
            0x05 => write_at(&mut self.pram, (addr % 0x400) as usize, value),
            0x06 => write_at(&mut self.vram, vram_offset(addr), value),
            0x07 => write_at(&mut self.oam, (addr % 0x400) as usize, value),
            _ => {},
        }
    }

    /// Stores a halfword, aligned, without looking at the DMA.
    fn store_u16(&mut self, addr: u32, value: u16)
        requires
            old(self)@.wf(),
        ensures
            final(self)@ == old(self)@.store16(addr, value),
            final(self)@.wf(),
    {
        let aligned: u32 = addr - addr % 2;
        self.write_u8(aligned, (value % 0x100) as u8);
        self.write_u8(aligned + 1, (value / 0x100) as u8);
    }

    /// Stores a word, aligned, without looking at the DMA.
    fn store_u32(&mut self, addr: u32, value: u32)
        requires
            old(self)@.wf(),
        ensures
            final(self)@ == old(self)@.store32(addr, value),
            final(self)@.wf(),
    {
        let aligned: u32 = addr - addr % 4;
        self.write_u8(aligned, (value % 0x100) as u8);
        self.write_u8(aligned + 1, (value / 0x100 % 0x100) as u8);
        self.write_u8(aligned + 2, (value / 0x1_0000 % 0x100) as u8);
        self.write_u8(aligned + 3, (value / 0x100_0000) as u8);
    }

    /// Writes a halfword, aligned. It may start a DMA transfer.
    pub fn write_u16(&mut self, addr: u32, value: u16)
        requires
            old(self)@.wf(),
        ensures
            final(self)@ == old(self)@.write16(addr, value),
            final(self)@.wf(),
    {
        self.store_u16(addr, value);
        self.after_io_write(addr - addr % 2, 2);
    }

    /// Writes a word, aligned. It may start a DMA transfer.
    pub fn write_u32(&mut self, addr: u32, value: u32)
        requires
            old(self)@.wf(),
        ensures
            final(self)@ == old(self)@.write32(addr, value),
            final(self)@.wf(),
    {
        self.store_u32(addr, value);
        self.after_io_write(addr - addr % 4, 4);
    }

    /// Looks for DMA transfers to start after a write of `width` bytes at
    /// `addr`.
    fn after_io_write(&mut self, addr: u32, width: u32)
        requires
            old(self)@.wf(),
            width <= 4,
        ensures
            final(self)@ == old(self)@.after_write(addr, width),
            final(self)@.wf(),
    {
        reveal(BusState::after_write);
        if addr / 0x100_0000 == 0x04 && Dma::touches(addr % 0x100_0000, width) {
            self.poll_dma_triggers();
        }
    }

    /// Runs the channels whose enable bit just rose, unless a transfer is under
    /// way.
    fn poll_dma_triggers(&mut self)
        requires
            old(self)@.wf(),
        ensures
            final(self)@ == (if old(self)@.dma.running {
                old(self)@
            } else {
                old(self)@.poll_channels(0)
            }),
            final(self)@.wf(),
    {
        if self.dma.is_running() {
            return;
        }
        let ghost before = self@;
        let mut ch: usize = 0;
        while ch < DMA_CHANNELS
            invariant
                ch <= DMA_CHANNELS,
                self@.wf(),
                self@.poll_channels(ch as int) == before.poll_channels(0),
            decreases DMA_CHANNELS - ch,
        {
            if self.dma.poll_channel(ch) {
                self.run_dma_transfer(ch);
            }
            ch = ch + 1;
        }
    }

    /// Copies the units of a transfer one after the other.
    fn copy_units(&mut self, plan: &DmaTransfer)
        requires
            old(self)@.wf(),
        ensures
            final(self)@ == old(self)@.dma_copy(*plan, plan.count as nat),
            final(self)@.wf(),
    {
        let ghost started = self@;
        let mut src: u32 = plan.src;
        let mut dst: u32 = plan.dst;
        let mut i: u32 = 0;
        while i < plan.count
            invariant
                i <= plan.count,
                self@.wf(),
                self@ == started.dma_copy(*plan, i as nat),
                src == stepped(plan.src, plan.src_step as int, i as int),
                dst == stepped(plan.dst, plan.dst_step as int, i as int),
            decreases plan.count - i,
        {
            if plan.word {
                let value: u32 = self.read_u32(src);
                self.store_u32(dst, value);
            } else {
                let value: u16 = self.read_u16(src);
                self.store_u16(dst, value);
            }
            proof {
                lemma_stepped(plan.src, plan.src_step as int, i as int);
                lemma_stepped(plan.dst, plan.dst_step as int, i as int);
            }
            src = offset_by(src, plan.src_step);
            dst = offset_by(dst, plan.dst_step);
            i = i + 1;
        }
    }

    /// Carries out the transfer of channel `ch`. While it runs, writes that hit
    /// a DMA register start nothing.
    fn run_dma_transfer(&mut self, ch: usize)
        requires
            old(self)@.wf(),
            ch < DMA_CHANNELS,
        ensures
            final(self)@ == old(self)@.run_dma(ch as int),
            final(self)@.wf(),
    {
        let plan: DmaTransfer = self.dma.plan(ch);
        self.dma.begin();
        self.copy_units(&plan);
        let ghost copied = self@;
        let raise_irq: bool = self.dma.irq_on_end(ch);
        self.dma.end();
        self.dma.finish_immediate(ch);
        assert(self@ == (BusState {
            dma: (DmaState { running: false, ..copied.dma }).finish_immediate(ch as int),
            ..copied
        }));
        if raise_irq {
            self.request_interrupt(Interrupt::dma(ch));
        }
    }

    /// Marks the interrupt of `source` as requested.
    pub fn request_interrupt(&mut self, source: Interrupt)
        ensures
            final(self)@ == (BusState { irq: old(self)@.irq.request(source), ..old(self)@ }),
    {
        self.irq.request(source);
    }

    /// Whether some enabled interrupt is requested, whatever `IME` says.
    pub fn irq_raised(&self) -> (r: bool)
        ensures
            r == self@.irq.raised(),
    {
        self.irq.raised()
    }

    /// Whether an interrupt is to be served: one is raised and `IME` is on.
    pub fn irq_pending(&self) -> (r: bool)
        ensures
            r == self@.irq.pending(),
    {
        self.irq.pending()
    }

    /// The cycles of a memory access of `width` at `addr`, sequential or not.
    pub fn access_cycles(&self, addr: u32, width: AccessWidth, seq: bool) -> (r: u32)
        ensures
            r == cycles_of_access(addr, width, seq),
            1 <= r <= 8,
    {
        let t: RegionTiming = region_timing(addr);
        let first: u32 = 1 + if seq {
            t.wait_s
        } else {
            t.wait_n
        };
        if width == AccessWidth::Word && t.bus16 {
            first + (1 + t.wait_s)
        } else {
            first
        }
    }

    /// Moves the clock to `cycle` and hands every event that is due to its
    /// device, in order. An earlier cycle leaves the clock where it is.
    pub fn sync_to_cycle(&mut self, cycle: u64)
        requires
            old(self)@.wf(),
        ensures
            old(self)@.advanced(cycle).drains_to(final(self)@),
            final(self)@.wf(),
            final(self)@.sched.now == old(self)@.advanced(cycle).sched.now,
    {
        self.scheduler.advance_to(cycle);
        let ghost start = self@;
        let ghost mut n: nat = 0;
        loop
            invariant
                self@.wf(),
                self@ == start.delivered_n(n),
                self@.sched.now == start.sched.now,
                forall|k: nat| k < n ==> (#[trigger] start.delivered_n(k)).sched.due(),
            ensures
                self@.wf(),
                self@ == start.delivered_n(n),
                self@.sched.now == start.sched.now,
                forall|k: nat| k < n ==> (#[trigger] start.delivered_n(k)).sched.due(),
                !self@.sched.due(),
            decreases crate::scheduler::backlog(self@.sched.queue, start.sched.now),
        {
            let ghost before = self@;
            match self.scheduler.pop_due() {
                None => {
                    break;
                },
                Some(event) => {
                    match event {
                        Event::TimerOverflow { timer, at } => {
                            proof {
                                lemma_popped_board(before);
                                crate::timers::law_overflow_schedules_later(
                                    (BusState { sched: before.sched.popped(), ..before }).board(),
                                    before.irq,
                                    timer as int,
                                    at,
                                );
                            }
                            self.timers.on_overflow(timer, at, &mut self.scheduler, &mut self.irq);
                        },
                    }
                    proof {
                        assert(self@ == before.delivered());
                        crate::scheduler::law_drain_progress(before.sched, self@.sched);
                        n = n + 1;
                    }
                },
            }
        }
        assert(start.drains_in(n, self@));
    }

    /// The cycle of the next event, if some timer could wake a halted
    /// processor.
    pub fn next_wakeup_cycle(&self) -> (r: Option<u64>)
        ensures
            r == self@.next_wakeup(),
    {
        if self.timers.can_wake(&self.irq) {
            self.scheduler.next_event_cycle()
        } else {
            None
        }
    }
}

/// One more step from unit `k` leads to unit `k + 1`.
proof fn lemma_stepped(start: u32, step: int, k: int)
    ensures
        stepped(start, step, 0) == start,
        stepped(start, step, k + 1) == ((stepped(start, step, k) + step) % 0x1_0000_0000) as u32,
{
    assert(0 * step == 0) by (nonlinear_arith);
    assert((k + 1) * step == k * step + step) by (nonlinear_arith);
    let x = start + k * step;
    assert((x % 0x1_0000_0000 + step) % 0x1_0000_0000 == (x + step) % 0x1_0000_0000);
}

/// Taking out the next event keeps the timers and their queue well formed, and
/// the event taken out names a timer and its own cycle.
proof fn lemma_popped_board(b: BusState)
    requires
        b.wf(),
        b.sched.due(),
    ensures
        (BusState { sched: b.sched.popped(), ..b }).board().wf(),
        (BusState { sched: b.sched.popped(), ..b }).wf(),
        b.sched.queue[0].1 matches Event::TimerOverflow { timer, at } && timer < NUM_TIMERS && at
            == b.sched.queue[0].0,
{
    crate::scheduler::law_pop_is_earliest(b.sched);
    assert(b.board().sched.queue[0] == b.sched.queue[0]);
    let after = b.sched.popped();
    assert forall|k: int| #![trigger after.queue[k]] 0 <= k < after.queue.len() implies (
    after.queue[k].1 matches Event::TimerOverflow { timer, at } && timer < NUM_TIMERS && at
        == after.queue[k].0) by {
        assert(after.queue[k] == b.board().sched.queue[k + 1]);
    }
}

} // verus!

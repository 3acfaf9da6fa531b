//! The picture unit: the registers that steer the display, the scan over the
//! lines with its interrupts, and the picture itself, drawn line by line.
//!
//! A line takes [`SCANLINE_CYCLES`] cycles: the visible part, then the
//! horizontal blank. Of the [`TOTAL_SCANLINES`] lines of a picture the first 160
//! are visible; the others are the vertical blank.

use vstd::prelude::*;

use crate::bits::bit16;
use crate::interrupt::{Interrupt, InterruptControl, IrqState, IRQ_MASK};
use crate::ppu_bg::{bitmap_bg_pixel, tiled_bg_pixel, BgRegisters, BgState};
use crate::ppu_color::{compose_pixel, LayerPixel, VideoMemory};
use crate::ppu_obj::{render_obj_line, OAM_ENTRIES};
use crate::{FRAMEBUFFER_SIZE, SCREEN_HEIGHT, SCREEN_WIDTH};

pub use crate::ppu_color::bgr555_to_rgba;

verus! {

/// I/O offset of the display control (two bytes).
pub const DISPCNT_LO: u32 = 0x000;

/// I/O offset of the display status (two bytes).
pub const DISPSTAT_LO: u32 = 0x004;

/// I/O offset of the current line (two bytes, read only).
pub const VCOUNT_LO: u32 = 0x006;

/// I/O offset of the control of background 0; two bytes per background.
pub const BG0CNT_LO: u32 = 0x008;

/// I/O offset of the scroll of background 0; four bytes per background, write
/// only.
pub const BG0HOFS_LO: u32 = 0x010;

/// I/O offset after the scroll registers.
pub const BG_REGS_END: u32 = 0x020;

/// I/O offset of the affine registers of background 2, before those of
/// background 3; 16 bytes each, write only.
pub const AFFINE_REGS_START: u32 = 0x020;

/// I/O offset after the affine registers.
pub const AFFINE_REGS_END: u32 = 0x040;

/// Cycles of the visible part of a line: 240 dots of four cycles.
pub const HDRAW_CYCLES: u64 = 960;

/// Cycles of the horizontal blank of a line: 68 dots of four cycles.
pub const HBLANK_CYCLES: u64 = 272;

/// Cycles of a line.
pub const SCANLINE_CYCLES: u64 = 1232;

/// Lines of a picture, visible or not.
pub const TOTAL_SCANLINES: u16 = 228;

/// Cycles of a picture.
pub const CYCLES_PER_FRAME: u64 = 280_896;

/// The first line of the vertical blank.
pub const FIRST_VBLANK_LINE: u16 = 160;

/// Bytes of a line of the picture.
pub const ROW_BYTES: usize = 960;

/// A halfword with one byte replaced: the low one for an even `n`, the high one
/// for an odd `n`.
#[verifier::allow_in_spec]
pub fn with_half_byte(reg: u16, n: u32, value: u8) -> u16
    returns
        (if n % 2 == 0 {
            (reg / 0x100 * 0x100 + value) as u16
        } else {
            (reg % 0x100 + value * 0x100) as u16
        }),
{
    if n % 2 == 0 {
        reg / 0x100 * 0x100 + value as u16
    } else {
        reg % 0x100 + value as u16 * 0x100
    }
}

/// A word with byte `n` modulo 4 replaced.
#[verifier::allow_in_spec]
pub fn with_word_byte(reg: u32, n: u32, value: u8) -> u32
    returns
        (if n % 4 == 0 {
            (reg / 0x100 * 0x100 + value) as u32
        } else if n % 4 == 1 {
            (reg / 0x1_0000 * 0x1_0000 + value * 0x100 + reg % 0x100) as u32
        } else if n % 4 == 2 {
            (reg / 0x100_0000 * 0x100_0000 + value * 0x1_0000 + reg % 0x1_0000) as u32
        } else {
            (value * 0x100_0000 + reg % 0x100_0000) as u32
        }),
{
    if n % 4 == 0 {
        reg / 0x100 * 0x100 + value as u32
    } else if n % 4 == 1 {
        reg / 0x1_0000 * 0x1_0000 + value as u32 * 0x100 + reg % 0x100
    } else if n % 4 == 2 {
        reg / 0x100_0000 * 0x100_0000 + value as u32 * 0x1_0000 + reg % 0x1_0000
    } else {
        value as u32 * 0x100_0000 + reg % 0x100_0000
    }
}

/// One if `b`, else zero.
#[verifier::allow_in_spec]
pub fn flag(b: bool) -> u8
    returns
        (if b {
            1u8
        } else {
            0u8
        }),
{
    if b {
        1
    } else {
        0
    }
}

/// The display status: three flags that follow the scan, the three interrupts
/// that go with them, and the line to compare with.
#[derive(Clone, Copy, PartialEq, Eq, Structural)]
pub struct DisplayStatus {
    /// The scan is in the vertical blank.
    pub vblank: bool,
    /// The scan is in a horizontal blank.
    pub hblank: bool,
    /// The current line is the one to compare with.
    pub matched: bool,
    /// The start of the vertical blank interrupts.
    pub vblank_irq: bool,
    /// The start of a horizontal blank interrupts.
    pub hblank_irq: bool,
    /// The start of the line to compare with interrupts.
    pub match_irq: bool,
    /// The line to compare with.
    pub lyc: u8,
}

impl DisplayStatus {
    /// The low byte of the register.
    #[verifier::allow_in_spec]
    pub fn low(self) -> u8
        returns
            (flag(self.vblank) + flag(self.hblank) * 2 + flag(self.matched) * 4 + flag(
                self.vblank_irq,
            ) * 8 + flag(self.hblank_irq) * 16 + flag(self.match_irq) * 32) as u8,
    {
        flag(self.vblank) + flag(self.hblank) * 2 + flag(self.matched) * 4 + flag(self.vblank_irq)
            * 8 + flag(self.hblank_irq) * 16 + flag(self.match_irq) * 32
    }

    /// The status after a write to the low byte: the interrupts follow bits 3
    /// to 5, the flags cannot be written.
    #[verifier::allow_in_spec]
    pub fn with_low(self, value: u8) -> DisplayStatus
        returns
            (DisplayStatus {
                vblank_irq: value / 8 % 2 == 1,
                hblank_irq: value / 16 % 2 == 1,
                match_irq: value / 32 % 2 == 1,
                ..self
            }),
    {
        DisplayStatus {
            vblank_irq: value / 8 % 2 == 1,
            hblank_irq: value / 16 % 2 == 1,
            match_irq: value / 32 % 2 == 1,
            ..self
        }
    }
}

/// The background registers after a write to `BGxCNT`, `BGxHOFS`, `BGxVOFS` or
/// the affine block.
pub open spec fn bg_written(bg: BgState, off: u32, value: u8) -> BgState {
    if BG0CNT_LO <= off < BG0HOFS_LO {
        let i = (off - BG0CNT_LO) / 2;
        BgState { cnt: bg.cnt.update(i, with_half_byte(bg.cnt[i], off, value)), ..bg }
    } else if BG0HOFS_LO <= off < BG_REGS_END {
        let i = (off - BG0HOFS_LO) / 4;
        if off % 4 < 2 {
            BgState { hofs: bg.hofs.update(i, with_half_byte(bg.hofs[i], off, value)), ..bg }
        } else {
            BgState { vofs: bg.vofs.update(i, with_half_byte(bg.vofs[i], off, value)), ..bg }
        }
    } else if AFFINE_REGS_START <= off < AFFINE_REGS_END {
        let i = (off - AFFINE_REGS_START) / 16;
        let local = off % 16;
        if local < 2 {
            BgState { pa: bg.pa.update(i, with_half_byte(bg.pa[i], off, value)), ..bg }
        } else if local < 4 {
            BgState { pb: bg.pb.update(i, with_half_byte(bg.pb[i], off, value)), ..bg }
        } else if local < 6 {
            BgState { pc: bg.pc.update(i, with_half_byte(bg.pc[i], off, value)), ..bg }
        } else if local < 8 {
            BgState { pd: bg.pd.update(i, with_half_byte(bg.pd[i], off, value)), ..bg }
        } else if local < 12 {
            BgState { x: bg.x.update(i, with_word_byte(bg.x[i], off, value)), ..bg }
        } else {
            BgState { y: bg.y.update(i, with_word_byte(bg.y[i], off, value)), ..bg }
        }
    } else {
        bg
    }
}

/// The background pixel that a video mode shows. Modes 6 and 7 have none.
pub open spec fn bg_pixel(dispcnt: u16, bg: BgState, mem: VideoMemory, x: int, y: int) -> LayerPixel {
    let mode = dispcnt % 8;
    if mode <= 2 {
        crate::ppu_bg::tiled_pixel(bg, mode, dispcnt, x, y, mem.vram, mem.pram, 0)
    } else if mode <= 5 {
        crate::ppu_bg::bitmap_pixel(bg.cnt[2], mode, dispcnt, x, y, mem.vram, mem.pram)
    } else {
        None
    }
}

/// The sprite pixel, if sprites are shown.
pub open spec fn sprite_layer(dispcnt: u16, mem: VideoMemory, x: int, y: int) -> LayerPixel {
    if bit16(dispcnt, 12) {
        crate::ppu_obj::obj_pixel(mem, bit16(dispcnt, 6), x, y, OAM_ENTRIES as int)
    } else {
        None
    }
}

/// A pixel of the picture as red, green, blue and alpha: white if the display
/// is blanked, else the background and the sprite combined.
#[verifier::opaque]
pub open spec fn picture(dispcnt: u16, bg: BgState, mem: VideoMemory, x: int, y: int) -> Seq<u8> {
    if bit16(dispcnt, 7) {
        seq![0xFFu8, 0xFFu8, 0xFFu8, 0xFFu8]
    } else {
        crate::ppu_color::composed(
            bg_pixel(dispcnt, bg, mem, x, y),
            sprite_layer(dispcnt, mem, x, y),
            mem.pram,
        )
    }
}

/// The picture unit as a value.
#[verifier::ext_equal]
pub struct PpuState {
    /// Display control.
    pub dispcnt: u16,
    /// Display status.
    pub status: DisplayStatus,
    /// The current line.
    pub vcount: u16,
    /// The background registers.
    pub bg: BgState,
    /// The picture, four bytes per pixel.
    pub fb: Seq<u8>,
}

impl PpuState {
    /// All registers zero, the picture black and transparent.
    pub open spec fn reset() -> PpuState {
        PpuState {
            dispcnt: 0,
            status: DisplayStatus {
                vblank: false,
                hblank: false,
                matched: false,
                vblank_irq: false,
                hblank_irq: false,
                match_irq: false,
                lyc: 0,
            },
            vcount: 0,
            bg: BgState {
                cnt: seq![0u16, 0u16, 0u16, 0u16],
                hofs: seq![0u16, 0u16, 0u16, 0u16],
                vofs: seq![0u16, 0u16, 0u16, 0u16],
                pa: seq![0u16, 0u16],
                pb: seq![0u16, 0u16],
                pc: seq![0u16, 0u16],
                pd: seq![0u16, 0u16],
                x: seq![0u32, 0u32],
                y: seq![0u32, 0u32],
            },
            fb: Seq::new(FRAMEBUFFER_SIZE as nat, |k: int| 0u8),
        }
    }

    /// The current line exists, and the picture has its size.
    pub open spec fn wf(self) -> bool {
        &&& self.vcount < TOTAL_SCANLINES
        &&& self.fb.len() == FRAMEBUFFER_SIZE
        &&& self.bg.cnt.len() == 4
        &&& self.bg.hofs.len() == 4
        &&& self.bg.vofs.len() == 4
        &&& self.bg.pa.len() == 2
        &&& self.bg.pb.len() == 2
        &&& self.bg.pc.len() == 2
        &&& self.bg.pd.len() == 2
        &&& self.bg.x.len() == 2
        &&& self.bg.y.len() == 2
    }

    /// The byte at an I/O offset. Scroll and affine registers read as zero.
    pub open spec fn read8(self, off: u32) -> u8 {
        if off == DISPCNT_LO {
            (self.dispcnt % 0x100) as u8
        } else if off == DISPCNT_LO + 1 {
            (self.dispcnt / 0x100) as u8
        } else if off == DISPSTAT_LO {
            self.status.low()
        } else if off == DISPSTAT_LO + 1 {
            self.status.lyc
        } else if off == VCOUNT_LO {
            (self.vcount % 0x100) as u8
        } else if off == VCOUNT_LO + 1 {
            (self.vcount / 0x100) as u8
        } else if BG0CNT_LO <= off < BG0HOFS_LO {
            if off % 2 == 0 {
                (self.bg.cnt[(off - BG0CNT_LO) / 2] % 0x100) as u8
            } else {
                (self.bg.cnt[(off - BG0CNT_LO) / 2] / 0x100) as u8
            }
        } else {
            0
        }
    }

    /// The state after a write at an I/O offset. A new line to compare with is
    /// compared at once, without an interrupt; the current line cannot be
    /// written.
    pub open spec fn write8(self, off: u32, value: u8) -> PpuState {
        if off == DISPCNT_LO || off == DISPCNT_LO + 1 {
            PpuState { dispcnt: with_half_byte(self.dispcnt, off, value), ..self }
        } else if off == DISPSTAT_LO {
            PpuState { status: self.status.with_low(value), ..self }
        } else if off == DISPSTAT_LO + 1 {
            PpuState {
                status: DisplayStatus {
                    lyc: value,
                    matched: self.vcount == value,
                    ..self.status
                },
                ..self
            }
        } else {
            PpuState { bg: bg_written(self.bg, off, value), ..self }
        }
    }

    /// The state in the horizontal blank of the current line.
    pub open spec fn in_hblank(self) -> PpuState {
        PpuState { status: DisplayStatus { hblank: true, ..self.status }, ..self }
    }

    /// The interrupts requested by the start of a horizontal blank.
    pub open spec fn hblank_requests(self, irq: IrqState) -> IrqState {
        if self.status.hblank_irq {
            irq.request(Interrupt::HBlank)
        } else {
            irq
        }
    }

    /// The line after the current one.
    pub open spec fn following(self) -> u16 {
        if self.vcount + 1 >= TOTAL_SCANLINES {
            0
        } else {
            (self.vcount + 1) as u16
        }
    }

    /// The state at the start of the next line. The vertical blank flag is on
    /// from line 160 to the last but one.
    pub open spec fn next_line(self) -> PpuState {
        let line = self.following();
        PpuState {
            vcount: line,
            status: DisplayStatus {
                hblank: false,
                vblank: FIRST_VBLANK_LINE <= line < TOTAL_SCANLINES - 1,
                matched: line == self.status.lyc,
                ..self.status
            },
            ..self
        }
    }

    /// The interrupts requested by the start of the next line.
    pub open spec fn line_requests(self, irq: IrqState) -> IrqState {
        let line = self.following();
        let after_match = if line == self.status.lyc && self.status.match_irq {
            irq.request(Interrupt::VCounter)
        } else {
            irq
        };
        if line == FIRST_VBLANK_LINE && self.status.vblank_irq {
            after_match.request(Interrupt::VBlank)
        } else {
            after_match
        }
    }

    /// Whether an interrupt of the display could wake the processor.
    pub open spec fn can_wake(self, irq: IrqState) -> bool {
        ||| self.status.vblank_irq && irq.is_enabled(Interrupt::VBlank)
        ||| self.status.hblank_irq && irq.is_enabled(Interrupt::HBlank)
        ||| self.status.match_irq && irq.is_enabled(Interrupt::VCounter)
    }

    /// The state after drawing line `y`; lines that are not visible have no
    /// pixels.
    pub open spec fn drawn(self, mem: VideoMemory, y: int) -> PpuState {
        PpuState {
            fb: Seq::new(
                self.fb.len(),
                |k: int|
                    if k / 960 == y {
                        picture(self.dispcnt, self.bg, mem, k % 960 / 4, y)[k % 4]
                    } else {
                        self.fb[k]
                    },
            ),
            ..self
        }
    }

    /// The state after drawing the whole picture.
    pub open spec fn framed(self, mem: VideoMemory) -> PpuState {
        PpuState {
            fb: Seq::new(
                self.fb.len(),
                |k: int| picture(self.dispcnt, self.bg, mem, k % 960 / 4, k / 960)[k % 4],
            ),
            ..self
        }
    }

    /// The state with every pixel set to one colour.
    pub open spec fn cleared(self, rgba: Seq<u8>) -> PpuState {
        PpuState { fb: Seq::new(self.fb.len(), |k: int| rgba[k % 4]), ..self }
    }
}

/// The picture unit.
pub struct Ppu {
    dispcnt: u16,
    status: DisplayStatus,
    vcount: u16,
    bg: BgRegisters,
    framebuffer: Vec<u8>,
}

impl View for Ppu {
    type V = PpuState;

    closed spec fn view(&self) -> PpuState {
        PpuState {
            dispcnt: self.dispcnt,
            status: self.status,
            vcount: self.vcount,
            bg: self.bg@,
            fb: self.framebuffer@,
        }
    }
}

impl Ppu {
    /// A picture unit after reset.
    pub fn new() -> (r: Self)
        ensures
            r@ == PpuState::reset(),
            r@.wf(),
    {
        let r = Ppu {
            dispcnt: 0,
            status: DisplayStatus {
                vblank: false,
                hblank: false,
                matched: false,
                vblank_irq: false,
                hblank_irq: false,
                match_irq: false,
                lyc: 0,
            },
            vcount: 0,
            bg: BgRegisters {
                cnt: [0, 0, 0, 0],
                hofs: [0, 0, 0, 0],
                vofs: [0, 0, 0, 0],
                pa: [0, 0],
                pb: [0, 0],
                pc: [0, 0],
                pd: [0, 0],
                x: [0, 0],
                y: [0, 0],
            },
            framebuffer: vec![0; FRAMEBUFFER_SIZE],
        };
        assert(r@.bg =~= PpuState::reset().bg);
        assert(r@.fb =~= PpuState::reset().fb);
        r
    }

    /// Whether the I/O offset belongs to the picture unit.
    #[verifier::allow_in_spec]
    pub fn handles(io_off: u32) -> bool
        returns
            io_off < DISPCNT_LO + 2 || (DISPSTAT_LO <= io_off && io_off < AFFINE_REGS_END),
    {
        io_off < DISPCNT_LO + 2 || (DISPSTAT_LO <= io_off && io_off < AFFINE_REGS_END)
    }

    /// Reads a byte of a register; what cannot be read is zero.
    pub fn read_u8(&self, io_off: u32) -> (r: u8)
        ensures
            r == self@.read8(io_off),
    {
        if io_off == DISPCNT_LO {
            (self.dispcnt % 0x100) as u8
        } else if io_off == DISPCNT_LO + 1 {
            (self.dispcnt / 0x100) as u8
        } else if io_off == DISPSTAT_LO {
            self.status.low()
        } else if io_off == DISPSTAT_LO + 1 {
            self.status.lyc
        } else if io_off == VCOUNT_LO {
            (self.vcount % 0x100) as u8
        } else if io_off == VCOUNT_LO + 1 {
            (self.vcount / 0x100) as u8
        } else if BG0CNT_LO <= io_off && io_off < BG0HOFS_LO {
            let idx: usize = ((io_off - BG0CNT_LO) / 2) as usize;
            if io_off % 2 == 0 {
                (self.bg.cnt[idx] % 0x100) as u8
            } else {
                (self.bg.cnt[idx] / 0x100) as u8
            }
        } else {
            0
        }
    }

    /// Writes a byte of a register; what cannot be written stays.
    pub fn write_u8(&mut self, io_off: u32, value: u8)
        ensures
            final(self)@ == old(self)@.write8(io_off, value),
            old(self)@.wf() ==> final(self)@.wf(),
    {
        if io_off == DISPCNT_LO || io_off == DISPCNT_LO + 1 {
            self.dispcnt = with_half_byte(self.dispcnt, io_off, value);
        } else if io_off == DISPSTAT_LO {
            self.status = self.status.with_low(value);
        } else if io_off == DISPSTAT_LO + 1 {
            self.status.lyc = value;
            self.status.matched = self.vcount == value as u16;
        } else if BG0CNT_LO <= io_off && io_off < BG0HOFS_LO {
            let i: usize = ((io_off - BG0CNT_LO) / 2) as usize;
            self.bg.cnt[i] = with_half_byte(self.bg.cnt[i], io_off, value);
        } else if BG0HOFS_LO <= io_off && io_off < BG_REGS_END {
            let i: usize = ((io_off - BG0HOFS_LO) / 4) as usize;
            if io_off % 4 < 2 {
                self.bg.hofs[i] = with_half_byte(self.bg.hofs[i], io_off, value);
            } else {
                self.bg.vofs[i] = with_half_byte(self.bg.vofs[i], io_off, value);
            }
        } else if AFFINE_REGS_START <= io_off && io_off < AFFINE_REGS_END {
            let i: usize = ((io_off - AFFINE_REGS_START) / 16) as usize;
            let local: u32 = io_off % 16;
            if local < 2 {
                self.bg.pa[i] = with_half_byte(self.bg.pa[i], io_off, value);
            } else if local < 4 {
                self.bg.pb[i] = with_half_byte(self.bg.pb[i], io_off, value);
            } else if local < 6 {
                self.bg.pc[i] = with_half_byte(self.bg.pc[i], io_off, value);
            } else if local < 8 {
                self.bg.pd[i] = with_half_byte(self.bg.pd[i], io_off, value);
            } else if local < 12 {
                self.bg.x[i] = with_word_byte(self.bg.x[i], io_off, value);
            } else {
                self.bg.y[i] = with_word_byte(self.bg.y[i], io_off, value);
            }
        }
        assert(self@.bg =~= old(self)@.write8(io_off, value).bg);
    }

    /// The video mode, 0 to 7.
    pub fn mode(&self) -> (r: u8)
        ensures
            r == self@.dispcnt % 8,
    {
        (self.dispcnt % 8) as u8
    }

    /// Whether the display is blanked.
    pub fn forced_blank(&self) -> (r: bool)
        ensures
            r == bit16(self@.dispcnt, 7),
    {
        bit16(self.dispcnt, 7)
    }

    /// The current line.
    pub fn vcount(&self) -> (r: u16)
        ensures
            r == self@.vcount,
    {
        self.vcount
    }

    /// The picture, four bytes per pixel.
    pub fn framebuffer(&self) -> (r: &[u8])
        ensures
            r@ == self@.fb,
    {
        self.framebuffer.as_slice()
    }

    /// Enters the horizontal blank of the current line, and requests its
    /// interrupt if that is enabled.
    pub fn enter_hblank(&mut self, irq: &mut InterruptControl)
        ensures
            final(self)@ == old(self)@.in_hblank(),
            final(irq)@ == old(self)@.hblank_requests(old(irq)@),
            old(self)@.wf() ==> final(self)@.wf(),
    {
        self.status.hblank = true;
        if self.status.hblank_irq {
            irq.request(Interrupt::HBlank);
        }
    }

    /// Goes on to the next line, with its flags and interrupts. Returns whether
    /// the vertical blank starts.
    pub fn enter_next_line(&mut self, irq: &mut InterruptControl) -> (r: bool)
        requires
            old(self)@.wf(),
        ensures
            final(self)@ == old(self)@.next_line(),
            final(irq)@ == old(self)@.line_requests(old(irq)@),
            r == (old(self)@.following() == FIRST_VBLANK_LINE),
            final(self)@.wf(),
    {
        self.status.hblank = false;
        let line: u16 = if self.vcount + 1 >= TOTAL_SCANLINES {
            0
        } else {
            self.vcount + 1
        };
        self.vcount = line;
        self.status.vblank = FIRST_VBLANK_LINE <= line && line < TOTAL_SCANLINES - 1;
        self.status.matched = line == self.status.lyc as u16;
        if self.status.matched && self.status.match_irq {
            irq.request(Interrupt::VCounter);
        }
        let entered: bool = line == FIRST_VBLANK_LINE;
        if entered && self.status.vblank_irq {
            irq.request(Interrupt::VBlank);
        }
        entered
    }

    /// Whether an interrupt of the display could wake the processor: it is
    /// enabled here and in the interrupt controller.
    pub fn can_wake(&self, irq: &InterruptControl) -> (r: bool)
        ensures
            r == self@.can_wake(irq@),
    {
        (self.status.vblank_irq && irq.is_enabled(Interrupt::VBlank)) || (self.status.hblank_irq
            && irq.is_enabled(Interrupt::HBlank)) || (self.status.match_irq && irq.is_enabled(
            Interrupt::VCounter,
        ))
    }

    fn put_pixel(&mut self, at: usize, rgba: [u8; 4])
        requires
            old(self)@.fb.len() == FRAMEBUFFER_SIZE,
            at + 4 <= FRAMEBUFFER_SIZE,
        ensures
            final(self)@ == (PpuState {
                fb: old(self)@.fb.update(at as int, rgba[0]).update(at + 1, rgba[1]).update(
                    at + 2,
                    rgba[2],
                ).update(at + 3, rgba[3]),
                ..old(self)@
            }),
    {
        self.framebuffer.set(at, rgba[0]);
        self.framebuffer.set(at + 1, rgba[1]);
        self.framebuffer.set(at + 2, rgba[2]);
        self.framebuffer.set(at + 3, rgba[3]);
    }

    /// The colour of a pixel of line `y`, given the sprite there.
    fn pixel_color(
        &self,
        x: usize,
        y: usize,
        obj: LayerPixel,
        vram: &[u8],
        pram: &[u8],
        Ghost(mem): Ghost<VideoMemory>,
    ) -> (r: [u8; 4])
        requires
            x < 240,
            y < 160,
            mem.vram == vram@,
            mem.pram == pram@,
            obj == sprite_layer(self@.dispcnt, mem, x as int, y as int),
        ensures
            r@ == picture(self@.dispcnt, self@.bg, mem, x as int, y as int),
    {
        reveal(picture);
        if bit16(self.dispcnt, 7) {
            let white: [u8; 4] = [0xFF, 0xFF, 0xFF, 0xFF];
            assert(white@ =~= seq![0xFFu8, 0xFFu8, 0xFFu8, 0xFFu8]);
            return white;
        }
        let mode: u16 = self.dispcnt % 8;
        proof {
            crate::ppu_bg::lemma_screen_fits(self@.bg, 2, x as int, y as int);
            crate::ppu_bg::lemma_screen_fits(self@.bg, 3, x as int, y as int);
        }
        let bg: LayerPixel = if mode <= 2 {
            tiled_bg_pixel(&self.bg, mode, self.dispcnt, x, y, vram, pram)
        } else if mode <= 5 {
            bitmap_bg_pixel(self.bg.cnt[2], mode, self.dispcnt, x, y, vram, pram)
        } else {
            None
        };
        compose_pixel(bg, obj, pram)
    }

    /// Draws line `y` from the memories; a line that is not visible draws
    /// nothing.
    pub fn render_scanline(&mut self, y: u16, vram: &[u8], pram: &[u8], oam: &[u8])
        requires
            old(self)@.wf(),
        ensures
            final(self)@ == old(self)@.drawn(
                VideoMemory { vram: vram@, pram: pram@, oam: oam@ },
                y as int,
            ),
            final(self)@.wf(),
    {
        let ghost mem = VideoMemory { vram: vram@, pram: pram@, oam: oam@ };
        let y: usize = y as usize;
        if y >= SCREEN_HEIGHT {
            assert(self@.fb =~= old(self)@.drawn(mem, y as int).fb);
            return;
        }
        let objs: Vec<LayerPixel> = if bit16(self.dispcnt, 12) {
            render_obj_line(y, bit16(self.dispcnt, 6), oam, vram, pram)
        } else {
            vec![None; 240]
        };
        let start: usize = y * ROW_BYTES;
        let mut x: usize = 0;
        while x < SCREEN_WIDTH
            invariant
                x <= SCREEN_WIDTH,
                y < SCREEN_HEIGHT,
                start == y * ROW_BYTES,
                mem == (VideoMemory { vram: vram@, pram: pram@, oam: oam@ }),
                objs@.len() == 240,
                forall|j: int|
                    0 <= j < 240 ==> #[trigger] objs@[j] == sprite_layer(
                        self@.dispcnt,
                        mem,
                        j,
                        y as int,
                    ),
                old(self)@.wf(),
                self@.dispcnt == old(self)@.dispcnt,
                self@.status == old(self)@.status,
                self@.vcount == old(self)@.vcount,
                self@.bg == old(self)@.bg,
                self@.fb.len() == FRAMEBUFFER_SIZE,
                forall|k: int|
                    0 <= k < FRAMEBUFFER_SIZE ==> #[trigger] self@.fb[k] == if start <= k < start
                        + x * 4 {
                        picture(self@.dispcnt, self@.bg, mem, k % 960 / 4, y as int)[k % 4]
                    } else {
                        old(self)@.fb[k]
                    },
            decreases SCREEN_WIDTH - x,
        {
            let rgba: [u8; 4] = self.pixel_color(x, y, objs[x], vram, pram, Ghost(mem));
            let ghost before = self@;
            self.put_pixel(start + x * 4, rgba);
            assert forall|k: int|
                0 <= k < FRAMEBUFFER_SIZE implies #[trigger] self@.fb[k] == if start <= k < start
                + (x + 1) * 4 {
                picture(self@.dispcnt, self@.bg, mem, k % 960 / 4, y as int)[k % 4]
            } else {
                old(self)@.fb[k]
            } by {
                if start + x * 4 <= k < start + (x + 1) * 4 {
                    assert(k % 960 / 4 == x);
                    assert(self@.fb[k] == rgba@[k % 4]);
                } else {
                    assert(self@.fb[k] == before.fb[k]);
                }
            }
            x = x + 1;
        }
        assert(self@.fb =~= old(self)@.drawn(mem, y as int).fb);
    }

    /// Draws the whole picture from the memories.
    pub fn render_frame(&mut self, vram: &[u8], pram: &[u8], oam: &[u8])
        requires
            old(self)@.wf(),
        ensures
            final(self)@ == old(self)@.framed(
                VideoMemory { vram: vram@, pram: pram@, oam: oam@ },
            ),
            final(self)@.wf(),
    {
        let ghost mem = VideoMemory { vram: vram@, pram: pram@, oam: oam@ };
        let mut y: u16 = 0;
        while y < FIRST_VBLANK_LINE
            invariant
                y <= FIRST_VBLANK_LINE,
                mem == (VideoMemory { vram: vram@, pram: pram@, oam: oam@ }),
                old(self)@.wf(),
                self@.wf(),
                self@.dispcnt == old(self)@.dispcnt,
                self@.status == old(self)@.status,
                self@.vcount == old(self)@.vcount,
                self@.bg == old(self)@.bg,
                forall|k: int|
                    0 <= k < y * 960 ==> #[trigger] self@.fb[k] == picture(
                        old(self)@.dispcnt,
                        old(self)@.bg,
                        mem,
                        k % 960 / 4,
                        k / 960,
                    )[k % 4],
            decreases FIRST_VBLANK_LINE - y,
        {
            self.render_scanline(y, vram, pram, oam);
            y = y + 1;
        }
        assert(self@.fb =~= old(self)@.framed(mem).fb);
    }

    /// Sets every pixel to one colour.
    pub fn clear_framebuffer(&mut self, rgba: [u8; 4])
        requires
            old(self)@.wf(),
        ensures
            final(self)@ == old(self)@.cleared(rgba@),
            final(self)@.wf(),
    {
        let mut at: usize = 0;
        while at < FRAMEBUFFER_SIZE
            invariant
                at <= FRAMEBUFFER_SIZE,
                at % 4 == 0,
                old(self)@.wf(),
                self@.dispcnt == old(self)@.dispcnt,
                self@.status == old(self)@.status,
                self@.vcount == old(self)@.vcount,
                self@.bg == old(self)@.bg,
                self@.fb.len() == FRAMEBUFFER_SIZE,
                forall|k: int| 0 <= k < at ==> #[trigger] self@.fb[k] == rgba@[k % 4],
            decreases FRAMEBUFFER_SIZE - at,
        {
            self.put_pixel(at, rgba);
            at = at + 4;
        }
        assert(self@.fb =~= old(self)@.cleared(rgba@).fb);
    }
}

impl Default for Ppu {
    fn default() -> (r: Self)
        ensures
            r@ == PpuState::reset(),
            r@.wf(),
    {
        Ppu::new()
    }
}

/// Drawing a line changes no pixel of another line and no register.
pub proof fn law_lines_are_independent(p: PpuState, mem: VideoMemory, y: int, k: int)
    requires
        p.wf(),
        0 <= k < FRAMEBUFFER_SIZE,
        k / 960 != y,
    ensures
        p.drawn(mem, y).fb[k] == p.fb[k],
        p.drawn(mem, y) == (PpuState { fb: p.drawn(mem, y).fb, ..p }),
{
}

proof fn lemma_picture_is_opaque(dispcnt: u16, bg: BgState, mem: VideoMemory, x: int, y: int)
    ensures
        picture(dispcnt, bg, mem, x, y)[3] == 0xFF,
{
    reveal(picture);
    crate::ppu_color::lemma_composed_is_opaque(
        bg_pixel(dispcnt, bg, mem, x, y),
        sprite_layer(dispcnt, mem, x, y),
        mem.pram,
    );
}

/// A drawn pixel is opaque, and a drawn picture too.
pub proof fn law_drawn_pixels_are_opaque(p: PpuState, mem: VideoMemory, x: int, y: int)
    requires
        p.wf(),
        0 <= x < SCREEN_WIDTH,
        0 <= y < SCREEN_HEIGHT,
    ensures
        p.drawn(mem, y).fb[y * 960 + x * 4 + 3] == 0xFF,
        p.framed(mem).fb[y * 960 + x * 4 + 3] == 0xFF,
{
    lemma_picture_is_opaque(p.dispcnt, p.bg, mem, x, y);
    let k = y * 960 + x * 4 + 3;
    assert(k / 960 == y && k % 4 == 3 && k % 960 / 4 == x);
    assert(0 <= k < FRAMEBUFFER_SIZE);
}

/// Drawing the visible lines one by one gives the whole picture.
pub proof fn law_lines_make_the_picture(p: PpuState, mem: VideoMemory)
    requires
        p.wf(),
    ensures
        lines_drawn(p, mem, SCREEN_HEIGHT as nat) == p.framed(mem),
{
    lemma_lines_drawn(p, mem, SCREEN_HEIGHT as nat);
    assert(lines_drawn(p, mem, SCREEN_HEIGHT as nat).fb =~= p.framed(mem).fb);
}

/// The state after drawing the first `n` lines in turn.
pub open spec fn lines_drawn(p: PpuState, mem: VideoMemory, n: nat) -> PpuState
    decreases n,
{
    if n == 0 {
        p
    } else {
        lines_drawn(p, mem, (n - 1) as nat).drawn(mem, n - 1)
    }
}

proof fn lemma_lines_drawn(p: PpuState, mem: VideoMemory, n: nat)
    requires
        p.wf(),
        n <= SCREEN_HEIGHT,
    ensures
        lines_drawn(p, mem, n).wf(),
        lines_drawn(p, mem, n) == (PpuState { fb: lines_drawn(p, mem, n).fb, ..p }),
        forall|k: int|
            0 <= k < FRAMEBUFFER_SIZE ==> #[trigger] lines_drawn(p, mem, n).fb[k] == if k / 960
                < n {
                picture(p.dispcnt, p.bg, mem, k % 960 / 4, k / 960)[k % 4]
            } else {
                p.fb[k]
            },
    decreases n,
{
    if n > 0 {
        lemma_lines_drawn(p, mem, (n - 1) as nat);
    }
}

/// The lines go round: after as many steps as there are lines, the scan is back
/// where it was.
pub proof fn law_scan_is_periodic(p: PpuState)
    requires
        p.wf(),
    ensures
        lines_passed(p, TOTAL_SCANLINES as nat).vcount == p.vcount,
{
    lemma_lines_passed(p, TOTAL_SCANLINES as nat);
}

/// The state after `n` steps to the next line.
pub open spec fn lines_passed(p: PpuState, n: nat) -> PpuState
    decreases n,
{
    if n == 0 {
        p
    } else {
        lines_passed(p, (n - 1) as nat).next_line()
    }
}

proof fn lemma_lines_passed(p: PpuState, n: nat)
    requires
        p.wf(),
    ensures
        lines_passed(p, n).wf(),
        lines_passed(p, n).vcount == (p.vcount + n) % 228,
    decreases n,
{
    if n > 0 {
        lemma_lines_passed(p, (n - 1) as nat);
    }
}

/// A display that cannot wake the processor raises no interrupt by going on.
pub proof fn law_asleep_display_raises_nothing(p: PpuState, irq: IrqState)
    requires
        !p.can_wake(irq),
    ensures
        p.hblank_requests(irq).raised() == irq.raised(),
        p.line_requests(irq).raised() == irq.raised(),
{
    assert forall|state: IrqState, source: Interrupt|
        state.ie == irq.ie && !irq.is_enabled(source) implies #[trigger] state.request(
        source,
    ).raised() == state.raised() by {
        let (ie, requested, bit, mask) = (state.ie, state.requested, source.bit(), IRQ_MASK);
        assert(ie & bit == 0 ==> ie & (requested | bit) & mask == ie & requested & mask)
            by (bit_vector);
    }
}

/// The flags of the display status cannot be written, and the current line
/// neither; the interrupts and the line to compare with read back as written.
pub proof fn law_status_writes(p: PpuState, value: u8)
    ensures
        p.write8(DISPSTAT_LO, value).read8(DISPSTAT_LO) % 8 == p.read8(DISPSTAT_LO) % 8,
        p.write8(DISPSTAT_LO, value).read8(DISPSTAT_LO) / 8 == value / 8 % 8,
        p.write8((DISPSTAT_LO + 1) as u32, value).read8((DISPSTAT_LO + 1) as u32) == value,
        p.write8(VCOUNT_LO, value) == p,
        p.write8((VCOUNT_LO + 1) as u32, value) == p,
{
    let s = p.status;
    let flags = flag(s.vblank) + flag(s.hblank) * 2 + flag(s.matched) * 4;
    let enables = value / 8 % 2 + value / 16 % 2 * 2 + value / 32 % 2 * 4;
    assert(s.with_low(value).low() == flags + enables * 8);
    assert(value / 8 % 2 + value / 16 % 2 * 2 + value / 32 % 2 * 4 == value / 8 % 8)
        by (bit_vector);
    assert(0 <= flags < 8);
    assert((s.low() - flags) % 8 == 0);
}

proof fn lemma_with_half_byte(reg: u16, n: u32, value: u8)
    ensures
        n % 2 == 0 ==> with_half_byte(reg, n, value) % 0x100 == value && with_half_byte(
            reg,
            n,
            value,
        ) / 0x100 == reg / 0x100,
        n % 2 == 1 ==> with_half_byte(reg, n, value) / 0x100 == value && with_half_byte(
            reg,
            n,
            value,
        ) % 0x100 == reg % 0x100,
{
}

/// The display control reads back as written, each byte by itself.
pub proof fn law_display_control_reads_back(p: PpuState, high: bool, value: u8)
    ensures
        ({
            let off = DISPCNT_LO + flag(high);
            let other = DISPCNT_LO + 1 - flag(high);
            let after = p.write8(off as u32, value);
            &&& after.read8(off as u32) == value
            &&& after.read8(other as u32) == p.read8(other as u32)
        }),
{
    lemma_with_half_byte(p.dispcnt, (DISPCNT_LO + flag(high)) as u32, value);
}

/// The background controls read back as written, each byte by itself.
pub proof fn law_background_control_reads_back(p: PpuState, off: u32, other: u32, value: u8)
    requires
        p.wf(),
        BG0CNT_LO <= off < BG0HOFS_LO,
        BG0CNT_LO <= other < BG0HOFS_LO,
        other != off,
    ensures
        p.write8(off, value).read8(off) == value,
        p.write8(off, value).read8(other) == p.read8(other),
{
    let i = (off - BG0CNT_LO) / 2;
    let j = (other - BG0CNT_LO) / 2;
    let after = p.write8(off, value);
    lemma_with_half_byte(p.bg.cnt[i], off, value);
    assert(after.bg.cnt == p.bg.cnt.update(i, with_half_byte(p.bg.cnt[i], off, value)));
    if i == j {
        assert(off % 2 != other % 2);
    } else {
        assert(after.bg.cnt[j] == p.bg.cnt[j]);
    }
}

} // verus!

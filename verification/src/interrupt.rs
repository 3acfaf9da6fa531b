//! The interrupt controller: the registers `IE`, `IF` and `IME`.
//!
//! A source raises its bit in `IF`; software acknowledges it by writing a 1 to
//! that bit, which clears it. `IE` selects the sources that count and `IME`
//! switches the whole mechanism on.

use vstd::prelude::*;

verus! {

/// The fourteen interrupt sources, in the order of their bit in `IE`/`IF`.
#[derive(Debug, Clone, Copy, PartialEq, Eq, Structural)]
pub enum Interrupt {
    /// Start of the vertical blank.
    VBlank,
    /// Start of a horizontal blank.
    HBlank,
    /// The current line matches the programmed one.
    VCounter,
    /// Overflow of timer 0.
    Timer0,
    /// Overflow of timer 1.
    Timer1,
    /// Overflow of timer 2.
    Timer2,
    /// Overflow of timer 3.
    Timer3,
    /// Serial communication.
    Serial,
    /// End of a transfer of DMA channel 0.
    Dma0,
    /// End of a transfer of DMA channel 1.
    Dma1,
    /// End of a transfer of DMA channel 2.
    Dma2,
    /// End of a transfer of DMA channel 3.
    Dma3,
    /// Keypad.
    Keypad,
    /// Cartridge hardware.
    GamePak,
}

impl Interrupt {
    /// The one-bit mask of this source in `IE` and `IF`.
    #[verifier::allow_in_spec]
    pub fn bit(self) -> u16
        returns
            (match self {
                Interrupt::VBlank => 0x0001u16,
                Interrupt::HBlank => 0x0002u16,
                Interrupt::VCounter => 0x0004u16,
                Interrupt::Timer0 => 0x0008u16,
                Interrupt::Timer1 => 0x0010u16,
                Interrupt::Timer2 => 0x0020u16,
                Interrupt::Timer3 => 0x0040u16,
                Interrupt::Serial => 0x0080u16,
                Interrupt::Dma0 => 0x0100u16,
                Interrupt::Dma1 => 0x0200u16,
                Interrupt::Dma2 => 0x0400u16,
                Interrupt::Dma3 => 0x0800u16,
                Interrupt::Keypad => 0x1000u16,
                Interrupt::GamePak => 0x2000u16,
            }),
    {
        match self {
            Interrupt::VBlank => 0x0001,
            Interrupt::HBlank => 0x0002,
            Interrupt::VCounter => 0x0004,
            Interrupt::Timer0 => 0x0008,
            Interrupt::Timer1 => 0x0010,
            Interrupt::Timer2 => 0x0020,
            Interrupt::Timer3 => 0x0040,
            Interrupt::Serial => 0x0080,
            Interrupt::Dma0 => 0x0100,
            Interrupt::Dma1 => 0x0200,
            Interrupt::Dma2 => 0x0400,
            Interrupt::Dma3 => 0x0800,
            Interrupt::Keypad => 0x1000,
            Interrupt::GamePak => 0x2000,
        }
    }

    /// The source of DMA channel `channel`; a channel past 2 counts as 3.
    #[verifier::allow_in_spec]
    pub fn dma(channel: usize) -> Interrupt
        returns
            (match channel {
                0 => Interrupt::Dma0,
                1 => Interrupt::Dma1,
                2 => Interrupt::Dma2,
                _ => Interrupt::Dma3,
            }),
    {
        match channel {
            0 => Interrupt::Dma0,
            1 => Interrupt::Dma1,
            2 => Interrupt::Dma2,
            _ => Interrupt::Dma3,
        }
    }

    /// The source of timer `index`; an index past 2 counts as 3.
    #[verifier::allow_in_spec]
    pub fn timer(index: usize) -> Interrupt
        returns
            (match index {
                0 => Interrupt::Timer0,
                1 => Interrupt::Timer1,
                2 => Interrupt::Timer2,
                _ => Interrupt::Timer3,
            }),
    {
        match index {
            0 => Interrupt::Timer0,
            1 => Interrupt::Timer1,
            2 => Interrupt::Timer2,
            _ => Interrupt::Timer3,
        }
    }
}

/// I/O offset of `IE` (two bytes).
pub const IE_LO: u32 = 0x200;

/// I/O offset of `IF` (two bytes).
pub const IF_LO: u32 = 0x202;

/// I/O offset of `IME` (four bytes, of which bit 0 is used).
pub const IME_LO: u32 = 0x208;

/// The bits of `IE`/`IF` that stand for a source.
pub const IRQ_MASK: u16 = 0x3FFF;

/// The three registers as values.
pub struct IrqState {
    /// `IE`.
    pub ie: u16,
    /// `IF`.
    pub requested: u16,
    /// Bit 0 of `IME`.
    pub ime: bool,
}

impl IrqState {
    /// Everything disabled and nothing requested.
    pub open spec fn reset() -> IrqState {
        IrqState { ie: 0, requested: 0, ime: false }
    }

    /// The byte at I/O offset `off`.
    pub open spec fn read8(self, off: u32) -> u8 {
        if off == IE_LO {
            (self.ie % 0x100) as u8
        } else if off == IE_LO + 1 {
            (self.ie / 0x100) as u8
        } else if off == IF_LO {
            (self.requested % 0x100) as u8
        } else if off == IF_LO + 1 {
            (self.requested / 0x100) as u8
        } else if off == IME_LO && self.ime {
            1
        } else {
            0
        }
    }

    /// The registers after writing `value` at I/O offset `off`: `IE` and `IME`
    /// take the value, the ones written to `IF` clear the bits they stand on.
    pub open spec fn write8(self, off: u32, value: u8) -> IrqState {
        if off == IE_LO {
            IrqState { ie: (self.ie / 0x100 * 0x100 + value) as u16, ..self }
        } else if off == IE_LO + 1 {
            IrqState { ie: (self.ie % 0x100 + value * 0x100) as u16, ..self }
        } else if off == IF_LO {
            IrqState { requested: self.requested & !(value as u16), ..self }
        } else if off == IF_LO + 1 {
            IrqState { requested: self.requested & !((value as u16) << 8), ..self }
        } else if off == IME_LO {
            IrqState { ime: value % 2 == 1, ..self }
        } else {
            self
        }
    }

    /// The registers after `source` fired.
    pub open spec fn request(self, source: Interrupt) -> IrqState {
        IrqState { requested: self.requested | source.bit(), ..self }
    }

    /// Whether `source` is enabled in `IE`.
    pub open spec fn is_enabled(self, source: Interrupt) -> bool {
        self.ie & source.bit() != 0
    }

    /// Whether some source is both enabled and requested.
    pub open spec fn raised(self) -> bool {
        self.ie & self.requested & IRQ_MASK != 0
    }

    /// Whether an interrupt is to be served.
    pub open spec fn pending(self) -> bool {
        self.ime && self.raised()
    }
}

/// The interrupt controller.
pub struct InterruptControl {
    ie: u16,
    requested: u16,
    ime: bool,
}

impl View for InterruptControl {
    type V = IrqState;

    closed spec fn view(&self) -> IrqState {
        IrqState { ie: self.ie, requested: self.requested, ime: self.ime }
    }
}

impl InterruptControl {
    /// A controller at rest.
    pub fn new() -> (r: Self)
        ensures
            r@ == IrqState::reset(),
    {
        InterruptControl { ie: 0, requested: 0, ime: false }
    }

    /// Whether the I/O offset belongs to `IE`, `IF` or `IME`.
    #[verifier::allow_in_spec]
    pub fn handles(io_off: u32) -> bool
        returns
            (IE_LO <= io_off && io_off < IF_LO + 2) || (IME_LO <= io_off && io_off < IME_LO + 4),
    {
        (IE_LO <= io_off && io_off < IF_LO + 2) || (IME_LO <= io_off && io_off < IME_LO + 4)
    }

    /// Reads a byte; the unused ones read as zero.
    pub fn read_u8(&self, io_off: u32) -> (r: u8)
        ensures
            r == self@.read8(io_off),
    {
        if io_off == IE_LO {
            (self.ie % 0x100) as u8
        } else if io_off == IE_LO + 1 {
            (self.ie / 0x100) as u8
        } else if io_off == IF_LO {
            (self.requested % 0x100) as u8
        } else if io_off == IF_LO + 1 {
            (self.requested / 0x100) as u8
        } else if io_off == IME_LO && self.ime {
            1
        } else {
            0
        }
    }

    /// Writes a byte: `IE` and `IME` take it, in `IF` it acknowledges.
    pub fn write_u8(&mut self, io_off: u32, value: u8)
        ensures
            final(self)@ == old(self)@.write8(io_off, value),
    {
        if io_off == IE_LO {
            self.ie = self.ie / 0x100 * 0x100 + value as u16;
        } else if io_off == IE_LO + 1 {
            self.ie = self.ie % 0x100 + value as u16 * 0x100;
        } else if io_off == IF_LO {
            self.requested = self.requested & !(value as u16);
        } else if io_off == IF_LO + 1 {
            self.requested = self.requested & !((value as u16) << 8);
        } else if io_off == IME_LO {
            self.ime = value % 2 == 1;
        }
    }

    /// Marks `source` as requested.
    pub fn request(&mut self, source: Interrupt)
        ensures
            final(self)@ == old(self)@.request(source),
    {
        self.requested = self.requested | source.bit();
    }

    /// Whether `source` is enabled.
    pub fn is_enabled(&self, source: Interrupt) -> (r: bool)
        ensures
            r == self@.is_enabled(source),
    {
        self.ie & source.bit() != 0
    }

    /// Whether some enabled source is requested, whatever `IME` says. This is
    /// what wakes a halted processor.
    pub fn raised(&self) -> (r: bool)
        ensures
            r == self@.raised(),
    {
        self.ie & self.requested & IRQ_MASK != 0
    }

    /// Whether an interrupt is to be served: some source is raised and `IME`
    /// is on.
    pub fn pending(&self) -> (r: bool)
        ensures
            r == self@.pending(),
    {
        self.ime && self.raised()
    }
}

impl Default for InterruptControl {
    fn default() -> (r: Self)
        ensures
            r@ == IrqState::reset(),
    {
        InterruptControl::new()
    }
}

/// A request stands until it is acknowledged: it is in `IF` right after the
/// source fired, acknowledging it clears it, and acknowledging anything else
/// leaves it.
pub proof fn law_acknowledge(irq: IrqState, source: Interrupt, value: u16)
    ensures
        irq.request(source).requested & source.bit() != 0,
        ({
            let lo = (value % 0x100) as u8;
            let hi = (value / 0x100) as u8;
            let after = irq.write8(IF_LO, lo).write8((IF_LO + 1) as u32, hi);
            &&& after.requested == irq.requested & !value
            &&& (after.requested & source.bit() != 0) == (irq.requested & source.bit() != 0
                && value & source.bit() == 0)
            &&& after.ie == irq.ie
            &&& after.ime == irq.ime
        }),
{
    let lo = (value % 0x100) as u8;
    let hi = (value / 0x100) as u8;
    let r = irq.requested;
    let b = source.bit();
    assert((r & !(lo as u16)) & !((hi as u16) << 8) == r & !value && ((r & !value) & b != 0) == (r & b
        != 0 && value & b == 0) && (r | b) & b != 0) by (bit_vector)
        requires
            lo == value % 0x100,
            hi == value / 0x100,
            b == 1 || b == 2 || b == 4 || b == 8 || b == 0x10 || b == 0x20 || b == 0x40 || b == 0x80
                || b == 0x100 || b == 0x200 || b == 0x400 || b == 0x800 || b == 0x1000 || b
                == 0x2000,
    ;
}

/// A source that is enabled and fires is raised; it is served only once `IME`
/// is on. With every source disabled nothing is ever raised.
pub proof fn law_enabled_request_is_raised(irq: IrqState, source: Interrupt)
    ensures
        irq.is_enabled(source) ==> irq.request(source).raised(),
        irq.is_enabled(source) ==> irq.request(source).pending() == irq.ime,
        irq.ie == 0 ==> !irq.raised(),
        irq.pending() ==> irq.raised(),
{
    let e = irq.ie;
    let r = irq.requested;
    let b = source.bit();
    assert((e & b != 0 ==> e & (r | b) & 0x3FFF != 0) && (0u16 & r & 0x3FFF == 0)) by (bit_vector)
        requires
            b == 1 || b == 2 || b == 4 || b == 8 || b == 0x10 || b == 0x20 || b == 0x40 || b == 0x80
                || b == 0x100 || b == 0x200 || b == 0x400 || b == 0x800 || b == 0x1000 || b
                == 0x2000,
    ;
}

} // verus!

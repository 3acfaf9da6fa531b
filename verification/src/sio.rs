//! The serial port registers. They only store what is written: there is no
//! transfer logic, so the start bit of `SIOCNT` stays as written.

use vstd::prelude::*;

verus! {

/// I/O offset of the main block (`SIODATA32`/`SIOMULTI0-3`, `SIOCNT`,
/// `SIODATA8`).
pub const SIO_BLOCK_BASE: u32 = 0x120;

/// End (exclusive) of the main block.
pub const SIO_BLOCK_END: u32 = 0x12C;

/// Bytes in the main block.
pub const SIO_BLOCK_LEN: usize = 12;

/// I/O offset of `RCNT`, which stands apart from the main block.
pub const RCNT_BASE: u32 = 0x134;

/// End (exclusive) of `RCNT`.
pub const RCNT_END: u32 = 0x136;

/// The registers as byte sequences.
#[verifier::ext_equal]
pub struct SioState {
    /// The main block.
    pub block: Seq<u8>,
    /// `RCNT`.
    pub rcnt: Seq<u8>,
}

impl SioState {
    /// All registers zero.
    pub open spec fn reset() -> SioState {
        SioState {
            block: Seq::new(SIO_BLOCK_LEN as nat, |i: int| 0u8),
            rcnt: Seq::new(2, |i: int| 0u8),
        }
    }

    /// The byte at I/O offset `off`; zero outside the registers.
    pub open spec fn read8(self, off: u32) -> u8 {
        if SIO_BLOCK_BASE <= off < SIO_BLOCK_END {
            self.block[off - SIO_BLOCK_BASE]
        } else if RCNT_BASE <= off < RCNT_END {
            self.rcnt[off - RCNT_BASE]
        } else {
            0
        }
    }

    /// The registers after writing `value` at I/O offset `off`.
    pub open spec fn write8(self, off: u32, value: u8) -> SioState {
        if SIO_BLOCK_BASE <= off < SIO_BLOCK_END {
            SioState { block: self.block.update(off - SIO_BLOCK_BASE, value), ..self }
        } else if RCNT_BASE <= off < RCNT_END {
            SioState { rcnt: self.rcnt.update(off - RCNT_BASE, value), ..self }
        } else {
            self
        }
    }

    /// Both sequences have their length.
    pub open spec fn wf(self) -> bool {
        self.block.len() == SIO_BLOCK_LEN && self.rcnt.len() == 2
    }
}

/// The serial port.
pub struct Sio {
    block: [u8; 12],
    rcnt: [u8; 2],
}

impl View for Sio {
    type V = SioState;

    closed spec fn view(&self) -> SioState {
        SioState { block: self.block@, rcnt: self.rcnt@ }
    }
}

impl Sio {
    /// All registers zero.
    pub fn new() -> (r: Self)
        ensures
            r@ == SioState::reset(),
            r@.wf(),
    {
        Sio { block: [0; 12], rcnt: [0; 2] }
    }

    /// Whether the I/O offset belongs to a serial register.
    #[verifier::allow_in_spec]
    pub fn handles(io_off: u32) -> bool
        returns
            (SIO_BLOCK_BASE <= io_off && io_off < SIO_BLOCK_END) || (RCNT_BASE <= io_off && io_off
                < RCNT_END),
    {
        (SIO_BLOCK_BASE <= io_off && io_off < SIO_BLOCK_END) || (RCNT_BASE <= io_off && io_off
            < RCNT_END)
    }

    /// Reads a byte; an offset outside the registers reads as zero.
    pub fn read_u8(&self, io_off: u32) -> (r: u8)
        ensures
            r == self@.read8(io_off),
    {
        if SIO_BLOCK_BASE <= io_off && io_off < SIO_BLOCK_END {
            self.block[(io_off - SIO_BLOCK_BASE) as usize]
        } else if RCNT_BASE <= io_off && io_off < RCNT_END {
            self.rcnt[(io_off - RCNT_BASE) as usize]
        } else {
            0
        }
    }

    /// Stores a byte; an offset outside the registers is ignored.
    pub fn write_u8(&mut self, io_off: u32, value: u8)
        ensures
            final(self)@ == old(self)@.write8(io_off, value),
            final(self)@.wf(),
    {
        if SIO_BLOCK_BASE <= io_off && io_off < SIO_BLOCK_END {
            self.block[(io_off - SIO_BLOCK_BASE) as usize] = value;
        } else if RCNT_BASE <= io_off && io_off < RCNT_END {
            self.rcnt[(io_off - RCNT_BASE) as usize] = value;
        }
    }
}

impl Default for Sio {
    fn default() -> (r: Self)
        ensures
            r@ == SioState::reset(),
    {
        Sio::new()
    }
}

/// The serial registers always have their sizes.
pub proof fn law_sio_sizes(sio: &Sio)
    ensures
        sio@.wf(),
{
}

/// A serial register reads back what was written to it, and a write changes no
/// other byte.
pub proof fn law_sio_stores(sio: SioState, off: u32, other: u32, value: u8)
    requires
        sio.wf(),
    ensures
        Sio::handles(off) ==> sio.write8(off, value).read8(off) == value,
        other != off ==> sio.write8(off, value).read8(other) == sio.read8(other),
        sio.write8(off, value).wf(),
{
}

} // verus!

//! Cartridges: ROM images, checked for their size before anything else looks at
//! them.

use vstd::prelude::*;

use crate::header::Header;
use crate::text::with_number;

verus! {

/// The most bytes that the console can address in a cartridge: 32 MiB.
pub const MAX_ROM_SIZE: usize = 0x0200_0000;

/// The fewest bytes of a cartridge: those of its header.
pub const MIN_ROM_SIZE: usize = 0xC0;

/// Why bytes are no cartridge.
#[derive(Debug, Clone, Copy, PartialEq, Eq, Structural)]
pub enum CartridgeError {
    /// Fewer than [`MIN_ROM_SIZE`].
    TooSmall {
        /// How many they are.
        size: usize,
    },
    /// More than [`MAX_ROM_SIZE`].
    TooLarge {
        /// How many they are.
        size: usize,
    },
}

impl CartridgeError {
    /// The error in words.
    pub fn message(&self) -> (r: String)
        ensures
            r@ == match *self {
                CartridgeError::TooSmall { size } => "el archivo es demasiado pequeño ("@
                    + crate::text::decimal_text(size as nat)
                    + " bytes); una cabecera de cartucho ocupa al menos 192 bytes"@,
                CartridgeError::TooLarge { size } => "el archivo es demasiado grande ("@
                    + crate::text::decimal_text(size as nat)
                    + " bytes); el máximo direccionable por la GBA es 33554432 bytes (32 MiB)"@,
            },
    {
        match self {
            CartridgeError::TooSmall { size } => with_number(
                "el archivo es demasiado pequeño (",
                *size,
                " bytes); una cabecera de cartucho ocupa al menos 192 bytes",
            ),
            CartridgeError::TooLarge { size } => with_number(
                "el archivo es demasiado grande (",
                *size,
                " bytes); el máximo direccionable por la GBA es 33554432 bytes (32 MiB)",
            ),
        }
    }
}

/// A ROM image of acceptable size, with its header.
pub struct Cartridge {
    rom: Vec<u8>,
    header: Header,
}

impl View for Cartridge {
    type V = Seq<u8>;

    closed spec fn view(&self) -> Seq<u8> {
        self.rom@
    }
}

/// Whether a file of this size is worth reading at all. A file that is too
/// large is not read into memory.
#[verifier::allow_in_spec]
pub fn may_hold_cartridge(declared_size: u64) -> bool
    returns
        declared_size <= MAX_ROM_SIZE,
{
    declared_size <= MAX_ROM_SIZE as u64
}

impl Cartridge {
    /// The header that was read from the ROM.
    pub closed spec fn spec_header(&self) -> Header {
        self.header
    }

    /// Accepts [`MIN_ROM_SIZE`] to [`MAX_ROM_SIZE`] bytes and reads the header.
    pub fn from_bytes(rom: Vec<u8>) -> (r: Result<Self, CartridgeError>)
        ensures
            match r {
                Ok(cart) => {
                    &&& MIN_ROM_SIZE <= rom@.len() <= MAX_ROM_SIZE
                    &&& cart@ == rom@
                    &&& crate::header::is_header_of(cart.spec_header(), rom@)
                },
                Err(CartridgeError::TooSmall { size }) => size == rom@.len() && rom@.len()
                    < MIN_ROM_SIZE,
                Err(CartridgeError::TooLarge { size }) => size == rom@.len() && rom@.len()
                    > MAX_ROM_SIZE,
            },
    {
        let size: usize = rom.len();
        if size < MIN_ROM_SIZE {
            return Err(CartridgeError::TooSmall { size });
        }
        if size > MAX_ROM_SIZE {
            return Err(CartridgeError::TooLarge { size });
        }
        match Header::parse(rom.as_slice()) {
            Some(header) => Ok(Cartridge { rom, header }),
            None => Err(CartridgeError::TooSmall { size }),
        }
    }

    /// How many bytes the ROM has.
    pub fn len(&self) -> (r: usize)
        ensures
            r == self@.len(),
    {
        self.rom.len()
    }

    /// Whether the ROM has no bytes.
    pub fn is_empty(&self) -> (r: bool)
        ensures
            r == (self@.len() == 0),
    {
        self.rom.len() == 0
    }

    /// The bytes of the ROM.
    pub fn rom(&self) -> (r: &[u8])
        ensures
            r@ == self@,
    {
        self.rom.as_slice()
    }

    /// Gives the bytes of the ROM away.
    pub fn into_rom(self) -> (r: Vec<u8>)
        ensures
            r@ == self@,
    {
        self.rom
    }

    /// The header.
    pub fn header(&self) -> (r: &Header)
        ensures
            *r == self.spec_header(),
    {
        &self.header
    }
}

} // verus!

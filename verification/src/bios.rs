//! The BIOS image: 16 KiB that the console starts from, checked for its size
//! before anything else looks at it. It is optional.

use vstd::prelude::*;

use crate::bus::BIOS_SIZE;
use crate::text::with_number;

verus! {

/// Why bytes are no BIOS image.
#[derive(Debug, Clone, Copy, PartialEq, Eq, Structural)]
pub enum BiosError {
    /// They are not exactly [`BIOS_SIZE`].
    WrongSize {
        /// How many they are.
        size: usize,
    },
}

impl BiosError {
    /// The error in words.
    pub fn message(&self) -> (r: String)
        ensures
            r@ == match *self {
                BiosError::WrongSize { size } => "la BIOS mide "@ + crate::text::decimal_text(
                    size as nat,
                ) + " bytes; debe medir exactamente 16384 bytes (16 KiB)"@,
            },
    {
        match self {
            BiosError::WrongSize { size } => with_number(
                "la BIOS mide ",
                *size,
                " bytes; debe medir exactamente 16384 bytes (16 KiB)",
            ),
        }
    }
}

/// A BIOS image of the right size.
pub struct Bios {
    bytes: Vec<u8>,
}

impl View for Bios {
    type V = Seq<u8>;

    closed spec fn view(&self) -> Seq<u8> {
        self.bytes@
    }
}

impl Bios {
    /// Accepts exactly [`BIOS_SIZE`] bytes.
    pub fn from_bytes(bytes: Vec<u8>) -> (r: Result<Self, BiosError>)
        ensures
            match r {
                Ok(bios) => bios@ == bytes@ && bytes@.len() == BIOS_SIZE,
                Err(BiosError::WrongSize { size }) => size == bytes@.len() && bytes@.len()
                    != BIOS_SIZE,
            },
    {
        let size: usize = bytes.len();
        if size != BIOS_SIZE {
            return Err(BiosError::WrongSize { size });
        }
        Ok(Bios { bytes })
    }

    /// The bytes of the image.
    pub fn as_bytes(&self) -> (r: &[u8])
        ensures
            r@ == self@,
    {
        self.bytes.as_slice()
    }

    /// How many bytes the image has.
    pub fn len(&self) -> (r: usize)
        ensures
            r == self@.len(),
    {
        self.bytes.len()
    }

    /// Whether the image has no bytes.
    pub fn is_empty(&self) -> (r: bool)
        ensures
            r == (self@.len() == 0),
    {
        self.bytes.len() == 0
    }

    /// Gives the bytes away.
    pub fn into_bytes(self) -> (r: Vec<u8>)
        ensures
            r@ == self@,
    {
        self.bytes
    }
}

} // verus!

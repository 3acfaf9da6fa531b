//! The interrupt handler of the built-in BIOS. When no real BIOS is loaded, an
//! interrupt jumps to this code at the vector `0x18`. It saves the context,
//! calls the handler that the program left at `0x0300_7FFC`, restores the
//! context and returns:
//!
//! ```text
//! stmfd sp!, {r0-r3, r12, lr}
//! mov   r0, #0x04000000
//! add   lr, pc, #0
//! ldr   pc, [r0, #-4]
//! ldmfd sp!, {r0-r3, r12, lr}
//! subs  pc, lr, #4
//! ```

use vstd::prelude::*;

use crate::bus::BIOS_SIZE;

verus! {

/// Offset in the BIOS of the first instruction.
pub const STUB_START: usize = 0x18;

/// Offset in the BIOS behind the last instruction.
pub const STUB_END: usize = 0x30;

/// Instruction `i` of the handler.
#[verifier::allow_in_spec]
pub fn stub_word(i: usize) -> u32
    returns
        (match i {
            0 => 0xE92D_500Fu32,
            1 => 0xE3A0_0301u32,
            2 => 0xE28F_E000u32,
            3 => 0xE510_F004u32,
            4 => 0xE8BD_500Fu32,
            _ => 0xE25E_F004u32,
        }),
{
    match i {
        0 => 0xE92D_500F,
        1 => 0xE3A0_0301,
        2 => 0xE28F_E000,
        3 => 0xE510_F004,
        4 => 0xE8BD_500F,
        _ => 0xE25E_F004,
    }
}

/// Byte `i` of the BIOS region when only the handler is in it.
pub open spec fn stub_byte(i: int) -> u8 {
    if STUB_START <= i < STUB_END {
        crate::bits::byte_of(stub_word(((i - STUB_START) / 4) as usize), (i - STUB_START) % 4)
    } else {
        0
    }
}

/// The BIOS region when only the handler is in it.
pub open spec fn stub_bios() -> Seq<u8> {
    Seq::new(BIOS_SIZE as nat, |i: int| stub_byte(i))
}

/// Writes the handler into a BIOS region and leaves the rest of it alone.
pub(crate) fn install_irq_handler(bios: &mut Vec<u8>)
    requires
        old(bios)@.len() == BIOS_SIZE,
    ensures
        final(bios)@ == Seq::new(
            BIOS_SIZE as nat,
            |i: int|
                if STUB_START <= i < STUB_END {
                    stub_byte(i)
                } else {
                    old(bios)@[i]
                },
        ),
{
    let mut i: usize = STUB_START;
    while i < STUB_END
        invariant
            STUB_START <= i <= STUB_END,
            bios@.len() == BIOS_SIZE,
            old(bios)@.len() == BIOS_SIZE,
            forall|k: int|
                0 <= k < BIOS_SIZE ==> bios@[k] == (if STUB_START <= k < i {
                    stub_byte(k)
                } else {
                    old(bios)@[k]
                }),
        decreases STUB_END - i,
    {
        let word: u32 = stub_word((i - STUB_START) / 4);
        let byte: u8 = match (i - STUB_START) % 4 {
            0 => (word % 0x100) as u8,
            1 => (word / 0x100 % 0x100) as u8,
            2 => (word / 0x1_0000 % 0x100) as u8,
            _ => (word / 0x100_0000) as u8,
        };
        bios[i] = byte;
        i = i + 1;
    }
    assert(bios@ =~= Seq::new(
        BIOS_SIZE as nat,
        |i: int|
            if STUB_START <= i < STUB_END {
                stub_byte(i)
            } else {
                old(bios)@[i]
            },
    ));
}

} // verus!

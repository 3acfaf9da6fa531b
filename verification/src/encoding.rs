//! Instruction and status words as numbers.
//!
//! The processor reads its words with shifts and masks. Here the same fields
//! are digits of the number that the word is, so that the laws of the
//! instructions can be stated over the encodings as an assembler writes them.

use vstd::prelude::*;

verus! {

/// Bit `k` of a word.
pub open spec fn has_bit(word: u32, k: u32) -> bool {
    (word >> k) & 1u32 == 1
}

/// The number that a word stands for in two's complement.
pub open spec fn number(word: u32) -> int {
    if word >= 0x8000_0000 {
        word - 0x1_0000_0000
    } else {
        word as int
    }
}

/// Whether a number has no two's complement of 32 bits.
pub open spec fn overflows(value: int) -> bool {
    value < -0x8000_0000 || value > 0x7FFF_FFFF
}

/// The flag N of a status word.
pub open spec fn negative(psr: u32) -> bool {
    psr >= 0x8000_0000
}

/// The flag Z of a status word.
pub open spec fn zero(psr: u32) -> bool {
    psr / 0x4000_0000 % 2 == 1
}

/// The flag C of a status word.
pub open spec fn carried(psr: u32) -> bool {
    psr / 0x2000_0000 % 2 == 1
}

/// The flag V of a status word.
pub open spec fn overflowed(psr: u32) -> bool {
    psr / 0x1000_0000 % 2 == 1
}

/// Whether the condition with this code is met under a status word.
pub open spec fn condition_met(code: int, psr: u32) -> bool {
    if code == 0 {
        zero(psr)
    } else if code == 1 {
        !zero(psr)
    } else if code == 2 {
        carried(psr)
    } else if code == 3 {
        !carried(psr)
    } else if code == 4 {
        negative(psr)
    } else if code == 5 {
        !negative(psr)
    } else if code == 6 {
        overflowed(psr)
    } else if code == 7 {
        !overflowed(psr)
    } else if code == 8 {
        carried(psr) && !zero(psr)
    } else if code == 9 {
        !(carried(psr) && !zero(psr))
    } else if code == 10 {
        negative(psr) == overflowed(psr)
    } else if code == 11 {
        negative(psr) != overflowed(psr)
    } else if code == 12 {
        !zero(psr) && negative(psr) == overflowed(psr)
    } else if code == 13 {
        !(!zero(psr) && negative(psr) == overflowed(psr))
    } else {
        code == 14
    }
}

/// The masked bits of a status word are digits of its number.
pub proof fn lemma_status_digits(w: u32)
    by (bit_vector)
    ensures
        (w & 0x8000_0000 != 0) == (w >= 0x8000_0000),
        (w & 0x4000_0000 != 0) == (w / 0x4000_0000 % 2 == 1),
        (w & 0x2000_0000 != 0) == (w / 0x2000_0000 % 2 == 1),
        (w & 0x1000_0000 != 0) == (w / 0x1000_0000 % 2 == 1),
        (w & 0x80 != 0) == (w / 0x80 % 2 == 1),
        (w & 0x40 != 0) == (w / 0x40 % 2 == 1),
        (w & 0x20 != 0) == (w / 0x20 % 2 == 1),
        w & 0x1F == w % 0x20,
        w & 0x0FFF_FFFF == w % 0x1000_0000,
        w & 0x20 == (w & 0x0FFF_FFFF) & 0x20,
        ((w >> 31) & 1u32 != 0) == (w >= 0x8000_0000),
        (w & !0x20u32) == w - w / 0x20 % 2 * 0x20,
        (w | 0x20u32) == w + (1 - w / 0x20 % 2) * 0x20,
        (w & !2u32) == w - w / 2 % 2 * 2,
        w | 1u32 == w - w % 2 + 1,
{
}

/// Replacing the flags, the lowest byte or the mode of a status word, and what
/// an exception does to it, as digits.
pub proof fn lemma_status_writes(w: u32, value: u32, m: u32)
    by (bit_vector)
    requires
        m < 0x20,
    ensures
        (w & !0u32) | (value & 0u32) == w,
        (w & !0xFFu32) | (value & 0xFFu32) == w / 0x100 * 0x100 + value % 0x100,
        (w & !0xF000_0000u32) | (value & 0xF000_0000u32) == value / 0x1000_0000 * 0x1000_0000 + w
            % 0x1000_0000,
        (w & !0xF000_00FFu32) | (value & 0xF000_00FFu32) == value / 0x1000_0000 * 0x1000_0000 + w
            % 0x1000_0000 / 0x100 * 0x100 + value % 0x100,
        ((((w & !0x1Fu32) | (m & 0x1Fu32)) | 0x80u32) & !0x20u32) == w / 0x100 * 0x100 + 0x80 + w
            / 0x40 % 2 * 0x40 + m,
        ((w & !0x1Fu32) | (m & 0x1Fu32)) == w / 0x20 * 0x20 + m,
{
}

/// Setting the two top flags of a status word.
pub proof fn lemma_two_flags(w: u32, n: bool, z: bool)
    by (bit_vector)
    ensures
        ({
            let w1 = if n {
                w | 0x8000_0000u32
            } else {
                w & !0x8000_0000u32
            };
            let w2 = if z {
                w1 | 0x4000_0000u32
            } else {
                w1 & !0x4000_0000u32
            };
            &&& (w2 >= 0x8000_0000) == n
            &&& (w2 / 0x4000_0000 % 2 == 1) == z
            &&& w2 % 0x4000_0000 == w % 0x4000_0000
            &&& w2 & 0x20u32 == w & 0x20u32
        }),
{
}

/// The fields of an ARM instruction are digits of its number.
pub proof fn lemma_word_digits(w: u32)
    by (bit_vector)
    ensures
        (w >> 28) & 0xF == w / 0x1000_0000,
        (w >> 25) & 7 == w / 0x200_0000 % 8,
        (w >> 0) % 16 == w % 16,
        (w >> 8) % 16 == w / 0x100 % 16,
        (w >> 12) % 16 == w / 0x1000 % 16,
        (w >> 16) % 16 == w / 0x1_0000 % 16,
        (w >> 16) % 0x100 == w / 0x1_0000 % 0x100,
        (w >> 21) % 16 == w / 0x20_0000 % 16,
        (w >> 7) % 32 == w / 0x80 % 32,
        (w >> 5) % 4 == w / 0x20 % 4,
        ((w >> 4) & 1u32 != 0) == (w / 0x10 % 2 == 1),
        ((w >> 15) & 1u32 != 0) == (w / 0x8000 % 2 == 1),
        ((w >> 16) & 1u32 != 0) == (w / 0x1_0000 % 2 == 1),
        ((w >> 19) & 1u32 != 0) == (w / 0x8_0000 % 2 == 1),
        ((w >> 20) & 1u32 != 0) == (w / 0x10_0000 % 2 == 1),
        ((w >> 21) & 1u32 != 0) == (w / 0x20_0000 % 2 == 1),
        ((w >> 22) & 1u32 != 0) == (w / 0x40_0000 % 2 == 1),
        ((w >> 23) & 1u32 != 0) == (w / 0x80_0000 % 2 == 1),
        ((w >> 24) & 1u32 != 0) == (w / 0x100_0000 % 2 == 1),
        ((w >> 25) & 1u32 != 0) == (w / 0x200_0000 % 2 == 1),
{
}

/// The masks that tell the ARM instructions apart, as digits.
pub proof fn lemma_word_patterns(w: u32)
    by (bit_vector)
    ensures
        (w & 0x0FFF_FFF0 == 0x012F_FF10) == (w / 0x10 % 0x100_0000 == 0x12_FFF1),
        (w & 0x0FC0_00F0 == 0x0000_0090) == (w / 0x40_0000 % 64 == 0 && w / 0x10 % 16 == 9),
        (w & 0x0F80_00F0 == 0x0080_0090) == (w / 0x80_0000 % 32 == 1 && w / 0x10 % 16 == 9),
        (w & 0x0FB0_0FF0 == 0x0100_0090) == (w / 0x80_0000 % 32 == 2 && w / 0x10_0000 % 4 == 0
            && w / 0x10 % 256 == 9),
        (w & 0x90 == 0x90) == (w / 0x80 % 2 == 1 && w / 0x10 % 2 == 1),
        (w & 0x60 != 0) == (w / 0x20 % 4 != 0),
        ((w >> 21) & 0xC == 8) == (w / 0x80_0000 % 4 == 2),
        // A multiplication or a swap has both ends of its lowest byte set.
        w / 0x10 % 16 == 9 ==> w / 0x80 % 2 == 1 && w / 0x10 % 2 == 1 && w / 0x20 % 4 == 0,
        w / 0x10 % 256 == 9 ==> w / 0x80 % 2 == 1 && w / 0x10 % 2 == 1 && w / 0x10 % 16 == 9
            && w / 0x20 % 4 == 0,
        w / 0x40_0000 % 64 == 0 ==> w / 0x200_0000 % 8 == 0 && w / 0x40_0000 % 8 == 0,
        w / 0x80_0000 % 32 == 1 ==> w / 0x200_0000 % 8 == 0,
        w / 0x80_0000 % 32 == 2 ==> w / 0x200_0000 % 8 == 0,
        w / 0x10 % 0x100_0000 == 0x12_FFF1 ==> w / 0x200_0000 % 8 == 0 && w / 0x10_0000 % 2 == 0
            && w / 0x20_0000 % 16 == 9 && w / 0x80_0000 % 4 == 2 && w / 0x80 % 2 == 0,
        (w / 0x80_0000 % 4 == 2) == (8 <= w / 0x20_0000 % 16 && w / 0x20_0000 % 16 <= 11),
        w / 0x10 % 2 == 1 && w / 0x80 % 2 == 1 && w / 0x20 % 4 == 0 ==> w / 0x10 % 16 == 9,
{
}

/// The fields of a THUMB instruction are digits of its number.
pub proof fn lemma_half_digits(w: u16)
    by (bit_vector)
    ensures
        w >> 13 == w / 0x2000,
        (w >> 11) & 3 == w / 0x800 % 4,
        (w >> 9) & 3 == w / 0x200 % 4,
        (w >> 8) & 0xF == w / 0x100 % 16,
        (w >> 11) % 4 == w / 0x800 % 4,
        (w >> 10) % 4 == w / 0x400 % 4,
        (w >> 8) % 4 == w / 0x100 % 4,
        (w >> 8) % 16 == w / 0x100 % 16,
        (w >> 6) % 16 == w / 0x40 % 16,
        (w >> 6) % 32 == w / 0x40 % 32,
        (w >> 0) % 8 == w % 8,
        (w >> 3) % 8 == w / 8 % 8,
        (w >> 6) % 8 == w / 0x40 % 8,
        (w >> 8) % 8 == w / 0x100 % 8,
        w / 8 % 16 == w / 8 % 8 + w / 0x40 % 2 * 8,
        ((w >> 6) & 1u16 != 0) == (w / 0x40 % 2 == 1),
        ((w >> 7) & 1u16 != 0) == (w / 0x80 % 2 == 1),
        ((w >> 8) & 1u16 != 0) == (w / 0x100 % 2 == 1),
        ((w >> 9) & 1u16 != 0) == (w / 0x200 % 2 == 1),
        ((w >> 10) & 1u16 != 0) == (w / 0x400 % 2 == 1),
        ((w >> 11) & 1u16 != 0) == (w / 0x800 % 2 == 1),
        ((w >> 12) & 1u16 != 0) == (w / 0x1000 % 2 == 1),
{
}

/// The fields of a device register are digits of its number.
pub proof fn lemma_register_digits(w: u16)
    by (bit_vector)
    ensures
        (w >> 12) & 3 == w / 0x1000 % 4,
        (w >> 7) & 3 == w / 0x80 % 4,
        (w >> 5) & 3 == w / 0x20 % 4,
        (w >> 14) % 4 == w / 0x4000,
        (w >> 8) % 32 == w / 0x100 % 32,
        (w >> 2) % 4 == w / 4 % 4,
        (w >> 9) % 32 == w / 0x200 % 32,
        (w >> 10) % 4 == w / 0x400 % 4,
        (w >> 12) % 16 == w / 0x1000,
        ((w >> 2) & 1u16 != 0) == (w / 4 % 2 == 1),
        ((w >> 4) & 1u16 != 0) == (w / 0x10 % 2 == 1),
        ((w >> 8) & 1u16 != 0) == (w / 0x100 % 2 == 1),
        ((w >> 9) & 1u16 != 0) == (w / 0x200 % 2 == 1),
        ((w >> 6) & 1u16 != 0) == (w / 0x40 % 2 == 1),
        ((w >> 7) & 1u16 != 0) == (w / 0x80 % 2 == 1),
        ((w >> 10) & 1u16 != 0) == (w / 0x400 % 2 == 1),
        ((w >> 11) & 1u16 != 0) == (w / 0x800 % 2 == 1),
        ((w >> 12) & 1u16 != 0) == (w / 0x1000 % 2 == 1),
        ((w >> 13) & 1u16 != 0) == (w / 0x2000 % 2 == 1),
        ((w >> 14) & 1u16 != 0) == (w / 0x4000 % 2 == 1),
        ((w >> 15) & 1u16 != 0) == (w >= 0x8000),
{
}

/// The logical operations work on each bit by itself.
pub proof fn lemma_bitwise(a: u32, b: u32, k: u32)
    by (bit_vector)
    requires
        k < 32,
    ensures
        has_bit(a & b, k) == (has_bit(a, k) && has_bit(b, k)),
        has_bit(a ^ b, k) == (has_bit(a, k) != has_bit(b, k)),
        has_bit(a | b, k) == (has_bit(a, k) || has_bit(b, k)),
        has_bit(a & !b, k) == (has_bit(a, k) && !has_bit(b, k)),
        has_bit(!b, k) == !has_bit(b, k),
        has_bit(a, 31) == (a >= 0x8000_0000),
        has_bit(0, k) == false,
        (a ^ b == 0) == (a == b),
{
}

/// A shift moves each bit.
pub proof fn lemma_shifted_bits(v: u32, n: u32, k: u32)
    by (bit_vector)
    requires
        0 < n < 32,
        k < 32,
    ensures
        has_bit(v << n, k) == (k >= n && has_bit(v, (k - n) as u32)),
        has_bit(v >> n, k) == (k + n < 32 && has_bit(v, (k + n) as u32)),
        has_bit(((v as i32) >> n) as u32, k) == if k + n < 32 {
            has_bit(v, (k + n) as u32)
        } else {
            has_bit(v, 31)
        },
        has_bit((v >> n) | (v << ((32 - n) as u32)), k) == if k + n < 32 {
            has_bit(v, (k + n) as u32)
        } else {
            has_bit(v, (k + n - 32) as u32)
        },
        has_bit(0x8000_0000u32 | (v >> 1), k) == if k == 31 {
            true
        } else {
            has_bit(v, (k + 1) as u32)
        },
        has_bit(0u32 | (v >> 1), k) == if k == 31 {
            false
        } else {
            has_bit(v, (k + 1) as u32)
        },
        has_bit(0xFFFF_FFFFu32, k),
        !has_bit(0u32, k),
        ((v >> n) & 1u32 != 0) == ((v >> n) & 1u32 == 1),
        ((v >> 0) & 1u32 != 0) == ((v >> 0) & 1u32 == 1),
        (v >> 5) % 4 == v / 0x20 % 4,
{
}

/// Wrapping arithmetic is arithmetic modulo 2^32.
pub proof fn lemma_wrapping(a: u32, b: u32)
    ensures
        a.wrapping_add(b) == (a + b) % 0x1_0000_0000,
        a.wrapping_sub(b) == (a - b) % 0x1_0000_0000,
{
}

/// Bits of the control words of calls, and the status word at reset.
pub proof fn lemma_block_control(w: u32)
    by (bit_vector)
    ensures
        ((w >> 26) & 1u32 != 0) == (w / 0x400_0000 % 2 == 1),
        ((w >> 0) & 1u32 != 0) == (w % 2 == 1),
        ((w >> 1) & 1u32 != 0) == (w / 2 % 2 == 1),
        ((w >> 2) & 1u32 != 0) == (w / 4 % 2 == 1),
        ((w >> 3) & 1u32 != 0) == (w / 8 % 2 == 1),
        (((0u32 & !0x1Fu32) | (0x13u32 & 0x1Fu32)) | 0x80u32) | 0x40u32 == 0xD3,
        0xD3u32 & 0x1F == 0x13,
{
}

/// A word turned by whole bytes.
pub proof fn lemma_turned_bytes(w: u32)
    by (bit_vector)
    ensures
        ({
            let one = (w >> 8) | (w << 24);
            let two = (w >> 16) | (w << 16);
            let three = (w >> 24) | (w << 8);
            &&& one % 0x100 == w / 0x100 % 0x100
            &&& one / 0x100 % 0x100 == w / 0x1_0000 % 0x100
            &&& one / 0x1_0000 % 0x100 == w / 0x100_0000
            &&& one / 0x100_0000 == w % 0x100
            &&& two % 0x100 == w / 0x1_0000 % 0x100
            &&& two / 0x100 % 0x100 == w / 0x100_0000
            &&& two / 0x1_0000 % 0x100 == w % 0x100
            &&& two / 0x100_0000 == w / 0x100 % 0x100
            &&& three % 0x100 == w / 0x100_0000
            &&& three / 0x100 % 0x100 == w % 0x100
            &&& three / 0x1_0000 % 0x100 == w / 0x100 % 0x100
            &&& three / 0x100_0000 == w / 0x1_0000 % 0x100
        }),
{
}

/// The bits of a field that is cut out and put elsewhere.
pub proof fn lemma_field_bits(v: u32, n: u32, width: u32, w: u32, i: u32)
    by (bit_vector)
    requires
        n < 32,
        width < 32,
        i < 32,
    ensures
        has_bit((v >> n) & (((1u32 << width) - 1) as u32), i) == (i < width && n + i < 32
            && has_bit(v, (n + i) as u32)),
        has_bit(w | ((v & (((1u32 << width) - 1) as u32)) << n), i) == (has_bit(w, i) || (i >= n
            && i - n < width && has_bit(v, (i - n) as u32))),
        has_bit(w | ((v & 0xFFFF_FFFFu32) << n), i) == (has_bit(w, i) || (i >= n && has_bit(
            v,
            (i - n) as u32,
        ))),
{
}

/// A symbol put above `low`, which has four bits or none.
pub proof fn lemma_symbol_bits(symbol: u8, low: u32)
    by (bit_vector)
    requires
        low < 16,
    ensures
        0u32 | (((symbol as u32) & 0xFFu32) << 0u32) == symbol,
        0u32 | (((symbol as u32) & 0xFu32) << 0u32) == symbol % 16,
        low | (((symbol as u32) & 0xFu32) << 4u32) == low + (symbol % 16) * 16,
        1u32 << 4u32 == 16,
{
}

/// A halfword turned by eight bits within a word.
pub proof fn lemma_half_turned(half: u16)
    by (bit_vector)
    ensures
        ((half as u32 >> 8) | ((half as u32) << 24)) == half / 0x100 + 0x100_0000 * (half % 0x100),
{
}

/// Bit `i` of a byte, counted from the top.
pub open spec fn top_bit(byte: u8, i: int) -> bool {
    if i == 0 {
        byte >= 0x80
    } else if i == 1 {
        byte / 0x40 % 2 == 1
    } else if i == 2 {
        byte / 0x20 % 2 == 1
    } else if i == 3 {
        byte / 0x10 % 2 == 1
    } else if i == 4 {
        byte / 8 % 2 == 1
    } else if i == 5 {
        byte / 4 % 2 == 1
    } else if i == 6 {
        byte / 2 % 2 == 1
    } else {
        byte % 2 == 1
    }
}

/// The bits of a byte are digits of its number.
pub proof fn lemma_byte_digits(w: u8)
    by (bit_vector)
    ensures
        ((w as u32 >> 7) & 1u32 != 0) == (w >= 0x80),
        ((w as u32 >> 6) & 1u32 != 0) == (w / 0x40 % 2 == 1),
        ((w as u32 >> 5) & 1u32 != 0) == (w / 0x20 % 2 == 1),
        ((w as u32 >> 4) & 1u32 != 0) == (w / 0x10 % 2 == 1),
        ((w as u32 >> 3) & 1u32 != 0) == (w / 8 % 2 == 1),
        ((w as u32 >> 2) & 1u32 != 0) == (w / 4 % 2 == 1),
        ((w as u32 >> 1) & 1u32 != 0) == (w / 2 % 2 == 1),
        ((w as u32 >> 0) & 1u32 != 0) == (w % 2 == 1),
{
}

} // verus!

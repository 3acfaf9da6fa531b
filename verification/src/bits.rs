//! Bit-level vocabulary shared by the whole core: single bits, fields of an
//! instruction word, rotations, sign extension and little-endian bytes.
//!
//! Every function here is total on the values it accepts and says exactly what
//! it returns, so the rest of the library can speak in these terms and leave
//! the bit-vector reasoning to this module.

use vstd::prelude::*;

verus! {

/// Bit `n` (0 is the least significant) of a 32-bit word.
#[verifier::allow_in_spec]
pub fn bit(word: u32, n: u32) -> bool
    requires
        n < 32,
    returns
        (word >> n) & 1u32 != 0,
{
    (word >> n) & 1 != 0
}

/// Bit `n` (0 is the least significant) of a 16-bit halfword.
#[verifier::allow_in_spec]
pub fn bit16(half: u16, n: u16) -> bool
    requires
        n < 16,
    returns
        (half >> n) & 1u16 != 0,
{
    (half >> n) & 1 != 0
}

/// The 4-bit field of `word` whose lowest bit is `lo`.
pub open spec fn nibble_of(word: u32, lo: u32) -> u32 {
    (word >> lo) % 16
}

/// Extracts the 4-bit field of `word` whose lowest bit is `lo`.
pub fn nibble(word: u32, lo: u32) -> (r: usize)
    requires
        lo < 32,
    ensures
        r == nibble_of(word, lo),
        r < 16,
{
    ((word >> lo) % 16) as usize
}

/// The 3-bit field of `half` whose lowest bit is `lo`.
pub open spec fn octal_of(half: u16, lo: u16) -> u16 {
    (half >> lo) % 8
}

/// Extracts the 3-bit field of `half` whose lowest bit is `lo`.
pub fn octal(half: u16, lo: u16) -> (r: usize)
    requires
        lo < 16,
    ensures
        r == octal_of(half, lo),
        r < 8,
{
    ((half >> lo) % 8) as usize
}

/// Rotates `word` right by `n` places; only `n` modulo 32 matters.
#[verifier::allow_in_spec]
pub fn rotate_right(word: u32, n: u32) -> u32
    returns
        (if n % 32 == 0 {
            word
        } else {
            (word >> (n % 32)) | (word << ((32 - n % 32) as u32))
        }),
{
    let k: u32 = n % 32;
    if k == 0 {
        word
    } else {
        (word >> k) | (word << (32 - k))
    }
}

/// Shifts `word` right by `n` places, replicating its sign bit.
#[verifier::allow_in_spec]
pub fn arithmetic_shift_right(word: u32, n: u32) -> u32
    requires
        n < 32,
    returns
        ((word as i32) >> n) as u32,
{
    ((word as i32) >> n) as u32
}

/// An 8-bit value extended to 32 bits as a signed number.
#[verifier::allow_in_spec]
pub fn sign_extend_8(byte: u8) -> u32
    returns
        (if byte < 0x80 {
            byte as u32
        } else {
            (0xFFFF_FF00 + byte) as u32
        }),
{
    if byte < 0x80 {
        byte as u32
    } else {
        0xFFFF_FF00 + byte as u32
    }
}

/// A 16-bit value extended to 32 bits as a signed number.
#[verifier::allow_in_spec]
pub fn sign_extend_16(half: u16) -> u32
    returns
        (if half < 0x8000 {
            half as u32
        } else {
            (0xFFFF_0000 + half) as u32
        }),
{
    if half < 0x8000 {
        half as u32
    } else {
        0xFFFF_0000 + half as u32
    }
}

/// Two bytes, lowest first, as a 16-bit value.
#[verifier::allow_in_spec]
pub fn half_from_bytes(b0: u8, b1: u8) -> u16
    returns
        (b0 + 0x100 * b1) as u16,
{
    b0 as u16 + 0x100 * b1 as u16
}

/// Four bytes, lowest first, as a 32-bit value.
#[verifier::allow_in_spec]
pub fn word_from_bytes(b0: u8, b1: u8, b2: u8, b3: u8) -> u32
    returns
        (b0 + 0x100 * b1 + 0x1_0000 * b2 + 0x100_0000 * b3) as u32,
{
    b0 as u32 + 0x100 * b1 as u32 + 0x1_0000 * b2 as u32 + 0x100_0000 * b3 as u32
}

/// `addr` moved by `step` bytes, modulo 2^32.
#[verifier::allow_in_spec]
pub fn offset_by(addr: u32, step: i32) -> u32
    returns
        ((addr + step) % 0x1_0000_0000) as u32,
{
    let sum: i64 = addr as i64 + step as i64;
    if sum < 0 {
        (sum + 0x1_0000_0000) as u32
    } else if sum > 0xFFFF_FFFF {
        (sum - 0x1_0000_0000) as u32
    } else {
        sum as u32
    }
}

/// Byte `k` of a 32-bit value (byte 0 is the least significant).
pub open spec fn byte_of(word: u32, k: int) -> u8
    recommends
        0 <= k < 4,
{
    if k == 0 {
        (word % 0x100) as u8
    } else if k == 1 {
        (word / 0x100 % 0x100) as u8
    } else if k == 2 {
        (word / 0x1_0000 % 0x100) as u8
    } else {
        (word / 0x100_0000) as u8
    }
}

/// How many of the lowest `n` bits of `word` are set.
pub open spec fn ones(word: u32, n: nat) -> nat
    decreases n,
{
    if n == 0 {
        0
    } else {
        ones(word, (n - 1) as nat) + (if bit(word, (n - 1) as u32) {
            1nat
        } else {
            0nat
        })
    }
}

/// `ones` never exceeds the number of bits looked at.
pub proof fn lemma_ones_bound(word: u32, n: nat)
    ensures
        ones(word, n) <= n,
    decreases n,
{
    if n > 0 {
        lemma_ones_bound(word, (n - 1) as nat);
    }
}

/// Counts the set bits among the lowest `n` bits of `word`.
pub fn count_ones(word: u32, n: u32) -> (r: u32)
    requires
        n <= 32,
    ensures
        r == ones(word, n as nat),
        r <= n,
{
    let mut i: u32 = 0;
    let mut total: u32 = 0;
    while i < n
        invariant
            i <= n <= 32,
            total == ones(word, i as nat),
            total <= i,
        decreases n - i,
    {
        if bit(word, i) {
            total = total + 1;
        }
        i = i + 1;
    }
    total
}

} // verus!

//! The arithmetic unit and the barrel shifter.
//!
//! Additions and subtractions are stated over the integers: the result is the
//! sum modulo 2^32, the carry says whether the unsigned sum left 32 bits (for a
//! subtraction: whether nothing was borrowed), and the overflow says whether
//! the signed sum left 32 bits.

use vstd::prelude::*;

use crate::bits::{arithmetic_shift_right, bit, rotate_right};

verus! {

/// What an operation produces: the result, the carry, and the overflow if the
/// operation defines one.
pub type AluOutput = (u32, bool, Option<bool>);

/// The value of a word read as a signed number.
pub open spec fn signed(word: u32) -> int {
    if word >= 0x8000_0000 {
        word - 0x1_0000_0000
    } else {
        word as int
    }
}

/// Whether a number fits in 32 signed bits.
pub open spec fn fits_signed(value: int) -> bool {
    -0x8000_0000 <= value <= 0x7FFF_FFFF
}

/// One if the flag is set.
pub open spec fn carry_value(carry: bool) -> int {
    if carry {
        1
    } else {
        0
    }
}

/// `a + b + carry`.
pub open spec fn sum(a: u32, b: u32, carry: bool) -> AluOutput {
    let total = a + b + carry_value(carry);
    (
        (total % 0x1_0000_0000) as u32,
        total > 0xFFFF_FFFF,
        Some(!fits_signed(signed(a) + signed(b) + carry_value(carry))),
    )
}

/// `a - b`, less one more when the carry is clear.
pub open spec fn difference(a: u32, b: u32, carry: bool) -> AluOutput {
    let total = a - b - (1 - carry_value(carry));
    (
        (total % 0x1_0000_0000) as u32,
        total >= 0,
        Some(!fits_signed(signed(a) - signed(b) - (1 - carry_value(carry)))),
    )
}

/// The value of a word read as a signed number.
pub fn signed_value(word: u32) -> (r: i64)
    ensures
        r == signed(word),
        -0x8000_0000 <= r <= 0x7FFF_FFFF,
{
    if word >= 0x8000_0000 {
        word as i64 - 0x1_0000_0000
    } else {
        word as i64
    }
}

/// A signed number as a word, modulo 2^32.
pub open spec fn word_of(value: int) -> u32 {
    (value % 0x1_0000_0000) as u32
}

/// A signed number as a word, modulo 2^32.
pub fn to_word(value: i64) -> (r: u32)
    requires
        -0x1_0000_0000 <= value <= 0x1_FFFF_FFFF,
    ensures
        r == word_of(value as int),
{
    if value < 0 {
        (value + 0x1_0000_0000) as u32
    } else if value > 0xFFFF_FFFF {
        (value - 0x1_0000_0000) as u32
    } else {
        value as u32
    }
}

/// Adds two words and the carry.
pub fn alu_add(a: u32, b: u32, carry_in: bool) -> (r: AluOutput)
    ensures
        r == sum(a, b, carry_in),
{
    let carry: u64 = if carry_in {
        1
    } else {
        0
    };
    let total: u64 = a as u64 + b as u64 + carry;
    let wide: i64 = signed_value(a) + signed_value(b) + carry as i64;
    let overflow: bool = wide < -0x8000_0000 || wide > 0x7FFF_FFFF;
    ((total % 0x1_0000_0000) as u32, total > 0xFFFF_FFFF, Some(overflow))
}

/// Subtracts `b` from `a`, less one more when the carry is clear. As in the
/// hardware this is the sum of `a`, the complement of `b` and the carry.
pub fn alu_sub(a: u32, b: u32, carry_in: bool) -> (r: AluOutput)
    ensures
        r == difference(a, b, carry_in),
{
    assert(!b == 0xFFFF_FFFF - b) by (bit_vector);
    let r: AluOutput = alu_add(a, !b, carry_in);
    proof {
        let total = a - b - (1 - carry_value(carry_in));
        assert(a + !b + carry_value(carry_in) == total + 0x1_0000_0000);
        assert((total + 0x1_0000_0000) % 0x1_0000_0000 == total % 0x1_0000_0000);
        assert(signed(!b) == -signed(b) - 1);
    }
    r
}

/// Kinds of shift.
#[derive(Debug, Clone, Copy, PartialEq, Eq, Structural)]
pub enum ShiftType {
    /// Logical left.
    Lsl,
    /// Logical right.
    Lsr,
    /// Arithmetic right.
    Asr,
    /// Rotate right.
    Ror,
}

impl ShiftType {
    /// The kind in the lowest two bits of `bits`.
    #[verifier::allow_in_spec]
    pub fn from_bits(bits: u32) -> ShiftType
        returns
            (if bits % 4 == 0 {
                ShiftType::Lsl
            } else if bits % 4 == 1 {
                ShiftType::Lsr
            } else if bits % 4 == 2 {
                ShiftType::Asr
            } else {
                ShiftType::Ror
            }),
    {
        match bits % 4 {
            0 => ShiftType::Lsl,
            1 => ShiftType::Lsr,
            2 => ShiftType::Asr,
            _ => ShiftType::Ror,
        }
    }
}

/// The sign of `value` in all 32 bits.
pub open spec fn sign_fill(value: u32) -> u32 {
    if bit(value, 31) {
        0xFFFF_FFFF
    } else {
        0
    }
}

/// Result and carry of a shift by an immediate amount. An amount of zero has a
/// meaning of its own: no shift for `LSL`, a shift by 32 for `LSR` and `ASR`,
/// and for `ROR` a rotation by one through the carry.
pub open spec fn shifted_by_immediate(
    ty: ShiftType,
    amount: u32,
    value: u32,
    carry: bool,
) -> (u32, bool) {
    match ty {
        ShiftType::Lsl => if amount == 0 {
            (value, carry)
        } else {
            (value << amount, bit(value, (32 - amount) as u32))
        },
        ShiftType::Lsr => if amount == 0 {
            (0, bit(value, 31))
        } else {
            (value >> amount, bit(value, (amount - 1) as u32))
        },
        ShiftType::Asr => if amount == 0 {
            (sign_fill(value), bit(value, 31))
        } else {
            (arithmetic_shift_right(value, amount), bit(value, (amount - 1) as u32))
        },
        ShiftType::Ror => if amount == 0 {
            (
                (if carry {
                    0x8000_0000u32
                } else {
                    0u32
                }) | (value >> 1),
                bit(value, 0),
            )
        } else {
            (rotate_right(value, amount), bit(value, (amount - 1) as u32))
        },
    }
}

/// Shifts by an immediate amount.
pub fn shift_by_immediate(ty: ShiftType, amount: u32, value: u32, carry_in: bool) -> (r: (
    u32,
    bool,
))
    requires
        amount < 32,
    ensures
        r == shifted_by_immediate(ty, amount, value, carry_in),
{
    match ty {
        ShiftType::Lsl => {
            if amount == 0 {
                (value, carry_in)
            } else {
                (value << amount, bit(value, 32 - amount))
            }
        },
        ShiftType::Lsr => {
            if amount == 0 {
                (0, bit(value, 31))
            } else {
                (value >> amount, bit(value, amount - 1))
            }
        },
        ShiftType::Asr => {
            if amount == 0 {
                let sign: bool = bit(value, 31);
                (
                    if sign {
                        0xFFFF_FFFF
                    } else {
                        0
                    },
                    sign,
                )
            } else {
                (arithmetic_shift_right(value, amount), bit(value, amount - 1))
            }
        },
        ShiftType::Ror => {
            if amount == 0 {
                let top: u32 = if carry_in {
                    0x8000_0000
                } else {
                    0
                };
                (top | (value >> 1), bit(value, 0))
            } else {
                (rotate_right(value, amount), bit(value, amount - 1))
            }
        },
    }
}

/// Result and carry of a shift by an amount from a register. Zero leaves value
/// and carry alone; 32 and more shift everything out.
pub open spec fn shifted_by_register(
    ty: ShiftType,
    amount: u32,
    value: u32,
    carry: bool,
) -> (u32, bool) {
    if amount == 0 {
        (value, carry)
    } else {
        match ty {
            ShiftType::Lsl => if amount < 32 {
                (value << amount, bit(value, (32 - amount) as u32))
            } else {
                (0, amount == 32 && bit(value, 0))
            },
            ShiftType::Lsr => if amount < 32 {
                (value >> amount, bit(value, (amount - 1) as u32))
            } else {
                (0, amount == 32 && bit(value, 31))
            },
            ShiftType::Asr => if amount < 32 {
                (arithmetic_shift_right(value, amount), bit(value, (amount - 1) as u32))
            } else {
                (sign_fill(value), bit(value, 31))
            },
            ShiftType::Ror => if amount % 32 == 0 {
                (value, bit(value, 31))
            } else {
                (rotate_right(value, amount), bit(value, (amount % 32 - 1) as u32))
            },
        }
    }
}

/// Shifts by an amount from a register.
pub fn shift_by_register(ty: ShiftType, amount: u32, value: u32, carry_in: bool) -> (r: (u32, bool))
    ensures
        r == shifted_by_register(ty, amount, value, carry_in),
{
    if amount == 0 {
        return (value, carry_in);
    }
    match ty {
        ShiftType::Lsl => {
            if amount < 32 {
                (value << amount, bit(value, 32 - amount))
            } else {
                (0, amount == 32 && bit(value, 0))
            }
        },
        ShiftType::Lsr => {
            if amount < 32 {
                (value >> amount, bit(value, amount - 1))
            } else {
                (0, amount == 32 && bit(value, 31))
            }
        },
        ShiftType::Asr => {
            if amount < 32 {
                (arithmetic_shift_right(value, amount), bit(value, amount - 1))
            } else {
                let sign: bool = bit(value, 31);
                (
                    if sign {
                        0xFFFF_FFFF
                    } else {
                        0
                    },
                    sign,
                )
            }
        },
        ShiftType::Ror => {
            let r: u32 = amount % 32;
            if r == 0 {
                (value, bit(value, 31))
            } else {
                (rotate_right(value, amount), bit(value, r - 1))
            }
        },
    }
}

/// Internal cycles of a multiplication: it ends early when the high bytes of
/// the multiplier are all zeros, or all ones where the operation is signed.
pub open spec fn multiplier_cycles(multiplier: u32, allow_all_ones: bool) -> u64 {
    if multiplier < 0x100 || (allow_all_ones && multiplier >= 0xFFFF_FF00) {
        1
    } else if multiplier < 0x1_0000 || (allow_all_ones && multiplier >= 0xFFFF_0000) {
        2
    } else if multiplier < 0x100_0000 || (allow_all_ones && multiplier >= 0xFF00_0000) {
        3
    } else {
        4
    }
}

/// Internal cycles of a multiplication by `multiplier`.
pub fn multiply_internal_cycles(multiplier: u32, allow_all_ones: bool) -> (r: u64)
    ensures
        r == multiplier_cycles(multiplier, allow_all_ones),
        1 <= r <= 4,
{
    if multiplier < 0x100 || (allow_all_ones && multiplier >= 0xFFFF_FF00) {
        1
    } else if multiplier < 0x1_0000 || (allow_all_ones && multiplier >= 0xFFFF_0000) {
        2
    } else if multiplier < 0x100_0000 || (allow_all_ones && multiplier >= 0xFF00_0000) {
        3
    } else {
        4
    }
}

/// The displacement of an ARM branch: 24 bits, signed, in words.
#[verifier::allow_in_spec]
pub fn arm_branch_offset(instr: u32) -> i32
    returns
        (if instr % 0x100_0000 >= 0x80_0000 {
            ((instr % 0x100_0000 - 0x100_0000) * 4) as i32
        } else {
            (instr % 0x100_0000 * 4) as i32
        }),
{
    let field: i32 = (instr % 0x100_0000) as i32;
    if field >= 0x80_0000 {
        (field - 0x100_0000) * 4
    } else {
        field * 4
    }
}

/// The displacement of an unconditional THUMB branch: 11 bits, signed, in
/// halfwords.
#[verifier::allow_in_spec]
pub fn thumb_branch_offset11(instr: u16) -> i32
    returns
        (if instr % 0x800 >= 0x400 {
            ((instr % 0x800 - 0x800) * 2) as i32
        } else {
            (instr % 0x800 * 2) as i32
        }),
{
    let field: i32 = (instr % 0x800) as i32;
    if field >= 0x400 {
        (field - 0x800) * 2
    } else {
        field * 2
    }
}

/// The displacement of a conditional THUMB branch: 8 bits, signed, in
/// halfwords.
#[verifier::allow_in_spec]
pub fn thumb_branch_offset8(instr: u16) -> i32
    returns
        (if instr % 0x100 >= 0x80 {
            ((instr % 0x100 - 0x100) * 2) as i32
        } else {
            (instr % 0x100 * 2) as i32
        }),
{
    let field: i32 = (instr % 0x100) as i32;
    if field >= 0x80 {
        (field - 0x100) * 2
    } else {
        field * 2
    }
}

/// The high part of a long THUMB branch: 11 bits, signed, in units of 4 KiB.
#[verifier::allow_in_spec]
pub fn thumb_long_branch_high(instr: u16) -> i32
    returns
        (if instr % 0x800 >= 0x400 {
            ((instr % 0x800 - 0x800) * 0x1000) as i32
        } else {
            (instr % 0x800 * 0x1000) as i32
        }),
{
    let field: i32 = (instr % 0x800) as i32;
    if field >= 0x400 {
        (field - 0x800) * 0x1000
    } else {
        field * 0x1000
    }
}

/// A comparison by subtraction orders the operands: Z says that they are equal,
/// C that the first is not below the second unsigned, and N differs from V
/// exactly when the first is below the second signed.
pub proof fn law_compare(a: u32, b: u32)
    ensures
        ({
            let (result, carry, overflow) = difference(a, b, true);
            &&& (result == 0) == (a == b)
            &&& carry == (a >= b)
            &&& (bit(result, 31) != overflow->0) == (signed(a) < signed(b))
        }),
{
    let (result, carry, overflow) = difference(a, b, true);
    assert(((result >> 31) & 1u32 != 0) == (result >= 0x8000_0000)) by (bit_vector);
}

/// Adding undoes subtracting.
pub proof fn law_add_undoes_sub(a: u32, b: u32)
    ensures
        sum(difference(a, b, true).0, b, false).0 == a,
        difference(sum(a, b, false).0, b, true).0 == a,
{
}

} // verus!

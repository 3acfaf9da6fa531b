//! Arithmetic functions of the built-in BIOS: division, square root and arc
//! tangent.

use vstd::prelude::*;

use crate::alu::{signed_value, to_word};
use crate::bits::sign_extend_16;
use crate::cpu::{Cpu, CpuState};

verus! {

/// The distance of a number from zero.
pub open spec fn magnitude(a: int) -> int {
    if a < 0 {
        -a
    } else {
        a
    }
}

/// Quotient rounded towards zero.
pub open spec fn quotient(a: int, b: int) -> int {
    let q = magnitude(a) / magnitude(b);
    if (a < 0) != (b < 0) {
        -q
    } else {
        q
    }
}

/// Remainder of the division that rounds towards zero.
pub open spec fn remainder(a: int, b: int) -> int {
    a - b * quotient(a, b)
}

/// Divides, rounding towards zero.
fn divide_towards_zero(a: i64, b: i64) -> (r: i64)
    requires
        b != 0,
        -0x8000_0000 <= a <= 0x8000_0000,
        -0x8000_0000 <= b <= 0x8000_0000,
    ensures
        r == quotient(a as int, b as int),
        -0x8000_0000 <= r <= 0x8000_0000,
{
    let n: u64 = if a < 0 {
        (-a) as u64
    } else {
        a as u64
    };
    let d: u64 = if b < 0 {
        (-b) as u64
    } else {
        b as u64
    };
    assert(n / d <= n) by (nonlinear_arith)
        requires
            d >= 1,
            n >= 0,
    ;
    let q: i64 = (n / d) as i64;
    if (a < 0) != (b < 0) {
        -q
    } else {
        q
    }
}

/// The quotient and the remainder make up the dividend; the remainder is
/// smaller than the divisor and has the sign of the dividend.
pub proof fn law_division(a: int, b: int)
    requires
        b != 0,
    ensures
        a == b * quotient(a, b) + remainder(a, b),
        magnitude(remainder(a, b)) < magnitude(b),
        a >= 0 ==> remainder(a, b) >= 0,
        a <= 0 ==> remainder(a, b) <= 0,
{
    let n = magnitude(a);
    let d = magnitude(b);
    let q = n / d;
    assert(n == d * q + n % d && 0 <= n % d < d) by (nonlinear_arith)
        requires
            d >= 1,
            n >= 0,
            q == n / d,
    ;
    assert(b * (-q) == -(b * q)) by (nonlinear_arith);
    assert((-b) * q == -(b * q)) by (nonlinear_arith);
}

impl CpuState {
    /// After dividing `num` by `denom`: quotient in `r0`, remainder in `r1`,
    /// magnitude of the quotient in `r3`. Dividing by zero gives one with the
    /// sign of the dividend, and the dividend as remainder.
    pub open spec fn divided(self, num: int, denom: int) -> CpuState {
        if denom == 0 {
            self.with_reg(
                0,
                crate::alu::word_of(
                    if num < 0 {
                        -1
                    } else {
                        1
                    },
                ),
            ).with_reg(1, crate::alu::word_of(num)).with_reg(3, 1)
        } else {
            let q = quotient(num, denom);
            self.with_reg(0, crate::alu::word_of(q)).with_reg(
                1,
                crate::alu::word_of(remainder(num, denom)),
            ).with_reg(3, crate::alu::word_of(magnitude(q)))
        }
    }
}

/// Divides `num` by `denom` into `r0`, `r1` and `r3`.
pub(crate) fn divide(cpu: &mut Cpu, num: i64, denom: i64)
    requires
        -0x8000_0000 <= num <= 0x7FFF_FFFF,
        -0x8000_0000 <= denom <= 0x7FFF_FFFF,
    ensures
        final(cpu)@ == old(cpu)@.divided(num as int, denom as int),
{
    if denom == 0 {
        let one: i64 = if num < 0 {
            -1
        } else {
            1
        };
        cpu.set_reg(0, to_word(one));
        cpu.set_reg(1, to_word(num));
        cpu.set_reg(3, 1);
    } else {
        let q: i64 = divide_towards_zero(num, denom);
        proof {
            law_division(num as int, denom as int);
        }
        assert(-0x4000_0000_0000_0000 <= denom * q <= 0x4000_0000_0000_0000) by (nonlinear_arith)
            requires
                -0x8000_0000 <= denom <= 0x7FFF_FFFF,
                -0x8000_0000 <= q <= 0x8000_0000,
        ;
        let rem: i64 = num - denom * q;
        let abs: i64 = if q < 0 {
            -q
        } else {
            q
        };
        cpu.set_reg(0, to_word(q));
        cpu.set_reg(1, to_word(rem));
        cpu.set_reg(3, to_word(abs));
    }
}

/// `Div`: divides `r0` by `r1`, both signed.
pub fn div(cpu: &mut Cpu)
    ensures
        final(cpu)@ == old(cpu)@.divided(
            crate::alu::signed(old(cpu)@.r[0]),
            crate::alu::signed(old(cpu)@.r[1]),
        ),
{
    let num: i64 = signed_value(cpu.reg(0));
    let denom: i64 = signed_value(cpu.reg(1));
    divide(cpu, num, denom);
}

/// `DivArm`: divides `r1` by `r0`, both signed.
pub fn div_arm(cpu: &mut Cpu)
    ensures
        final(cpu)@ == old(cpu)@.divided(
            crate::alu::signed(old(cpu)@.r[1]),
            crate::alu::signed(old(cpu)@.r[0]),
        ),
{
    let denom: i64 = signed_value(cpu.reg(0));
    let num: i64 = signed_value(cpu.reg(1));
    divide(cpu, num, denom);
}

/// Whether `root` is the integer part of the square root of `n`.
pub open spec fn is_integer_sqrt(root: int, n: int) -> bool {
    &&& 0 <= root
    &&& root * root <= n
    &&& n < (root + 1) * (root + 1)
}

/// A number has one integer square root.
pub proof fn law_integer_sqrt_is_unique(a: int, b: int, n: int)
    requires
        is_integer_sqrt(a, n),
        is_integer_sqrt(b, n),
    ensures
        a == b,
{
    assert(a <= b) by (nonlinear_arith)
        requires
            0 <= a,
            0 <= b,
            a * a <= n,
            n < (b + 1) * (b + 1),
    ;
    assert(b <= a) by (nonlinear_arith)
        requires
            0 <= a,
            0 <= b,
            b * b <= n,
            n < (a + 1) * (a + 1),
    ;
}

/// The integer part of the square root of `n`.
pub open spec fn integer_sqrt(n: int) -> int {
    choose|root: int| is_integer_sqrt(root, n)
}

/// The integer square root.
pub fn isqrt(n: u32) -> (r: u32)
    ensures
        r == integer_sqrt(n as int),
        is_integer_sqrt(r as int, n as int),
{
    let r: u32 = isqrt_digits(n);
    proof {
        law_integer_sqrt_is_unique(r as int, integer_sqrt(n as int), n as int);
    }
    r
}

/// The integer square root, digit by digit in base four.
fn isqrt_digits(n: u32) -> (r: u32)
    ensures
        is_integer_sqrt(r as int, n as int),
{
    let mut rest: u32 = n;
    let mut root: u32 = 0;
    let mut bit: u32 = 0x4000_0000;
    // `bit` is the square of `h`, the weight of the next digit of the root.
    let ghost mut h: int = 0x8000;
    let ghost mut k: nat = 15;
    proof {
        lemma_weights(15);
    }
    while bit > rest
        invariant
            rest == n,
            bit > 0 ==> h == weight(k) && bit == h * h && k <= 15 && h <= 0x8000,
            bit == 0 ==> n == 0,
            bit > 0 ==> n < 4 * (h * h),
        decreases bit,
    {
        proof {
            lemma_weights(k);
            if k > 0 {
                let half = weight((k - 1) as nat);
                assert(h * h == 4 * (half * half)) by (nonlinear_arith)
                    requires
                        h == 2 * half,
                ;
                h = half;
                k = (k - 1) as nat;
            }
        }
        bit = bit / 4;
    }
    if bit == 0 {
        return 0;
    }
    // The digits found so far make up `p`.
    let ghost mut p: int = 0;
    proof {
        lemma_weights(k);
        assert(2 * 0 * h == 0) by (nonlinear_arith);
        assert((0 + 2 * h) * (0 + 2 * h) == 4 * (h * h)) by (nonlinear_arith);
    }
    while bit != 0
        invariant
            0 <= p,
            bit > 0 ==> k <= 15 && h == weight(k) && h >= 1 && bit == h * h && root == 2 * p * h
                && p + 2 * h <= 0x1_0000 && n < (p + 2 * h) * (p + 2 * h),
            bit == 0 ==> root == p && n < (p + 1) * (p + 1),
            rest == n - p * p,
        decreases bit,
    {
        proof {
            lemma_weights(k);
            assert((p + h) * (p + h) == p * p + 2 * p * h + h * h) by (nonlinear_arith);
            assert(0 <= p * p) by (nonlinear_arith);
            assert(0 <= 2 * p * h) by (nonlinear_arith)
                requires
                    0 <= p,
                    1 <= h,
            ;
            assert((p + h) * (p + h) <= 0xFFFF * 0xFFFF) by (nonlinear_arith)
                requires
                    0 <= p + h <= 0xFFFF,
            ;
        }
        let ghost p0 = p;
        let ghost h0 = h;
        let taken: bool = rest >= root + bit;
        if taken {
            rest = rest - (root + bit);
            root = root / 2 + bit;
        } else {
            root = root / 2;
        }
        bit = bit / 4;
        proof {
            if taken {
                p = p0 + h0;
            }
            assert(2 * p0 * h0 == 2 * (p0 * h0)) by (nonlinear_arith);
            if k > 0 {
                let half = weight((k - 1) as nat);
                assert(h0 * h0 == 4 * (half * half)) by (nonlinear_arith)
                    requires
                        h0 == 2 * half,
                ;
                assert(p0 * h0 == 2 * p0 * half) by (nonlinear_arith)
                    requires
                        h0 == 2 * half,
                ;
                assert(2 * (p0 + h0) * half == 2 * p0 * half + h0 * h0) by (nonlinear_arith)
                    requires
                        h0 == 2 * half,
                ;
                h = half;
                k = (k - 1) as nat;
                assert(half >= 1);
            } else {
                assert(h0 == 1);
                assert(p0 * 1 == p0) by (nonlinear_arith);
                assert(1 * 1 == 1int) by (nonlinear_arith);
                assert((p0 + 2 * 1) * (p0 + 2 * 1) == (p0 + 2) * (p0 + 2)) by (nonlinear_arith);
            }
        }
    }
    root
}

/// Weight of digit `k` of the root.
spec fn weight(k: nat) -> int
    decreases k,
{
    if k == 0 {
        1
    } else {
        2 * weight((k - 1) as nat)
    }
}

proof fn lemma_weights(k: nat)
    ensures
        weight(k) >= 1,
        k > 0 ==> weight(k) == 2 * weight((k - 1) as nat) && weight((k - 1) as nat) >= 1,
        weight(15) == 0x8000,
    decreases k,
{
    reveal_with_fuel(weight, 16);
    if k > 0 {
        lemma_weights((k - 1) as nat);
    }
}

/// `Sqrt`: the integer square root of `r0`.
pub fn sqrt(cpu: &mut Cpu)
    ensures
        final(cpu)@ == old(cpu)@.with_reg(0, integer_sqrt(old(cpu)@.r[0] as int) as u32),
{
    let root: u32 = isqrt(cpu.reg(0));
    cpu.set_reg(0, root);
}

/// Product modulo 2^32, as a signed number, then divided by 2^14 rounding down.
pub open spec fn mul_shift_14(a: i32, b: i32) -> int {
    a.wrapping_mul(b) as int / 0x4000
}

fn times_shift_14(a: i32, b: i32) -> (r: i32)
    ensures
        r == mul_shift_14(a, b),
        -0x2_0000 <= r < 0x2_0000,
{
    floor_div_pow2(a.wrapping_mul(b), 0x4000)
}

/// Divides by a power of two, rounding down.
fn floor_div_pow2(a: i32, d: i32) -> (r: i32)
    requires
        d == 0x4000 || d == 0x1_0000,
    ensures
        r == a as int / d as int,
        d == 0x4000 ==> -0x2_0000 <= r < 0x2_0000,
        d == 0x1_0000 ==> -0x8000 <= r < 0x8000,
{
    // Moved up by a multiple of `d`, the number is not negative.
    let moved: i64 = a as i64 + 0x8000_0000;
    if d == 0x4000 {
        ((moved / 0x4000) - 0x2_0000) as i32
    } else {
        ((moved / 0x1_0000) - 0x8000) as i32
    }
}

/// One step of the polynomial: the sum so far times `a`, scaled, plus a
/// coefficient.
pub open spec fn horner(b: int, a: i32, coefficient: int) -> int {
    mul_shift_14(b as i32, a) + coefficient
}

/// The polynomial of `ArcTan`, for a tangent with 14 fractional bits.
#[verifier::opaque]
pub open spec fn arctan_polynomial(i: i32) -> int {
    let a = (-mul_shift_14(i, i)) as i32;
    let b = horner(0xA9, a, 0x390);
    let b = horner(b, a, 0x91C);
    let b = horner(b, a, 0xFB6);
    let b = horner(b, a, 0x16AA);
    let b = horner(b, a, 0x2081);
    let b = horner(b, a, 0x3651);
    let b = horner(b, a, 0xA2F9);
    i.wrapping_mul(b as i32) as int / 0x1_0000
}

/// The polynomial of `ArcTan`.
pub fn arctan_core(i: i32) -> (r: i32)
    ensures
        r == arctan_polynomial(i),
        -0x8000 <= r < 0x8000,
{
    reveal(arctan_polynomial);
    let a: i32 = -times_shift_14(i, i);
    let b: i32 = times_shift_14(0xA9, a) + 0x390;
    let b: i32 = times_shift_14(b, a) + 0x91C;
    let b: i32 = times_shift_14(b, a) + 0xFB6;
    let b: i32 = times_shift_14(b, a) + 0x16AA;
    let b: i32 = times_shift_14(b, a) + 0x2081;
    let b: i32 = times_shift_14(b, a) + 0x3651;
    let b: i32 = times_shift_14(b, a) + 0xA2F9;
    floor_div_pow2(i.wrapping_mul(b), 0x1_0000)
}

/// The low half of a word as a signed number.
pub open spec fn signed_low_half(word: u32) -> int {
    crate::alu::signed(sign_extend_16((word % 0x1_0000) as u16))
}

fn low_half_value(word: u32) -> (r: i32)
    ensures
        r == signed_low_half(word),
        -0x8000 <= r <= 0x7FFF,
{
    signed_value(sign_extend_16((word % 0x1_0000) as u16)) as i32
}

/// `ArcTan`: the angle whose tangent is the low half of `r0`, as a signed
/// 16-bit number.
pub fn arctan(cpu: &mut Cpu)
    ensures
        final(cpu)@ == old(cpu)@.with_reg(
            0,
            sign_extend_16(
                (arctan_polynomial(signed_low_half(old(cpu)@.r[0]) as i32) % 0x1_0000) as u16,
            ),
        ),
{
    let i: i32 = low_half_value(cpu.reg(0));
    let angle: i32 = arctan_core(i);
    let low: u16 = (to_word(angle as i64) % 0x1_0000) as u16;
    cpu.set_reg(0, sign_extend_16(low));
}

/// The angle of the vector (`x`, `y`): the circle has 0x10000 parts. The arc
/// tangent is taken of the smaller ratio, then moved to its quadrant.
pub open spec fn arctan2_angle(x: int, y: int) -> u32 {
    let steep = arctan_polynomial(quotient(x * 0x4000, y) as i32);
    let flat = arctan_polynomial(quotient(y * 0x4000, x) as i32);
    let angle = if y == 0 {
        if x >= 0 {
            0
        } else {
            0x8000
        }
    } else if x == 0 {
        if y >= 0 {
            0x4000
        } else {
            0xC000
        }
    } else if y >= 0 {
        if x >= 0 {
            if x >= y {
                flat
            } else {
                0x4000 - steep
            }
        } else if -x >= y {
            flat + 0x8000
        } else {
            0x4000 - steep
        }
    } else if x <= 0 {
        if -x > -y {
            flat + 0x8000
        } else {
            0xC000 - steep
        }
    } else if x >= -y {
        flat + 0x1_0000
    } else {
        0xC000 - steep
    };
    (angle % 0x1_0000) as u32
}

/// The arc tangent of one is an eighth of the circle.
proof fn lemma_arctan_of_one()
    ensures
        arctan_polynomial(0x4000) == 0x2000,
{
    reveal(arctan_polynomial);
    assert(mul_shift_14(0x4000, 0x4000) == 0x4000);
    let a = (-mul_shift_14(0x4000, 0x4000)) as i32;
    assert(horner(0xA9, a, 0x390) == 0x2E7);
    assert(horner(0x2E7, a, 0x91C) == 0x635);
    assert(horner(0x635, a, 0xFB6) == 0x981);
    assert(horner(0x981, a, 0x16AA) == 0xD29);
    assert(horner(0xD29, a, 0x2081) == 0x1358);
    assert(horner(0x1358, a, 0x3651) == 0x22F9);
    assert(horner(0x22F9, a, 0xA2F9) == 0x8000);
}

/// Reversing a vector that is not zero turns its angle by half a circle.
pub proof fn law_reversing_turns_by_half(x: int, y: int)
    requires
        x != 0 || y != 0,
    ensures
        arctan2_angle(-x, -y) == (arctan2_angle(x, y) + 0x8000) % 0x1_0000,
{
    assert((-x) * 0x4000 == -(x * 0x4000) && (-y) * 0x4000 == -(y * 0x4000));
    assert(x != 0 && y != 0 ==> quotient(-x * 0x4000, -y) == quotient(x * 0x4000, y));
    assert(x != 0 && y != 0 ==> quotient(-y * 0x4000, -x) == quotient(y * 0x4000, x));
    if x == y {
        lemma_arctan_of_one();
        let m = magnitude(x);
        assert((m * 0x4000) / m == 0x4000) by (nonlinear_arith)
            requires
                m > 0,
        ;
        assert(quotient(x * 0x4000, x) == 0x4000);
    }
}

/// The angle of a vector with 16-bit components.
pub fn arctan2_core(x: i32, y: i32) -> (r: u32)
    requires
        -0x8000 <= x <= 0x7FFF,
        -0x8000 <= y <= 0x7FFF,
    ensures
        r == arctan2_angle(x as int, y as int),
{
    if y == 0 {
        return if x >= 0 {
            0x0000
        } else {
            0x8000
        };
    }
    if x == 0 {
        return if y >= 0 {
            0x4000
        } else {
            0xC000
        };
    }
    let steep: i32 = arctan_core(divide_towards_zero(x as i64 * 0x4000, y as i64) as i32);
    let flat: i32 = arctan_core(divide_towards_zero(y as i64 * 0x4000, x as i64) as i32);
    let angle: i32 = if y >= 0 {
        if x >= 0 {
            if x >= y {
                flat
            } else {
                0x4000 - steep
            }
        } else if -x >= y {
            flat + 0x8000
        } else {
            0x4000 - steep
        }
    } else if x <= 0 {
        if -x > -y {
            flat + 0x8000
        } else {
            0xC000 - steep
        }
    } else if x >= -y {
        flat + 0x1_0000
    } else {
        0xC000 - steep
    };
    to_word(angle as i64) % 0x1_0000
}

/// `ArcTan2`: the angle of the vector in the low halves of `r0` and `r1`.
pub fn arctan2(cpu: &mut Cpu)
    ensures
        final(cpu)@ == old(cpu)@.with_reg(
            0,
            arctan2_angle(signed_low_half(old(cpu)@.r[0]), signed_low_half(old(cpu)@.r[1])),
        ),
{
    let x: i32 = low_half_value(cpu.reg(0));
    let y: i32 = low_half_value(cpu.reg(1));
    cpu.set_reg(0, arctan2_core(x, y));
}

} // verus!

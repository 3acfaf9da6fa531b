//! What the angle functions of the built-in BIOS compute.

use vstd::prelude::*;

use crate::bios_affine::AffineMatrix;
use crate::bus::BusState;
use crate::cpu::Machine;

verus! {

/// One step of a polynomial with 14 fractional bits: the value so far times `a`,
/// rounded down, plus a coefficient.
pub open spec fn next_term(value: int, a: int, coefficient: int) -> int {
    value * a / 0x4000 + coefficient
}

/// The arc tangent series of `i`, for a tangent with 14 fractional bits and an
/// angle with 0x4000 parts to the right angle.
pub open spec fn series(i: int) -> int {
    let a = -(i * i / 0x4000);
    let t1 = next_term(0xA9, a, 0x390);
    let t2 = next_term(t1, a, 0x91C);
    let t3 = next_term(t2, a, 0xFB6);
    let t4 = next_term(t3, a, 0x16AA);
    let t5 = next_term(t4, a, 0x2081);
    let t6 = next_term(t5, a, 0x3651);
    let t7 = next_term(t6, a, 0xA2F9);
    i * t7 / 0x1_0000
}

/// A term of the polynomial stays within 16 bits.
proof fn lemma_term(value: int, a: int, coefficient: int)
    requires
        0 <= value <= coefficient,
        coefficient < 0x1_0000,
        -0x4000 <= a <= 0,
    ensures
        crate::bios_math::horner(value, a as i32, coefficient) == next_term(value, a, coefficient),
        0 <= next_term(value, a, coefficient) <= coefficient,
        coefficient - value <= next_term(value, a, coefficient),
{
    assert(-0x4000 * value <= value * a <= 0) by (nonlinear_arith)
        requires
            0 <= value,
            -0x4000 <= a <= 0,
    ;
}

/// Call 9 gives the arc tangent series of the low half of `r0`, a signed number
/// with 14 fractional bits, for tangents from -1 to 1.
pub proof fn law_arc_tangent_call(m: Machine, i: int)
    requires
        m.cpu.wf(),
        -0x4000 <= i <= 0x4000,
        m.cpu.r[0] % 0x1_0000 == i % 0x1_0000,
    ensures
        ({
            let after = m.swi(9).0;
            &&& after.cpu.r[0] == series(i) % 0x1_0000_0000
            &&& -0x4000 <= series(i) <= 0x4000
            &&& after.bus == m.bus
            &&& forall|j: int| 1 <= j < 16 ==> #[trigger] after.cpu.r[j] == m.cpu.r[j]
        }),
{
    lemma_series(i);
    lemma_low_half(m.cpu.r[0], i);
    let angle = crate::bits::sign_extend_16((series(i) % 0x1_0000) as u16);
    assert(m.swi(9).0 == m.with_cpu(m.cpu.with_reg(0, angle))) by {
        reveal(Machine::swi);
    }
    lemma_extended(series(i));
}

proof fn lemma_low_half(word: u32, i: int)
    requires
        -0x8000 <= i <= 0x7FFF,
        word % 0x1_0000 == i % 0x1_0000,
    ensures
        crate::bios_math::signed_low_half(word) == i,
{
}

proof fn lemma_extended(v: int)
    requires
        -0x8000 <= v <= 0x7FFF,
    ensures
        crate::bits::sign_extend_16((v % 0x1_0000) as u16) == v % 0x1_0000_0000,
{
}

proof fn lemma_series(i: int)
    requires
        -0x4000 <= i <= 0x4000,
    ensures
        crate::bios_math::arctan_polynomial(i as i32) == series(i),
        -0x4000 <= series(i) <= 0x4000,
{
    reveal(crate::bios_math::arctan_polynomial);
    assert(0 <= i * i <= 0x1000_0000) by (nonlinear_arith)
        requires
            -0x4000 <= i <= 0x4000,
    ;
    let a = -(i * i / 0x4000);
    assert(-0x4000 <= a <= 0);
    assert(crate::bios_math::mul_shift_14(i as i32, i as i32) == i * i / 0x4000);
    lemma_term(0xA9, a, 0x390);
    let t1 = next_term(0xA9, a, 0x390);
    lemma_term(t1, a, 0x91C);
    let t2 = next_term(t1, a, 0x91C);
    lemma_term(t2, a, 0xFB6);
    let t3 = next_term(t2, a, 0xFB6);
    lemma_term(t3, a, 0x16AA);
    let t4 = next_term(t3, a, 0x16AA);
    lemma_term(t4, a, 0x2081);
    let t5 = next_term(t4, a, 0x2081);
    lemma_term(t5, a, 0x3651);
    let t6 = next_term(t5, a, 0x3651);
    lemma_term(t6, a, 0xA2F9);
    let t7 = next_term(t6, a, 0xA2F9);
    assert(-0x4000 * 0xA2F9 <= i * t7 <= 0x4000 * 0xA2F9) by (nonlinear_arith)
        requires
            -0x4000 <= i <= 0x4000,
            0 <= t7 <= 0xA2F9,
    ;
}

/// Call 0xA gives the angle of the vector (`r0`, `r1`), low halves with signs, in
/// 0x10000 parts of the circle: right angles on the axes, the series of the
/// smaller ratio next to the horizontal axis, and what is left to the vertical
/// one from the series of the other ratio.
pub proof fn law_vector_angle(x: int, y: int)
    requires
        -0x8000 <= x <= 0x7FFF,
        -0x8000 <= y <= 0x7FFF,
    ensures
        ({
            let angle = crate::bios_math::arctan2_angle(x, y);
            &&& y == 0 && x >= 0 ==> angle == 0
            &&& y == 0 && x < 0 ==> angle == 0x8000
            &&& x == 0 && y > 0 ==> angle == 0x4000
            &&& x == 0 && y < 0 ==> angle == 0xC000
            &&& 0 < y <= x ==> angle == series(y * 0x4000 / x) % 0x1_0000
            &&& 0 < x < y ==> angle == (0x4000 - series(x * 0x4000 / y)) % 0x1_0000
            &&& x < 0 < y && y <= -x ==> angle == (0x8000 + series(-(y * 0x4000 / -x))) % 0x1_0000
            &&& x < 0 < y && -x < y ==> angle == (0x4000 - series(-(-x * 0x4000 / y))) % 0x1_0000
        }),
{
    if x != 0 && y != 0 {
        let w = crate::bios_math::magnitude(x);
        let h = crate::bios_math::magnitude(y);
        if h <= w {
            lemma_ratio(h, w);
            lemma_series(h * 0x4000 / w);
            lemma_series(-(h * 0x4000 / w));
            assert(crate::bios_math::magnitude(y * 0x4000) == h * 0x4000);
        } else {
            lemma_ratio(w, h);
            lemma_series(w * 0x4000 / h);
            lemma_series(-(w * 0x4000 / h));
            assert(crate::bios_math::magnitude(x * 0x4000) == w * 0x4000);
        }
    }
}

proof fn lemma_ratio(small: int, large: int)
    requires
        0 < small <= large,
    ensures
        0 <= small * 0x4000 / large <= 0x4000,
{
    assert(0 <= small * 0x4000 / large <= 0x4000) by (nonlinear_arith)
        requires
            0 < small <= large,
    ;
}

/// Call 0xA reads the two coordinates and leaves the angle in `r0`.
pub proof fn law_vector_angle_call(m: Machine, x: int, y: int)
    requires
        m.cpu.wf(),
        -0x8000 <= x <= 0x7FFF,
        -0x8000 <= y <= 0x7FFF,
        m.cpu.r[0] % 0x1_0000 == x % 0x1_0000,
        m.cpu.r[1] % 0x1_0000 == y % 0x1_0000,
    ensures
        m.swi(0xA).0.cpu.r[0] == crate::bios_math::arctan2_angle(x, y),
        m.swi(0xA).0.bus == m.bus,
        forall|j: int| 1 <= j < 16 ==> #[trigger] m.swi(0xA).0.cpu.r[j] == m.cpu.r[j],
{
    lemma_low_half(m.cpu.r[0], x);
    lemma_low_half(m.cpu.r[1], y);
    reveal(Machine::swi);
}

/// Memory after writing the four parameters of a matrix, `stride` bytes apart.
pub open spec fn matrix_written(b: BusState, dst: u32, stride: u32, m: AffineMatrix) -> BusState {
    b.write16(dst, m.pa).write16(((dst + stride) % 0x1_0000_0000) as u32, m.pb).write16(
        ((dst + 2 * stride) % 0x1_0000_0000) as u32,
        m.pc,
    ).write16(((dst + 3 * stride) % 0x1_0000_0000) as u32, m.pd)
}

pub(crate) proof fn lemma_matrix(b: BusState, dst: u32, stride: u32, m: AffineMatrix)
    ensures
        b.with_matrix(dst, stride, m) == matrix_written(b, dst, stride, m),
{
    crate::encoding::lemma_wrapping(dst, stride);
    let two = stride.wrapping_mul(2);
    let three = stride.wrapping_mul(3);
    assert(two == 2 * stride % 0x1_0000_0000);
    assert(three == 3 * stride % 0x1_0000_0000);
    crate::encoding::lemma_wrapping(dst, two);
    crate::encoding::lemma_wrapping(dst, three);
    assert((dst + 2 * stride % 0x1_0000_0000) % 0x1_0000_0000 == (dst + 2 * stride)
        % 0x1_0000_0000);
    assert((dst + 3 * stride % 0x1_0000_0000) % 0x1_0000_0000 == (dst + 3 * stride)
        % 0x1_0000_0000);
}

/// A halfword of memory as a signed number.
pub open spec fn signed_half_of(b: BusState, addr: u32) -> int {
    let raw = b.read16(addr);
    if raw >= 0x8000 {
        raw - 0x1_0000
    } else {
        raw as int
    }
}

/// Call 0xF computes `r2` sprite matrices, each from eight bytes of scales and
/// angle (in the high byte of the third halfword), to four halfwords `r3` bytes
/// apart: the first one, and then the rest with the addresses moved on.
pub proof fn law_sprite_matrix_call(m: Machine)
    requires
        m.cpu.wf(),
    ensures
        ({
            let (src, dst, n, stride) = (m.cpu.r[0], m.cpu.r[1], m.cpu.r[2], m.cpu.r[3]);
            let matrix = crate::bios_affine::matrix_of(
                crate::bios_affine::rotation_of(
                    signed_half_of(m.bus, src),
                    signed_half_of(m.bus, crate::unpack_laws::after(src, 2)),
                    (m.bus.read16(crate::unpack_laws::after(src, 4)) / 0x100) as u8,
                ),
            );
            let rest = Machine {
                cpu: m.cpu.with_reg(0, crate::unpack_laws::after(src, 8)).with_reg(
                    1,
                    ((dst + 4 * stride) % 0x1_0000_0000) as u32,
                ).with_reg(2, (n - 1) as u32),
                bus: matrix_written(m.bus, dst, stride, matrix),
            };
            &&& n == 0 ==> m.swi(0xF).0.bus == m.bus
            &&& n > 0 ==> m.swi(0xF).0.bus == rest.swi(0xF).0.bus
            &&& m.swi(0xF).0.cpu == m.cpu
        }),
{
    let (src, dst, n, stride) = (m.cpu.r[0], m.cpu.r[1], m.cpu.r[2], m.cpu.r[3]);
    lemma_sprite_entry(m.bus, src, dst, stride);
    let next = crate::unpack_laws::after(src, 8);
    let there = ((dst + 4 * stride) % 0x1_0000_0000) as u32;
    let rest = Machine {
        cpu: m.cpu.with_reg(0, next).with_reg(1, there).with_reg(2, (n - 1) as u32),
        bus: m.bus.with_obj_entry(src, dst, stride),
    };
    assert(m.swi(0xF).0 == m.with_bus(m.bus.obj_affine_set(src, dst, stride, n as nat))) by {
        reveal(Machine::swi);
    }
    if n > 0 {
        assert(rest.swi(0xF).0.bus == rest.bus.obj_affine_set(
            next,
            there,
            stride,
            (n - 1) as nat,
        )) by {
            reveal(Machine::swi);
        }
    }
}

proof fn lemma_sprite_entry(b: BusState, src: u32, dst: u32, stride: u32)
    ensures
        src.wrapping_add(8) == crate::unpack_laws::after(src, 8),
        dst.wrapping_add(stride.wrapping_mul(4)) == ((dst + 4 * stride) % 0x1_0000_0000) as u32,
        b.with_obj_entry(src, dst, stride) == matrix_written(
            b,
            dst,
            stride,
            crate::bios_affine::matrix_of(
                crate::bios_affine::rotation_of(
                    signed_half_of(b, src),
                    signed_half_of(b, crate::unpack_laws::after(src, 2)),
                    (b.read16(crate::unpack_laws::after(src, 4)) / 0x100) as u8,
                ),
            ),
        ),
{
    crate::unpack_laws::lemma_after(src, 0, 2);
    crate::unpack_laws::lemma_after(src, 0, 4);
    crate::unpack_laws::lemma_after(src, 0, 8);
    let four = stride.wrapping_mul(4);
    assert(four == 4 * stride % 0x1_0000_0000);
    crate::encoding::lemma_wrapping(dst, four);
    assert((dst + 4 * stride % 0x1_0000_0000) % 0x1_0000_0000 == (dst + 4 * stride)
        % 0x1_0000_0000);
    let input = crate::bios_affine::obj_affine_at(b, src);
    assert(input.scale_x == signed_half_of(b, src));
    assert(input.scale_y == signed_half_of(b, crate::unpack_laws::after(src, 2)));
    lemma_matrix(
        b,
        dst,
        stride,
        crate::bios_affine::matrix_of(
            crate::bios_affine::rotation_of(input.scale_x, input.scale_y, input.angle),
        ),
    );
}

/// A quarter, a half and three quarters of a turn: the parameters are the scales
/// in other places and with other signs.
pub proof fn law_quarter_turns(scale_x: int, scale_y: int)
    requires
        -0x8000 <= scale_x <= 0x7FFF,
        -0x8000 <= scale_y <= 0x7FFF,
    ensures
        ({
            let x = (scale_x % 0x1_0000) as u16;
            let y = (scale_y % 0x1_0000) as u16;
            let minus_x = (-scale_x % 0x1_0000) as u16;
            let minus_y = (-scale_y % 0x1_0000) as u16;
            let turned = |angle: u8|
                crate::bios_affine::matrix_of(
                    crate::bios_affine::rotation_of(scale_x, scale_y, angle),
                );
            &&& turned(64) == (AffineMatrix { pa: 0, pb: minus_x, pc: y, pd: 0 })
            &&& turned(128) == (AffineMatrix { pa: minus_x, pb: 0, pc: 0, pd: minus_y })
            &&& turned(192) == (AffineMatrix { pa: 0, pb: x, pc: minus_y, pd: 0 })
        }),
{
    let one = crate::bios_waves::WAVE_ONE as int;
    assert(crate::bios_waves::sine_of(64) == one);
    assert(crate::bios_waves::cosine_of(64) == -49214648);
    assert(crate::bios_waves::sine_of(128) == -98429296);
    assert(crate::bios_waves::cosine_of(128) == -one);
    assert(crate::bios_waves::sine_of(192) == -one);
    assert(crate::bios_waves::cosine_of(192) == 13426222);
    lemma_scales(scale_x);
    lemma_scales(scale_y);
    lemma_tiny(-49214648, scale_x);
    lemma_tiny(-49214648, scale_y);
    lemma_tiny(98429296, scale_x);
    lemma_tiny(-98429296, scale_y);
    lemma_tiny(13426222, scale_x);
    lemma_tiny(13426222, scale_y);
}

/// What is close to nothing leaves no parameter.
proof fn lemma_tiny(wave: int, scale: int)
    requires
        -0x1000_0000 <= wave <= 0x1000_0000,
        -0x8000 <= scale <= 0x7FFF,
    ensures
        crate::bios_affine::fixed((crate::bios_affine::single(wave * scale) as i128) as int) == 0,
{
    let n = wave * scale;
    assert(-0x800_0000_0000 <= n <= 0x800_0000_0000) by (nonlinear_arith)
        requires
            n == wave * scale,
            -0x1000_0000 <= wave <= 0x1000_0000,
            -0x8000 <= scale <= 0x8000,
    ;
    let m = crate::bios_math::magnitude(n);
    crate::bios_affine::lemma_rounded(m);
    let v = crate::bios_affine::single(n);
    assert(m == n || m == -n);
    assert(crate::bios_math::magnitude(v) == crate::bios_affine::rounded(m));
    let t = crate::bios_math::magnitude(v);
    assert(0 <= t < 0x4_0000_0000_0000);
    assert(t / 0x4_0000_0000_0000 == 0);
    assert(crate::bios_affine::whole(v) == 0);
}

proof fn lemma_scales(scale: int)
    requires
        -0x8000 <= scale <= 0x7FFF,
    ensures
        ({
            let one = crate::bios_waves::WAVE_ONE as int;
            let plus = (crate::bios_affine::single(one * scale) as i128) as int;
            let minus = (crate::bios_affine::single(-one * scale) as i128) as int;
            &&& crate::bios_affine::fixed(plus) == scale % 0x1_0000
            &&& crate::bios_affine::fixed(minus) == -scale % 0x1_0000
        }),
{
    let one = crate::bios_waves::WAVE_ONE as int;
    crate::bios_affine::lemma_one_times(scale);
    assert(-one * scale == -(one * scale)) by (nonlinear_arith);
    crate::bios_affine::law_single_precision(one * scale);
}

} // verus!

//! The affine functions of the BIOS: the parameters of rotated and scaled
//! backgrounds and sprites.
//!
//! They are computed in single precision. Here a number of single precision is
//! an integer, a multiple of a power of two that divides them all, and each
//! operation rounds its exact result to 24 significant bits ([`single`]).

use vstd::prelude::*;

use crate::alu::signed_value;
use crate::bios_waves::{cosine, sine};
use crate::bits::sign_extend_16;
use crate::bus::{Bus, BusState};
use crate::cpu::{Cpu, Machine};

verus! {

/// Numbers below this have at most 24 bits.
pub const SINGLE_LIMIT: u128 = 0x100_0000;

/// The weight of the last of the 24 significant bits of `m`.
pub open spec fn unit(m: int) -> int
    decreases m,
{
    if m < SINGLE_LIMIT {
        1
    } else {
        2 * unit(m / 2)
    }
}

/// `m` rounded to 24 significant bits; halfway between two numbers the even one
/// is taken.
pub open spec fn rounded(m: int) -> int {
    let u = unit(m);
    let below = m / u;
    let rest = m % u;
    if 2 * rest > u || (2 * rest == u && below % 2 == 1) {
        (below + 1) * u
    } else {
        below * u
    }
}

/// The number of single precision next to `n`.
pub open spec fn single(n: int) -> int {
    if n < 0 {
        -rounded(-n)
    } else {
        rounded(n)
    }
}

proof fn lemma_unit(m: int)
    requires
        m >= 0,
    ensures
        1 <= unit(m),
        unit(m) == 1 || unit(m) * 0x80_0000 <= m,
        unit(m) == 1 || unit(m) % 2 == 0,
    decreases m,
{
    if m >= SINGLE_LIMIT {
        lemma_unit(m / 2);
    }
}

pub(crate) proof fn lemma_rounded(m: int)
    requires
        m >= 0,
    ensures
        0 <= (m / unit(m)) * unit(m) <= m < (m / unit(m)) * unit(m) + unit(m),
        m % unit(m) == m - (m / unit(m)) * unit(m),
        (m / unit(m) + 1) * unit(m) == (m / unit(m)) * unit(m) + unit(m),
        0 <= rounded(m) <= 2 * m,
        2 * (rounded(m) - m) <= unit(m),
        2 * (m - rounded(m)) <= unit(m),
{
    lemma_unit(m);
    let u = unit(m);
    let q = m / u;
    assert(m == u * q + m % u && 0 <= m % u < u) by (nonlinear_arith)
        requires
            u >= 1,
            q == m / u,
    ;
    assert(u * q == q * u && (q + 1) * u == q * u + u) by (nonlinear_arith);
    assert(0 <= q * u) by (nonlinear_arith)
        requires
            q >= 0,
            u >= 1,
    ;
}

/// Rounding to single precision moves a number by at most half the weight of
/// its last significant bit, keeps the sign, and leaves numbers of up to 24
/// bits as they are.
pub proof fn law_single_precision(n: int)
    ensures
        single(-n) == -single(n),
        ({
            let m = crate::bios_math::magnitude(n);
            &&& 2 * crate::bios_math::magnitude(single(n) - n) <= unit(m)
            &&& m < SINGLE_LIMIT ==> single(n) == n
        }),
{
    let m = crate::bios_math::magnitude(n);
    lemma_rounded(m);
    lemma_rounded(0);
}

/// Rounds to single precision.
fn single_value(n: i128) -> (r: i128)
    requires
        -0x4000_0000_0000_0000_0000_0000_0000 <= n <= 0x4000_0000_0000_0000_0000_0000_0000,
    ensures
        r == single(n as int),
        n >= 0 ==> 0 <= r <= 2 * n,
        n <= 0 ==> 2 * n <= r <= 0,
{
    let m: u128 = if n < 0 {
        (-n) as u128
    } else {
        n as u128
    };
    let mut rest: u128 = m;
    let mut u: u128 = 1;
    while rest >= SINGLE_LIMIT
        invariant
            m <= 0x4000_0000_0000_0000_0000_0000_0000,
            u >= 1,
            unit(m as int) == u * unit(rest as int),
            u * rest <= m,
        decreases rest,
    {
        let half: u128 = rest / 2;
        assert(u * (2 * unit(half as int)) == (u * 2) * unit(half as int)) by (nonlinear_arith);
        assert((u * 2) * half <= u * rest) by (nonlinear_arith)
            requires
                2 * half <= rest,
                u >= 1,
        ;
        assert(u <= u * rest) by (nonlinear_arith)
            requires
                rest >= 1,
                u >= 1,
        ;
        u = u * 2;
        rest = half;
    }
    assert(u * 1 == u) by (nonlinear_arith);
    proof {
        lemma_unit(m as int);
        lemma_rounded(m as int);
    }
    let below: u128 = m / u;
    let left: u128 = m % u;
    let up: bool = 2 * left > u || (2 * left == u && below % 2 == 1);
    let near: u128 = if up {
        (below + 1) * u
    } else {
        below * u
    };
    if n < 0 {
        -(near as i128)
    } else {
        near as i128
    }
}

/// A number with 50 more fractional bits than it should have, without them.
pub open spec fn whole(v: int) -> int {
    crate::bios_math::quotient(v, crate::bios_waves::WAVE_ONE as int)
}

/// Drops 50 fractional bits, rounding towards zero.
fn whole_value(v: i128) -> (r: i128)
    requires
        v > i128::MIN,
    ensures
        r == whole(v as int),
{
    if v < 0 {
        -((((-v) as u128) / 0x4_0000_0000_0000) as i128)
    } else {
        ((v as u128) / 0x4_0000_0000_0000) as i128
    }
}

/// The four parameters of an affine transformation, with 8 fractional bits.
#[derive(Debug, Clone, Copy, PartialEq, Eq, Structural)]
pub struct AffineMatrix {
    /// Texture step per pixel to the right, horizontally.
    pub pa: u16,
    /// Texture step per line down, horizontally.
    pub pb: u16,
    /// Texture step per pixel to the right, vertically.
    pub pc: u16,
    /// Texture step per line down, vertically.
    pub pd: u16,
}

/// A rotation with scales: what the four parameters are before they are cut to
/// 16 bits, with 50 more fractional bits.
#[derive(Clone, Copy)]
pub struct Rotation {
    /// Texture step per pixel to the right, horizontally.
    pub a: i128,
    /// Texture step per line down, horizontally.
    pub b: i128,
    /// Texture step per pixel to the right, vertically.
    pub c: i128,
    /// Texture step per line down, vertically.
    pub d: i128,
}

/// The rotation by `angle`, in 256 parts of a circle, with scales that have 8
/// fractional bits.
pub open spec fn rotation_of(scale_x: int, scale_y: int, angle: u8) -> Rotation {
    let sin = crate::bios_waves::sine_of(angle);
    let cos = crate::bios_waves::cosine_of(angle);
    Rotation {
        a: single(cos * scale_x) as i128,
        b: single(-sin * scale_x) as i128,
        c: single(sin * scale_y) as i128,
        d: single(cos * scale_y) as i128,
    }
}

/// The product of a sine or cosine and a scale.
fn scaled(wave: i128, scale: i32) -> (r: i128)
    requires
        -0x8000_0000_0000_0000 <= wave <= 0x8000_0000_0000_0000,
        -0x8000 <= scale <= 0x7FFF,
    ensures
        r == single(wave * scale),
        -0x8000_0000_0000_0000_0000 <= r <= 0x8000_0000_0000_0000_0000,
{
    let scale: i128 = scale as i128;
    assert(-0x4000_0000_0000_0000_0000 <= wave * scale <= 0x4000_0000_0000_0000_0000)
        by (nonlinear_arith)
        requires
            -0x8000_0000_0000_0000 <= wave <= 0x8000_0000_0000_0000,
            -0x8000 <= scale <= 0x7FFF,
    ;
    single_value(wave * scale)
}

fn rotation(scale_x: i32, scale_y: i32, angle: u8) -> (r: Rotation)
    requires
        -0x8000 <= scale_x <= 0x7FFF,
        -0x8000 <= scale_y <= 0x7FFF,
    ensures
        r == rotation_of(scale_x as int, scale_y as int, angle),
        -0x8000_0000_0000_0000_0000 <= r.a <= 0x8000_0000_0000_0000_0000,
        -0x8000_0000_0000_0000_0000 <= r.b <= 0x8000_0000_0000_0000_0000,
        -0x8000_0000_0000_0000_0000 <= r.c <= 0x8000_0000_0000_0000_0000,
        -0x8000_0000_0000_0000_0000 <= r.d <= 0x8000_0000_0000_0000_0000,
{
    let sin: i128 = sine(angle) as i128;
    let cos: i128 = cosine(angle) as i128;
    Rotation {
        a: scaled(cos, scale_x),
        b: scaled(-sin, scale_x),
        c: scaled(sin, scale_y),
        d: scaled(cos, scale_y),
    }
}

/// A parameter with 8 fractional bits, cut to 16 bits.
pub open spec fn fixed(v: int) -> u16 {
    (whole(v) % 0x1_0000) as u16
}

/// Cuts a parameter to 16 bits.
fn fixed_u16(v: i128) -> (r: u16)
    requires
        v > i128::MIN,
    ensures
        r == fixed(v as int),
{
    let w: i128 = whole_value(v);
    if w < 0 {
        let low: u128 = ((-w) as u128) % 0x1_0000;
        if low == 0 {
            0
        } else {
            (0x1_0000 - low) as u16
        }
    } else {
        ((w as u128) % 0x1_0000) as u16
    }
}

/// The parameters of a rotation.
pub open spec fn matrix_of(t: Rotation) -> AffineMatrix {
    AffineMatrix {
        pa: fixed(t.a as int),
        pb: fixed(t.b as int),
        pc: fixed(t.c as int),
        pd: fixed(t.d as int),
    }
}

fn matrix(t: Rotation) -> (r: AffineMatrix)
    requires
        t.a > i128::MIN,
        t.b > i128::MIN,
        t.c > i128::MIN,
        t.d > i128::MIN,
    ensures
        r == matrix_of(t),
{
    AffineMatrix {
        pa: fixed_u16(t.a),
        pb: fixed_u16(t.b),
        pc: fixed_u16(t.c),
        pd: fixed_u16(t.d),
    }
}

/// The nearest 32-bit signed number.
pub open spec fn clamped(v: int) -> int {
    if v < i32::MIN {
        i32::MIN as int
    } else if v > i32::MAX {
        i32::MAX as int
    } else {
        v
    }
}

/// A coordinate of the reference point of a background: the origin in the
/// texture less the transformed centre of the screen. `step_x` and `step_y` are
/// the two parameters that go into this coordinate.
pub open spec fn reference_of(
    origin: int,
    step_x: int,
    step_y: int,
    center_x: int,
    center_y: int,
) -> int {
    let moved = single(single(step_x * center_x) + single(step_y * center_y));
    clamped(whole(single(single(origin) * crate::bios_waves::WAVE_ONE - moved)))
}

fn reference(origin: i32, step_x: i128, step_y: i128, center_x: i32, center_y: i32) -> (r: u32)
    requires
        -0x8000_0000_0000_0000_0000 <= step_x <= 0x8000_0000_0000_0000_0000,
        -0x8000_0000_0000_0000_0000 <= step_y <= 0x8000_0000_0000_0000_0000,
        -0x8000 <= center_x <= 0x7FFF,
        -0x8000 <= center_y <= 0x7FFF,
    ensures
        r == crate::alu::word_of(
            reference_of(
                origin as int,
                step_x as int,
                step_y as int,
                center_x as int,
                center_y as int,
            ),
        ),
{
    let cx: i128 = center_x as i128;
    let cy: i128 = center_y as i128;
    assert(-0x4000_0000_0000_0000_0000_0000 <= step_x * cx <= 0x4000_0000_0000_0000_0000_0000
        && -0x4000_0000_0000_0000_0000_0000 <= step_y * cy <= 0x4000_0000_0000_0000_0000_0000)
        by (nonlinear_arith)
        requires
            -0x8000_0000_0000_0000_0000 <= step_x <= 0x8000_0000_0000_0000_0000,
            -0x8000_0000_0000_0000_0000 <= step_y <= 0x8000_0000_0000_0000_0000,
            -0x8000 <= cx <= 0x7FFF,
            -0x8000 <= cy <= 0x7FFF,
    ;
    let moved: i128 = single_value(single_value(step_x * cx) + single_value(step_y * cy));
    let start: i128 = single_value(origin as i128) * 0x4_0000_0000_0000;
    let at: i128 = whole_value(single_value(start - moved));
    let at: i64 = if at < -0x8000_0000 {
        -0x8000_0000
    } else if at > 0x7FFF_FFFF {
        0x7FFF_FFFF
    } else {
        at as i64
    };
    crate::alu::to_word(at)
}

/// Input of one background entry.
pub struct BgAffineInput {
    /// Origin in the texture, with 8 fractional bits.
    pub origin_x: int,
    /// Origin in the texture, with 8 fractional bits.
    pub origin_y: int,
    /// Centre on the screen, in pixels.
    pub center_x: int,
    /// Centre on the screen, in pixels.
    pub center_y: int,
    /// Horizontal scale, with 8 fractional bits.
    pub scale_x: int,
    /// Vertical scale, with 8 fractional bits.
    pub scale_y: int,
    /// Angle; the circle has 256 parts.
    pub angle: u8,
}

/// Input of one sprite entry.
pub struct ObjAffineInput {
    /// Horizontal scale, with 8 fractional bits.
    pub scale_x: int,
    /// Vertical scale, with 8 fractional bits.
    pub scale_y: int,
    /// Angle; the circle has 256 parts.
    pub angle: u8,
}

/// A halfword of memory as a signed number.
pub open spec fn signed_half_at(b: BusState, addr: u32) -> int {
    crate::alu::signed(sign_extend_16(b.read16(addr)))
}

fn read_signed_half(bus: &Bus, addr: u32) -> (r: i32)
    ensures
        r == signed_half_at(bus@, addr),
        -0x8000 <= r <= 0x7FFF,
{
    signed_value(sign_extend_16(bus.read_u16(addr))) as i32
}

/// The input of the background entry at `src`.
pub open spec fn bg_affine_at(b: BusState, src: u32) -> BgAffineInput {
    BgAffineInput {
        origin_x: crate::alu::signed(b.read32(src)),
        origin_y: crate::alu::signed(b.read32(src.wrapping_add(4))),
        center_x: signed_half_at(b, src.wrapping_add(8)),
        center_y: signed_half_at(b, src.wrapping_add(10)),
        scale_x: signed_half_at(b, src.wrapping_add(12)),
        scale_y: signed_half_at(b, src.wrapping_add(14)),
        angle: (b.read16(src.wrapping_add(16)) / 0x100) as u8,
    }
}

/// The input of the sprite entry at `src`.
pub open spec fn obj_affine_at(b: BusState, src: u32) -> ObjAffineInput {
    ObjAffineInput {
        scale_x: signed_half_at(b, src),
        scale_y: signed_half_at(b, src.wrapping_add(2)),
        angle: (b.read16(src.wrapping_add(4)) / 0x100) as u8,
    }
}

impl BusState {
    /// After writing four parameters, `stride` bytes apart.
    pub open spec fn with_matrix(self, dst: u32, stride: u32, m: AffineMatrix) -> BusState {
        self.write16(dst, m.pa).write16(dst.wrapping_add(stride), m.pb).write16(
            dst.wrapping_add(stride.wrapping_mul(2)),
            m.pc,
        ).write16(dst.wrapping_add(stride.wrapping_mul(3)), m.pd)
    }

    /// After computing the background entry at `src` and writing it to `dst`:
    /// the parameters and the reference point.
    pub open spec fn with_bg_entry(self, src: u32, dst: u32) -> BusState {
        let input = bg_affine_at(self, src);
        let t = rotation_of(input.scale_x, input.scale_y, input.angle);
        let x = reference_of(
            input.origin_x,
            t.a as int,
            t.b as int,
            input.center_x,
            input.center_y,
        );
        let y = reference_of(
            input.origin_y,
            t.c as int,
            t.d as int,
            input.center_x,
            input.center_y,
        );
        self.with_matrix(dst, 2, matrix_of(t)).write32(
            dst.wrapping_add(8),
            crate::alu::word_of(x),
        ).write32(dst.wrapping_add(12), crate::alu::word_of(y))
    }

    /// After computing the sprite entry at `src` and writing its parameters
    /// from `dst` on, `stride` bytes apart.
    pub open spec fn with_obj_entry(self, src: u32, dst: u32, stride: u32) -> BusState {
        let input = obj_affine_at(self, src);
        let t = rotation_of(input.scale_x, input.scale_y, input.angle);
        self.with_matrix(dst, stride, matrix_of(t))
    }

    /// After computing `count` background entries, one after the other: an
    /// entry has 20 bytes of input and 16 of output.
    pub open spec fn bg_affine_set(self, src: u32, dst: u32, count: nat) -> BusState
        decreases count,
    {
        if count == 0 {
            self
        } else {
            self.with_bg_entry(src, dst).bg_affine_set(
                src.wrapping_add(20),
                dst.wrapping_add(16),
                (count - 1) as nat,
            )
        }
    }

    /// After computing `count` sprite entries, one after the other: an entry
    /// has 8 bytes of input and four strides of output.
    pub open spec fn obj_affine_set(
        self,
        src: u32,
        dst: u32,
        stride: u32,
        count: nat,
    ) -> BusState
        decreases count,
    {
        if count == 0 {
            self
        } else {
            self.with_obj_entry(src, dst, stride).obj_affine_set(
                src.wrapping_add(8),
                dst.wrapping_add(stride.wrapping_mul(4)),
                stride,
                (count - 1) as nat,
            )
        }
    }
}

impl Machine {
    /// The bus after `BgAffineSet`: `r2` entries from `r0` to `r1`.
    pub open spec fn bg_affine_set(self) -> BusState {
        self.bus.bg_affine_set(self.cpu.r[0], self.cpu.r[1], self.cpu.r[2] as nat)
    }

    /// The bus after `ObjAffineSet`: `r2` entries from `r0` to `r1`, with `r3`
    /// bytes from parameter to parameter.
    pub open spec fn obj_affine_set(self) -> BusState {
        self.bus.obj_affine_set(
            self.cpu.r[0],
            self.cpu.r[1],
            self.cpu.r[3],
            self.cpu.r[2] as nat,
        )
    }
}

fn write_matrix(bus: &mut Bus, dst: u32, stride: u32, m: AffineMatrix)
    requires
        old(bus)@.wf(),
    ensures
        final(bus)@ == old(bus)@.with_matrix(dst, stride, m),
        final(bus)@.wf(),
{
    bus.write_u16(dst, m.pa);
    bus.write_u16(dst.wrapping_add(stride), m.pb);
    bus.write_u16(dst.wrapping_add(stride.wrapping_mul(2)), m.pc);
    bus.write_u16(dst.wrapping_add(stride.wrapping_mul(3)), m.pd);
}

fn bg_entry(bus: &mut Bus, src: u32, dst: u32)
    requires
        old(bus)@.wf(),
    ensures
        final(bus)@ == old(bus)@.with_bg_entry(src, dst),
        final(bus)@.wf(),
{
    let origin_x: i32 = signed_value(bus.read_u32(src)) as i32;
    let origin_y: i32 = signed_value(bus.read_u32(src.wrapping_add(4))) as i32;
    let center_x: i32 = read_signed_half(bus, src.wrapping_add(8));
    let center_y: i32 = read_signed_half(bus, src.wrapping_add(10));
    let scale_x: i32 = read_signed_half(bus, src.wrapping_add(12));
    let scale_y: i32 = read_signed_half(bus, src.wrapping_add(14));
    let angle: u8 = (bus.read_u16(src.wrapping_add(16)) / 0x100) as u8;
    let t: Rotation = rotation(scale_x, scale_y, angle);
    let x: u32 = reference(origin_x, t.a, t.b, center_x, center_y);
    let y: u32 = reference(origin_y, t.c, t.d, center_x, center_y);
    write_matrix(bus, dst, 2, matrix(t));
    bus.write_u32(dst.wrapping_add(8), x);
    bus.write_u32(dst.wrapping_add(12), y);
}

fn obj_entry(bus: &mut Bus, src: u32, dst: u32, stride: u32)
    requires
        old(bus)@.wf(),
    ensures
        final(bus)@ == old(bus)@.with_obj_entry(src, dst, stride),
        final(bus)@.wf(),
{
    let scale_x: i32 = read_signed_half(bus, src);
    let scale_y: i32 = read_signed_half(bus, src.wrapping_add(2));
    let angle: u8 = (bus.read_u16(src.wrapping_add(4)) / 0x100) as u8;
    write_matrix(bus, dst, stride, matrix(rotation(scale_x, scale_y, angle)));
}

/// `BgAffineSet`: computes the parameters and reference points of backgrounds
/// from centre, scale and angle.
pub fn bg_affine_set(cpu: &mut Cpu, bus: &mut Bus)
    requires
        old(bus)@.wf(),
    ensures
        final(cpu)@ == old(cpu)@,
        final(bus)@ == (Machine { cpu: old(cpu)@, bus: old(bus)@ }).bg_affine_set(),
        final(bus)@.wf(),
{
    let mut src: u32 = cpu.reg(0);
    let mut dst: u32 = cpu.reg(1);
    let mut left: u32 = cpu.reg(2);
    while left > 0
        invariant
            bus@.wf(),
            cpu@ == old(cpu)@,
            bus@.bg_affine_set(src, dst, left as nat) == (Machine {
                cpu: old(cpu)@,
                bus: old(bus)@,
            }).bg_affine_set(),
        decreases left,
    {
        bg_entry(bus, src, dst);
        src = src.wrapping_add(20);
        dst = dst.wrapping_add(16);
        left = left - 1;
    }
}

/// `ObjAffineSet`: computes the parameters of sprites from scale and angle.
pub fn obj_affine_set(cpu: &mut Cpu, bus: &mut Bus)
    requires
        old(bus)@.wf(),
    ensures
        final(cpu)@ == old(cpu)@,
        final(bus)@ == (Machine { cpu: old(cpu)@, bus: old(bus)@ }).obj_affine_set(),
        final(bus)@.wf(),
{
    let stride: u32 = cpu.reg(3);
    let mut src: u32 = cpu.reg(0);
    let mut dst: u32 = cpu.reg(1);
    let mut left: u32 = cpu.reg(2);
    while left > 0
        invariant
            bus@.wf(),
            cpu@ == old(cpu)@,
            stride == old(cpu)@.r[3],
            bus@.obj_affine_set(src, dst, stride, left as nat) == (Machine {
                cpu: old(cpu)@,
                bus: old(bus)@,
            }).obj_affine_set(),
        decreases left,
    {
        obj_entry(bus, src, dst, stride);
        src = src.wrapping_add(8);
        dst = dst.wrapping_add(stride.wrapping_mul(4));
        left = left - 1;
    }
}

/// Without rotation the parameters are the scales.
pub proof fn law_upright_parameters_are_the_scales(scale_x: int, scale_y: int)
    requires
        -0x8000 <= scale_x <= 0x7FFF,
        -0x8000 <= scale_y <= 0x7FFF,
    ensures
        matrix_of(rotation_of(scale_x, scale_y, 0)) == (AffineMatrix {
            pa: (scale_x % 0x1_0000) as u16,
            pb: 0,
            pc: 0,
            pd: (scale_y % 0x1_0000) as u16,
        }),
{
    assert(crate::bios_waves::sine_of(0) == 0);
    assert(crate::bios_waves::cosine_of(0) == crate::bios_waves::WAVE_ONE);
    assert(-0 * scale_x == 0 && 0 * scale_y == 0) by (nonlinear_arith);
    lemma_one_times(scale_x);
    lemma_one_times(scale_y);
    law_single_precision(0);
}

pub(crate) proof fn lemma_one_times(scale: int)
    requires
        -0x100_0000 < scale < 0x100_0000,
    ensures
        single(crate::bios_waves::WAVE_ONE * scale) == crate::bios_waves::WAVE_ONE * scale,
        whole(crate::bios_waves::WAVE_ONE * scale) == scale,
{
    let m = crate::bios_math::magnitude(scale);
    assert(power(50) == 0x4_0000_0000_0000) by {
        reveal_with_fuel(power, 51);
    }
    lemma_few_bits_are_exact(m, 50);
    assert(crate::bios_math::magnitude(crate::bios_waves::WAVE_ONE * scale) == m
        * 0x4_0000_0000_0000);
    assert((m * 0x4_0000_0000_0000) / 0x4_0000_0000_0000 == m);
}

spec fn power(k: nat) -> int
    decreases k,
{
    if k == 0 {
        1
    } else {
        2 * power((k - 1) as nat)
    }
}

proof fn lemma_few_bits_are_exact(m: int, k: nat)
    requires
        0 <= m < SINGLE_LIMIT,
    ensures
        (m * power(k)) % unit(m * power(k)) == 0,
        rounded(m * power(k)) == m * power(k),
        0 <= m * power(k),
    decreases k,
{
    let n = m * power(k);
    if k == 0 {
        assert(m * 1 == m) by (nonlinear_arith);
    } else {
        let half = m * power((k - 1) as nat);
        lemma_few_bits_are_exact(m, (k - 1) as nat);
        assert(n == 2 * half) by (nonlinear_arith)
            requires
                n == m * power(k),
                half == m * power((k - 1) as nat),
                power(k) == 2 * power((k - 1) as nat),
        ;
        if n >= SINGLE_LIMIT {
            let u = unit(half);
            lemma_unit(half);
            vstd::arithmetic::div_mod::lemma_fundamental_div_mod(half, u);
            let q = half / u;
            assert(n == q * (2 * u)) by (nonlinear_arith)
                requires
                    n == 2 * half,
                    half == u * q,
            ;
            vstd::arithmetic::div_mod::lemma_mod_multiples_basic(q, 2 * u);
        }
    }
    lemma_unit(n);
    lemma_rounded(n);
}

} // verus!

//! What the calls that clear memory, unpack it or set up a background do, from
//! the registers and the structures they name to the memory after the call.

use vstd::prelude::*;

use crate::bus::BusState;
use crate::cpu::Machine;

verus! {

/// Call 1 clears what the bits of `r0` name: external work RAM (bit 0), internal
/// work RAM but for its last 0x200 bytes (bit 1), the palette (bit 2), video RAM
/// (bit 3) and the sprites (bit 4). All other memory keeps its bytes.
pub proof fn law_clearing_call(m: Machine, b: u32)
    requires
        m.bus.wf(),
        m.cpu.wf(),
    ensures
        ({
            let flags = m.cpu.r[0];
            let region = b / 0x100_0000;
            let asked = if region == 2 {
                flags % 2 == 1
            } else if region == 3 {
                flags / 2 % 2 == 1 && b % 0x8000 < 0x7E00
            } else if region == 5 {
                flags / 4 % 2 == 1
            } else if region == 6 {
                flags / 8 % 2 == 1
            } else if region == 7 {
                flags / 0x10 % 2 == 1
            } else {
                false
            };
            &&& m.swi(1).0.bus.read8(b) == if asked {
                0
            } else {
                m.bus.read8(b)
            }
            &&& m.swi(1).0.cpu == m.cpu
        }),
{
    let flags = m.cpu.r[0];
    assert(m.swi(1).0 == m.with_bus(m.bus.ram_reset(flags))) by {
        reveal(Machine::swi);
    }
    crate::bios_laws::law_ram_reset_clears_what_is_asked(m.bus, flags, b);
    crate::encoding::lemma_word_digits(flags);
    crate::encoding::lemma_block_control(flags);
}

/// Call 0x13 decompresses a Huffman stream of eight-bit symbols from `r0` to
/// `r1`.
pub proof fn law_huffman_call(m: Machine, codes: Seq<Seq<bool>>, text: Seq<u8>)
    requires
        m.bus.wf(),
        m.bus.read32(m.cpu.r[0]) % 16 == 8,
        m.bus.read32(m.cpu.r[0]) / 0x100 == text.len(),
        text.len() <= 0x40_0000,
        codes.len() == text.len(),
        crate::huffman_laws::bits_before(codes, codes.len()) <= 32 * (8 * text.len() + 64),
        ({
            let src = m.cpu.r[0];
            let tree = crate::unpack_laws::after(src, 4);
            let root = crate::unpack_laws::after(src, 5);
            let at = crate::unpack_laws::after(src, 4 + (m.bus.read8(tree) + 1) * 2);
            forall|j: int|
                0 <= j < codes.len() ==> #[trigger] crate::huffman_laws::code_stands(
                    m.bus,
                    root,
                    at,
                    codes,
                    text,
                    j,
                )
        }),
        crate::firmware_laws::plain_run(m.cpu.r[1], text.len()),
    ensures
        crate::firmware_laws::arrives(m.swi(0x13).0.bus, m.cpu.r[1], text),
        m.swi(0x13).0.cpu == m.cpu,
{
    assert(m.swi(0x13).0 == m.with_bus(m.huffman())) by {
        reveal(Machine::swi);
    }
    crate::huffman_laws::law_huffman_gives_the_text(m.bus, m.cpu.r[0], codes, text);
    crate::bios_laws::law_flushed_bytes_arrive(m.bus, m.cpu.r[1], text);
}

/// Call 0x10 unpacks as many bytes from `r0` as the halfword at `r2` says, to `r1`
/// on; units that do not fill a last word are written in one.
pub proof fn law_unpacking_call(m: Machine)
    requires
        m.cpu.wf(),
        crate::bios_unpack::valid_widths(m.unpack_info()),
    ensures
        ({
            let start = crate::bios_unpack::Unpacking {
                bus: m.bus,
                buffer: 0,
                bits: 0,
                at: m.cpu.r[1],
            };
            let count = m.bus.read16(m.cpu.r[2]) as nat;
            let end = crate::bios_unpack::unpack_bytes(start, m.unpack_info(), m.cpu.r[0], count);
            &&& end.bits == 0 ==> m.swi(0x10).0.bus == end.bus
            &&& end.bits > 0 ==> m.swi(0x10).0.bus == end.bus.write32(end.at, end.buffer)
            &&& m.swi(0x10).0.cpu == m.cpu
        }),
{
    assert(m.swi(0x10).0 == m.with_bus(m.bit_unpack())) by {
        reveal(Machine::swi);
    }
}

/// The reference point of a background, as far as single precision is exact: the
/// origin in the picture less what the parameters make of the middle of the
/// screen, so that the origin shows there.
pub proof fn law_reference_point(origin: int, a: int, b: int, center_x: int, center_y: int)
    requires
        -0x100_0000 < origin < 0x100_0000,
        -0x100_0000 < a * center_x < 0x100_0000,
        -0x100_0000 < b * center_y < 0x100_0000,
        -0x100_0000 < a * center_x + b * center_y < 0x100_0000,
        -0x100_0000 < origin - (a * center_x + b * center_y) < 0x100_0000,
    ensures
        ({
            let one = crate::bios_waves::WAVE_ONE as int;
            crate::bios_affine::reference_of(origin, one * a, one * b, center_x, center_y)
                == origin - (a * center_x + b * center_y)
        }),
{
    let one = crate::bios_waves::WAVE_ONE as int;
    let p = a * center_x;
    let q = b * center_y;
    assert((one * a) * center_x == one * p) by (nonlinear_arith)
        requires
            p == a * center_x,
    ;
    assert((one * b) * center_y == one * q) by (nonlinear_arith)
        requires
            q == b * center_y,
    ;
    crate::bios_affine::lemma_one_times(p);
    crate::bios_affine::lemma_one_times(q);
    assert(one * p + one * q == one * (p + q)) by (nonlinear_arith);
    crate::bios_affine::lemma_one_times(p + q);
    crate::bios_affine::law_single_precision(origin);
    let d = origin - (p + q);
    assert(origin * one - one * (p + q) == one * d) by (nonlinear_arith)
        requires
            d == origin - (p + q),
    ;
    crate::bios_affine::lemma_one_times(d);
}

/// A word of memory as a signed number.
pub open spec fn signed_word_of(b: BusState, addr: u32) -> int {
    let raw = b.read32(addr);
    if raw >= 0x8000_0000 {
        raw - 0x1_0000_0000
    } else {
        raw as int
    }
}

/// Memory after one background of call 0xE: twenty bytes at `src` hold the origin
/// in the picture, the middle of the screen, the scales and the angle (in the high
/// byte); the four parameters and the reference point go to sixteen bytes at
/// `dst`.
pub open spec fn background_set_up(b: BusState, src: u32, dst: u32) -> BusState {
    let turn = crate::bios_affine::rotation_of(
        crate::angle_laws::signed_half_of(b, crate::unpack_laws::after(src, 12)),
        crate::angle_laws::signed_half_of(b, crate::unpack_laws::after(src, 14)),
        (b.read16(crate::unpack_laws::after(src, 16)) / 0x100) as u8,
    );
    let center_x = crate::angle_laws::signed_half_of(b, crate::unpack_laws::after(src, 8));
    let center_y = crate::angle_laws::signed_half_of(b, crate::unpack_laws::after(src, 10));
    let x = crate::bios_affine::reference_of(
        signed_word_of(b, src),
        turn.a as int,
        turn.b as int,
        center_x,
        center_y,
    );
    let y = crate::bios_affine::reference_of(
        signed_word_of(b, crate::unpack_laws::after(src, 4)),
        turn.c as int,
        turn.d as int,
        center_x,
        center_y,
    );
    let parameters = crate::angle_laws::matrix_written(
        b,
        dst,
        2,
        crate::bios_affine::matrix_of(turn),
    );
    parameters.write32(crate::unpack_laws::after(dst, 8), (x % 0x1_0000_0000) as u32).write32(
        crate::unpack_laws::after(dst, 12),
        (y % 0x1_0000_0000) as u32,
    )
}

/// Call 0xE sets up `r2` backgrounds from `r0` to `r1`: the first one, and then the
/// rest with the addresses moved on.
pub proof fn law_background_matrix_call(m: Machine)
    requires
        m.cpu.wf(),
    ensures
        ({
            let (src, dst, n) = (m.cpu.r[0], m.cpu.r[1], m.cpu.r[2]);
            let rest = Machine {
                cpu: m.cpu.with_reg(0, crate::unpack_laws::after(src, 20)).with_reg(
                    1,
                    crate::unpack_laws::after(dst, 16),
                ).with_reg(2, (n - 1) as u32),
                bus: background_set_up(m.bus, src, dst),
            };
            &&& n == 0 ==> m.swi(0xE).0.bus == m.bus
            &&& n > 0 ==> m.swi(0xE).0.bus == rest.swi(0xE).0.bus
            &&& m.swi(0xE).0.cpu == m.cpu
        }),
{
    let (src, dst, n) = (m.cpu.r[0], m.cpu.r[1], m.cpu.r[2]);
    lemma_background_entry(m.bus, src, dst);
    let next = crate::unpack_laws::after(src, 20);
    let there = crate::unpack_laws::after(dst, 16);
    let rest = Machine {
        cpu: m.cpu.with_reg(0, next).with_reg(1, there).with_reg(2, (n - 1) as u32),
        bus: m.bus.with_bg_entry(src, dst),
    };
    assert(m.swi(0xE).0 == m.with_bus(m.bus.bg_affine_set(src, dst, n as nat))) by {
        reveal(Machine::swi);
    }
    if n > 0 {
        assert(rest.swi(0xE).0.bus == rest.bus.bg_affine_set(next, there, (n - 1) as nat)) by {
            reveal(Machine::swi);
        }
    }
}

proof fn lemma_background_entry(b: BusState, src: u32, dst: u32)
    ensures
        src.wrapping_add(20) == crate::unpack_laws::after(src, 20),
        dst.wrapping_add(16) == crate::unpack_laws::after(dst, 16),
        b.with_bg_entry(src, dst) == background_set_up(b, src, dst),
{
    crate::unpack_laws::lemma_after(src, 0, 4);
    crate::unpack_laws::lemma_after(src, 0, 8);
    crate::unpack_laws::lemma_after(src, 0, 10);
    crate::unpack_laws::lemma_after(src, 0, 12);
    crate::unpack_laws::lemma_after(src, 0, 14);
    crate::unpack_laws::lemma_after(src, 0, 16);
    crate::unpack_laws::lemma_after(src, 0, 20);
    crate::unpack_laws::lemma_after(dst, 0, 8);
    crate::unpack_laws::lemma_after(dst, 0, 12);
    crate::unpack_laws::lemma_after(dst, 0, 16);
    let input = crate::bios_affine::bg_affine_at(b, src);
    let turn = crate::bios_affine::rotation_of(input.scale_x, input.scale_y, input.angle);
    crate::angle_laws::lemma_matrix(b, dst, 2, crate::bios_affine::matrix_of(turn));
}

} // verus!

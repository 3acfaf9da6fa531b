//! Colours and the memory that the picture is made from.

use vstd::prelude::*;

use crate::bits::half_from_bytes;

verus! {

/// The memories that the picture unit reads.
#[verifier::ext_equal]
pub struct VideoMemory {
    /// Video RAM.
    pub vram: Seq<u8>,
    /// Palette RAM.
    pub pram: Seq<u8>,
    /// Sprite attributes.
    pub oam: Seq<u8>,
}

/// The halfword of `mem` at `off`; bytes that do not exist are zero.
pub open spec fn half_at(mem: Seq<u8>, off: int) -> u16 {
    half_from_bytes(crate::bus::byte_at(mem, off), crate::bus::byte_at(mem, off + 1))
}

/// The byte of `buf` at `off`, or zero when there is none.
pub fn read_at(buf: &[u8], off: usize) -> (r: u8)
    ensures
        r == crate::bus::byte_at(buf@, off as int),
{
    if off < buf.len() {
        buf[off]
    } else {
        0
    }
}

/// The halfword of `buf` at `off`; bytes that do not exist are zero.
pub fn read_u16_at(buf: &[u8], off: usize) -> (r: u16)
    requires
        off < usize::MAX,
    ensures
        r == half_at(buf@, off as int),
{
    half_from_bytes(read_at(buf, off), read_at(buf, off + 1))
}

/// A colour channel of five bits stretched to eight: its high bits are repeated
/// below, so that 0 stays 0 and 31 becomes 255.
#[verifier::allow_in_spec]
pub fn expand5(c5: u8) -> u8
    requires
        c5 < 32,
    returns
        (c5 * 8 + c5 / 4) as u8,
{
    c5 * 8 + c5 / 4
}

/// A native colour (five bits each of red, green and blue, red lowest) as four
/// bytes red, green, blue and alpha, opaque.
pub open spec fn rgba(color: u16) -> Seq<u8> {
    seq![
        expand5((color % 32) as u8),
        expand5((color / 32 % 32) as u8),
        expand5((color / 1024 % 32) as u8),
        0xFFu8,
    ]
}

/// Converts a native colour to red, green, blue and alpha.
pub fn bgr555_to_rgba(color: u16) -> (r: [u8; 4])
    ensures
        r@ == rgba(color),
{
    let r: [u8; 4] = [
        expand5((color % 32) as u8),
        expand5((color / 32 % 32) as u8),
        expand5((color / 1024 % 32) as u8),
        0xFF,
    ];
    assert(r@ =~= rgba(color));
    r
}

/// Every colour is opaque, black and white are the ends of the scale, and a
/// brighter channel stays brighter, so that no two native colours look alike.
pub proof fn law_colors(a: u16, b: u16)
    ensures
        rgba(a).len() == 4,
        rgba(a)[3] == 0xFF,
        rgba(0x0000) == seq![0u8, 0u8, 0u8, 0xFFu8],
        rgba(0x7FFF) == seq![0xFFu8, 0xFFu8, 0xFFu8, 0xFFu8],
        a % 32 < b % 32 <==> rgba(a)[0] < rgba(b)[0],
        a / 32 % 32 < b / 32 % 32 <==> rgba(a)[1] < rgba(b)[1],
        a / 1024 % 32 < b / 1024 % 32 <==> rgba(a)[2] < rgba(b)[2],
        a % 0x8000 == b % 0x8000 <==> rgba(a) == rgba(b),
{
    lemma_channel((a % 32) as u8, (b % 32) as u8);
    lemma_channel((a / 32 % 32) as u8, (b / 32 % 32) as u8);
    lemma_channel((a / 1024 % 32) as u8, (b / 1024 % 32) as u8);
    lemma_channels_make_color(a);
    lemma_channels_make_color(b);
    if a % 0x8000 == b % 0x8000 {
        assert(rgba(a) =~= rgba(b));
    } else if rgba(a) == rgba(b) {
        assert(rgba(a)[0] == rgba(b)[0] && rgba(a)[1] == rgba(b)[1] && rgba(a)[2] == rgba(b)[2]);
    }
}

proof fn lemma_channel(c: u8, d: u8)
    requires
        c < 32,
        d < 32,
    ensures
        c < d <==> expand5(c) < expand5(d),
        d < c <==> expand5(d) < expand5(c),
{
}

#[verifier::spinoff_prover]
#[verifier::rlimit(40)]
proof fn lemma_channels_make_color(a: u16)
    ensures
        a % 0x8000 == a % 32 + 32 * (a / 32 % 32) + 1024 * (a / 1024 % 32),
{
    let q = (a / 32) as int;
    let p = (a / 1024) as int;
    vstd::arithmetic::div_mod::lemma_div_denominator(a as int, 32, 32);
    assert(q / 32 == p);
    assert(a == 32 * q + a % 32);
    assert(q == 32 * p + q % 32);
    assert(p == 32 * (p / 32) + p % 32);
    let rest = a % 32 + 32 * (q % 32) + 1024 * (p % 32);
    vstd::arithmetic::div_mod::lemma_fundamental_div_mod_converse(
        a as int,
        0x8000,
        p / 32,
        rest,
    );
}

/// A pixel of a layer: its colour, and the priority of the layer there. Lower
/// priorities are in front. `None` is transparent.
pub type LayerPixel = Option<(u16, u8)>;

/// The colour of a pixel from the background and the sprite there. A sprite
/// wins against a background of the same or a higher priority number; where
/// both are transparent, the first palette colour shows.
pub open spec fn composed(bg: LayerPixel, obj: LayerPixel, pram: Seq<u8>) -> Seq<u8> {
    match (bg, obj) {
        (None, None) => rgba(half_at(pram, 0)),
        (Some(b), None) => rgba(b.0),
        (None, Some(o)) => rgba(o.0),
        (Some(b), Some(o)) => if o.1 <= b.1 {
            rgba(o.0)
        } else {
            rgba(b.0)
        },
    }
}

pub proof fn lemma_composed_is_opaque(bg: LayerPixel, obj: LayerPixel, pram: Seq<u8>)
    ensures
        composed(bg, obj, pram).len() == 4,
        composed(bg, obj, pram)[3] == 0xFF,
{
}

/// Combines the background and the sprite of a pixel.
pub fn compose_pixel(bg: LayerPixel, obj: LayerPixel, pram: &[u8]) -> (r: [u8; 4])
    ensures
        r@ == composed(bg, obj, pram@),
{
    match obj {
        Some((color, priority)) => match bg {
            Some((bg_color, bg_priority)) => {
                if priority <= bg_priority {
                    bgr555_to_rgba(color)
                } else {
                    bgr555_to_rgba(bg_color)
                }
            },
            None => bgr555_to_rgba(color),
        },
        None => match bg {
            Some((bg_color, _)) => bgr555_to_rgba(bg_color),
            None => bgr555_to_rgba(read_u16_at(pram, 0)),
        },
    }
}

} // verus!

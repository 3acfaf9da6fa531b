//! Backgrounds: tiled ones with scrolling, tiled ones with an affine
//! transformation, and bitmaps.

use vstd::prelude::*;

use crate::alu::signed_value;
use crate::bits::{bit16, sign_extend_16};
use crate::ppu_color::{read_at, read_u16_at, LayerPixel};

verus! {

/// Bytes of a block of tiles.
pub const CHAR_BLOCK_BYTES: usize = 0x4000;

/// Bytes of a block of map entries.
pub const SCREEN_BLOCK_BYTES: usize = 0x800;

/// Where the second frame of a double-buffered bitmap starts.
pub const FRAME_BYTES: usize = 0xA000;

/// Width of the small bitmap.
pub const MODE5_WIDTH: usize = 160;

/// Height of the small bitmap.
pub const MODE5_HEIGHT: usize = 128;

/// The registers of the backgrounds. The affine ones belong to backgrounds 2
/// and 3, in this order.
#[verifier::ext_equal]
pub struct BgState {
    /// Control of each background.
    pub cnt: Seq<u16>,
    /// Horizontal scroll of each background.
    pub hofs: Seq<u16>,
    /// Vertical scroll of each background.
    pub vofs: Seq<u16>,
    /// Affine parameters, as raw halfwords.
    pub pa: Seq<u16>,
    /// Affine parameters, as raw halfwords.
    pub pb: Seq<u16>,
    /// Affine parameters, as raw halfwords.
    pub pc: Seq<u16>,
    /// Affine parameters, as raw halfwords.
    pub pd: Seq<u16>,
    /// Affine reference points, as raw words.
    pub x: Seq<u32>,
    /// Affine reference points, as raw words.
    pub y: Seq<u32>,
}

/// A snapshot of the background registers.
#[derive(Clone, Copy)]
pub struct BgRegisters {
    /// Control of each background.
    pub cnt: [u16; 4],
    /// Horizontal scroll of each background.
    pub hofs: [u16; 4],
    /// Vertical scroll of each background.
    pub vofs: [u16; 4],
    /// Affine parameters, as raw halfwords.
    pub pa: [u16; 2],
    /// Affine parameters, as raw halfwords.
    pub pb: [u16; 2],
    /// Affine parameters, as raw halfwords.
    pub pc: [u16; 2],
    /// Affine parameters, as raw halfwords.
    pub pd: [u16; 2],
    /// Affine reference points, as raw words.
    pub x: [u32; 2],
    /// Affine reference points, as raw words.
    pub y: [u32; 2],
}

impl View for BgRegisters {
    type V = BgState;

    open spec fn view(&self) -> BgState {
        BgState {
            cnt: self.cnt@,
            hofs: self.hofs@,
            vofs: self.vofs@,
            pa: self.pa@,
            pb: self.pb@,
            pc: self.pc@,
            pd: self.pd@,
            x: self.x@,
            y: self.y@,
        }
    }
}

/// The size of a text background in tiles: width and height.
#[verifier::allow_in_spec]
pub fn bg_size_tiles(bgcnt: u16) -> (usize, usize)
    returns
        (match (bgcnt >> 14) % 4 {
            0 => (32usize, 32usize),
            1 => (64usize, 32usize),
            2 => (32usize, 64usize),
            _ => (64usize, 64usize),
        }),
{
    match (bgcnt >> 14) % 4 {
        0 => (32, 32),
        1 => (64, 32),
        2 => (32, 64),
        _ => (64, 64),
    }
}

/// The number of the map entry of a tile: the map is made of blocks of 32 by 32
/// entries, the ones to the right before the ones below.
pub open spec fn map_entry(tile_x: int, tile_y: int, width_tiles: int) -> int {
    let block = tile_x / 32 + tile_y / 32 * (width_tiles / 32);
    block * 1024 + tile_y % 32 * 32 + tile_x % 32
}

/// The number of the map entry of a tile.
pub fn map_entry_index(tile_x: usize, tile_y: usize, width_tiles: usize) -> (r: usize)
    requires
        map_entry(tile_x as int, tile_y as int, width_tiles as int) <= usize::MAX,
    ensures
        r == map_entry(tile_x as int, tile_y as int, width_tiles as int),
{
    assert(0 <= (tile_y / 32) * (width_tiles / 32)) by (nonlinear_arith);
    let block: usize = tile_x / 32 + tile_y / 32 * (width_tiles / 32);
    block * 1024 + tile_y % 32 * 32 + tile_x % 32
}

proof fn lemma_map_entry_bound(tile_x: int, tile_y: int, width_tiles: int)
    requires
        0 <= tile_x < 64,
        0 <= tile_y < 64,
        width_tiles == 32 || width_tiles == 64,
    ensures
        0 <= map_entry(tile_x, tile_y, width_tiles) < 4096,
{
    assert(0 <= (tile_y / 32) * (width_tiles / 32) <= 2) by (nonlinear_arith)
        requires
            0 <= tile_y / 32 <= 1,
            1 <= width_tiles / 32 <= 2,
    ;
}

/// A coordinate wrapped around a background of 32 or 64 tiles.
pub open spec fn wrapped_at(v: int, tiles: usize) -> int {
    if tiles == 64 {
        v % 512
    } else {
        v % 256
    }
}

/// A coordinate wrapped around a background of 32 or 64 tiles.
fn wrapped(v: usize, tiles: usize) -> (r: usize)
    ensures
        r == wrapped_at(v as int, tiles),
{
    if tiles == 64 {
        v % 512
    } else {
        v % 256
    }
}

/// A coordinate within a tile, mirrored if asked.
#[verifier::allow_in_spec]
pub fn mirrored(v: usize, flip: bool) -> usize
    requires
        v < 8,
    returns
        (if flip {
            (7 - v) as usize
        } else {
            v
        }),
{
    if flip {
        7 - v
    } else {
        v
    }
}

/// Half a byte: the low half for an even pixel, the high one for an odd pixel.
#[verifier::allow_in_spec]
pub fn nibble_of_pixel(byte: u8, px: usize) -> u8
    returns
        (if px % 2 == 0 {
            byte % 16
        } else {
            byte / 16
        }),
{
    if px % 2 == 0 {
        byte % 16
    } else {
        byte / 16
    }
}

/// The colour of a text background at one of its own points; `None` where it is
/// transparent. A map entry names a tile, may mirror it, and with 16 colours
/// selects a palette.
#[verifier::opaque]
pub open spec fn text_point(
    bgcnt: u16,
    bg_x: int,
    bg_y: int,
    vram: Seq<u8>,
    pram: Seq<u8>,
) -> Option<u16> {
    let map = (bgcnt >> 8) % 32 * 0x800;
    let entry = crate::ppu_color::half_at(
        vram,
        map + map_entry(bg_x / 8, bg_y / 8, bg_size_tiles(bgcnt).0 as int) * 2,
    );
    let px = mirrored((bg_x % 8) as usize, bit16(entry, 10));
    let py = mirrored((bg_y % 8) as usize, bit16(entry, 11));
    let tiles = (bgcnt >> 2) % 4 * 0x4000;
    let tile = entry % 0x400;
    let eight_bpp = bit16(bgcnt, 7);
    let index = if eight_bpp {
        crate::bus::byte_at(vram, tiles + tile * 64 + py * 8 + px)
    } else {
        nibble_of_pixel(crate::bus::byte_at(vram, tiles + tile * 32 + py * 4 + px / 2), px)
    };
    if index == 0 {
        None
    } else {
        let color = if eight_bpp {
            index as int
        } else {
            (entry / 0x1000) * 16 + index
        };
        Some(crate::ppu_color::half_at(pram, color * 2))
    }
}

/// The colour of a text background at a pixel of the screen; `None` where it is
/// transparent. Scrolling wraps around.
pub open spec fn text_sample(
    bgcnt: u16,
    hofs: u16,
    vofs: u16,
    x: int,
    y: int,
    vram: Seq<u8>,
    pram: Seq<u8>,
) -> Option<u16> {
    let (width, height) = bg_size_tiles(bgcnt);
    text_point(bgcnt, wrapped_at(x + hofs, width), wrapped_at(y + vofs, height), vram, pram)
}

/// Samples a text background at a pixel of the screen.
pub fn sample_text_bg(
    bgcnt: u16,
    hofs: u16,
    vofs: u16,
    screen_x: usize,
    screen_y: usize,
    vram: &[u8],
    pram: &[u8],
) -> (r: Option<u16>)
    requires
        screen_x + hofs <= usize::MAX,
        screen_y + vofs <= usize::MAX,
    ensures
        r == text_sample(bgcnt, hofs, vofs, screen_x as int, screen_y as int, vram@, pram@),
{
    reveal(text_point);
    let (width, height): (usize, usize) = bg_size_tiles(bgcnt);
    let bg_x: usize = wrapped(screen_x + hofs as usize, width);
    let bg_y: usize = wrapped(screen_y + vofs as usize, height);
    let map: usize = ((bgcnt >> 8) % 32) as usize * SCREEN_BLOCK_BYTES;
    proof {
        lemma_map_entry_bound((bg_x / 8) as int, (bg_y / 8) as int, width as int);
    }
    let entry: u16 = read_u16_at(vram, map + map_entry_index(bg_x / 8, bg_y / 8, width) * 2);
    let px: usize = mirrored(bg_x % 8, bit16(entry, 10));
    let py: usize = mirrored(bg_y % 8, bit16(entry, 11));
    let tiles: usize = ((bgcnt >> 2) % 4) as usize * CHAR_BLOCK_BYTES;
    let tile: usize = (entry % 0x400) as usize;
    let eight_bpp: bool = bit16(bgcnt, 7);
    let index: u8 = if eight_bpp {
        read_at(vram, tiles + tile * 64 + py * 8 + px)
    } else {
        nibble_of_pixel(read_at(vram, tiles + tile * 32 + py * 4 + px / 2), px)
    };
    if index == 0 {
        return None;
    }
    let color: usize = if eight_bpp {
        index as usize
    } else {
        (entry / 0x1000) as usize * 16 + index as usize
    };
    Some(read_u16_at(pram, color * 2))
}

/// Scrolling a text background only moves it: the pixel shown is the one that
/// lies as far to the right and below without scrolling. The background repeats
/// every 512 pixels in both directions.
pub proof fn law_scrolling_translates(
    bgcnt: u16,
    hofs: u16,
    vofs: u16,
    x: int,
    y: int,
    vram: Seq<u8>,
    pram: Seq<u8>,
)
    ensures
        text_sample(bgcnt, hofs, vofs, x, y, vram, pram) == text_sample(
            bgcnt,
            0,
            0,
            x + hofs,
            y + vofs,
            vram,
            pram,
        ),
        text_sample(bgcnt, hofs, vofs, x + 512, y, vram, pram) == text_sample(
            bgcnt,
            hofs,
            vofs,
            x,
            y,
            vram,
            pram,
        ),
        text_sample(bgcnt, hofs, vofs, x, y + 512, vram, pram) == text_sample(
            bgcnt,
            hofs,
            vofs,
            x,
            y,
            vram,
            pram,
        ),
{
    let (width, height) = bg_size_tiles(bgcnt);
    assert(wrapped_at(x + 512 + hofs, width) == wrapped_at(x + hofs, width));
    assert(wrapped_at(y + 512 + vofs, height) == wrapped_at(y + vofs, height));
}

/// A raw halfword as a signed number.
pub open spec fn signed16(raw: u16) -> int {
    crate::alu::signed(sign_extend_16(raw))
}

/// A raw halfword as a signed number.
pub fn signed16_value(raw: u16) -> (r: i64)
    ensures
        r == signed16(raw),
        -0x8000 <= r <= 0x7FFF,
{
    signed_value(sign_extend_16(raw))
}

/// The low 28 bits of a raw word as a signed number.
pub open spec fn signed28(raw: u32) -> int {
    if raw % 0x1000_0000 >= 0x800_0000 {
        raw % 0x1000_0000 - 0x1000_0000
    } else {
        (raw % 0x1000_0000) as int
    }
}

/// The low 28 bits of a raw word as a signed number.
pub fn sign_extend_28(raw: u32) -> (r: i64)
    ensures
        r == signed28(raw),
        -0x800_0000 <= r < 0x800_0000,
{
    let low: i64 = (raw % 0x1000_0000) as i64;
    if low >= 0x800_0000 {
        low - 0x1000_0000
    } else {
        low
    }
}

/// The size in pixels of a side of an affine background.
#[verifier::allow_in_spec]
pub fn affine_size(bgcnt: u16) -> i64
    returns
        (match (bgcnt >> 14) % 4 {
            0 => 128i64,
            1 => 256i64,
            2 => 512i64,
            _ => 1024i64,
        }),
{
    match (bgcnt >> 14) % 4 {
        0 => 128,
        1 => 256,
        2 => 512,
        _ => 1024,
    }
}

/// A texture coordinate within an affine background, or `None` outside it. With
/// wrapping there is no outside.
pub open spec fn within(v: int, size: int, wrap: bool) -> Option<int> {
    if wrap {
        Some(v % size)
    } else if 0 <= v < size {
        Some(v)
    } else {
        None
    }
}

/// Divides by 256, rounding down.
pub fn floor_256(v: i64) -> (r: i64)
    requires
        -0x1_0000_0000 <= v <= 0x1_0000_0000,
    ensures
        r == v as int / 256,
        -0x100_0000 <= r <= 0x100_0000,
{
    (v + 0x1_0000_0000) / 256 - 0x100_0000
}

fn wrap_within(v: i64, size: i64, wrap: bool) -> (r: Option<usize>)
    requires
        size == 128 || size == 256 || size == 512 || size == 1024,
        -0x100_0000 <= v <= 0x100_0000,
    ensures
        match r {
            Some(c) => within(v as int, size as int, wrap) == Some(c as int) && c < size,
            None => within(v as int, size as int, wrap) is None,
        },
{
    if wrap {
        let up: i64 = v + 0x100_0000;
        let r: i64 = if size == 128 {
            up % 128
        } else if size == 256 {
            up % 256
        } else if size == 512 {
            up % 512
        } else {
            up % 1024
        };
        Some(r as usize)
    } else if 0 <= v && v < size {
        Some(v as usize)
    } else {
        None
    }
}

/// The colour of affine background 2 or 3 at a pixel of the screen; `None`
/// where it is transparent. The texture coordinates are the pixel transformed
/// by the matrix, from the reference point, with eight fractional bits dropped.
pub open spec fn affine_sample(
    bg: BgState,
    idx: int,
    x: int,
    y: int,
    vram: Seq<u8>,
    pram: Seq<u8>,
) -> Option<u16> {
    let a = idx - 2;
    let cnt = bg.cnt[idx];
    let size = affine_size(cnt) as int;
    let wrap = bit16(cnt, 13);
    let tx = (signed16(bg.pa[a]) * x + signed16(bg.pb[a]) * y + signed28(bg.x[a])) / 256;
    let ty = (signed16(bg.pc[a]) * x + signed16(bg.pd[a]) * y + signed28(bg.y[a])) / 256;
    match (within(tx, size, wrap), within(ty, size, wrap)) {
        (Some(ix), Some(iy)) => {
            let map = (cnt >> 8) % 32 * 0x800;
            let tile = crate::bus::byte_at(vram, map + iy / 8 * (size / 8) + ix / 8);
            let tiles = (cnt >> 2) % 4 * 0x4000;
            let index = crate::bus::byte_at(vram, tiles + tile * 64 + iy % 8 * 8 + ix % 8);
            if index == 0 {
                None
            } else {
                Some(crate::ppu_color::half_at(pram, index * 2))
            }
        },
        _ => None,
    }
}

/// Whether a number fits 32 bits with a sign.
pub open spec fn fits_i32(v: int) -> bool {
    i32::MIN <= v <= i32::MAX
}

/// Whether the transformation of a position stays within 32 bits: position,
/// products and sums.
pub open spec fn affine_fits(bg: BgState, idx: int, x: int, y: int) -> bool {
    let a = idx - 2;
    &&& fits_i32(x)
    &&& fits_i32(y)
    &&& fits_i32(signed16(bg.pa[a]) * x)
    &&& fits_i32(signed16(bg.pb[a]) * y)
    &&& fits_i32(signed16(bg.pa[a]) * x + signed16(bg.pb[a]) * y)
    &&& fits_i32(signed16(bg.pa[a]) * x + signed16(bg.pb[a]) * y + signed28(bg.x[a]))
    &&& fits_i32(signed16(bg.pc[a]) * x)
    &&& fits_i32(signed16(bg.pd[a]) * y)
    &&& fits_i32(signed16(bg.pc[a]) * x + signed16(bg.pd[a]) * y)
    &&& fits_i32(signed16(bg.pc[a]) * x + signed16(bg.pd[a]) * y + signed28(bg.y[a]))
}

/// On the screen the transformation always fits.
pub proof fn lemma_screen_fits(bg: BgState, idx: int, x: int, y: int)
    requires
        0 <= x < 240,
        0 <= y < 160,
    ensures
        affine_fits(bg, idx, x, y),
{
    let a = idx - 2;
    lemma_screen_product(bg.pa[a], x);
    lemma_screen_product(bg.pb[a], y);
    lemma_screen_product(bg.pc[a], x);
    lemma_screen_product(bg.pd[a], y);
}

proof fn lemma_screen_product(raw: u16, v: int)
    requires
        0 <= v < 240,
    ensures
        -0x80_0000 <= signed16(raw) * v <= 0x80_0000,
{
    let p = signed16(raw);
    assert(-0x80_0000 <= p * v <= 0x80_0000) by (nonlinear_arith)
        requires
            -0x8000 <= p <= 0x7FFF,
            0 <= v < 240,
    ;
}

/// Samples an affine background at a pixel of the screen.
pub fn sample_affine_bg(
    bg: &BgRegisters,
    idx: usize,
    screen_x: usize,
    screen_y: usize,
    vram: &[u8],
    pram: &[u8],
) -> (r: Option<u16>)
    requires
        idx == 2 || idx == 3,
        affine_fits(bg@, idx as int, screen_x as int, screen_y as int),
    ensures
        r == affine_sample(bg@, idx as int, screen_x as int, screen_y as int, vram@, pram@),
{
    let a: usize = idx - 2;
    let cnt: u16 = bg.cnt[idx];
    let x: i64 = screen_x as i64;
    let y: i64 = screen_y as i64;
    let pa: i64 = signed16_value(bg.pa[a]);
    let pb: i64 = signed16_value(bg.pb[a]);
    let pc: i64 = signed16_value(bg.pc[a]);
    let pd: i64 = signed16_value(bg.pd[a]);
    let tx: i64 = floor_256(pa * x + pb * y + sign_extend_28(bg.x[a]));
    let ty: i64 = floor_256(pc * x + pd * y + sign_extend_28(bg.y[a]));
    let size: i64 = affine_size(cnt);
    let wrap: bool = bit16(cnt, 13);
    let ix: usize = match wrap_within(tx, size, wrap) {
        Some(c) => c,
        None => {
            return None;
        },
    };
    let iy: usize = match wrap_within(ty, size, wrap) {
        Some(c) => c,
        None => {
            return None;
        },
    };
    let map: usize = ((cnt >> 8) % 32) as usize * SCREEN_BLOCK_BYTES;
    let across: usize = (size / 8) as usize;
    assert(0 <= (iy / 8) * across <= 128 * 128) by (nonlinear_arith)
        requires
            0 <= iy < 1024,
            0 <= across <= 128,
    ;
    let tile: usize = read_at(vram, map + iy / 8 * across + ix / 8) as usize;
    let tiles: usize = ((cnt >> 2) % 4) as usize * CHAR_BLOCK_BYTES;
    let index: u8 = read_at(vram, tiles + tile * 64 + iy % 8 * 8 + ix % 8);
    if index == 0 {
        return None;
    }
    Some(read_u16_at(pram, index as usize * 2))
}

/// Whether video mode `mode` has background `idx`, with or without an affine
/// transformation.
pub open spec fn mode_has_bg(mode: u16, idx: int) -> bool {
    if mode == 0 {
        true
    } else if mode == 1 {
        idx < 3
    } else {
        idx >= 2
    }
}

/// Whether background `idx` is affine in video mode `mode`.
pub open spec fn bg_is_affine(mode: u16, idx: int) -> bool {
    mode != 0 && idx >= 2
}

/// The colour of background `idx` in a tiled mode, if it is shown and not
/// transparent there.
pub open spec fn tiled_sample(
    bg: BgState,
    mode: u16,
    dispcnt: u16,
    idx: int,
    x: int,
    y: int,
    vram: Seq<u8>,
    pram: Seq<u8>,
) -> Option<u16> {
    if !mode_has_bg(mode, idx) || !bit16(dispcnt, (8 + idx) as u16) {
        None
    } else if bg_is_affine(mode, idx) {
        affine_sample(bg, idx, x, y, vram, pram)
    } else {
        text_sample(bg.cnt[idx], bg.hofs[idx], bg.vofs[idx], x, y, vram, pram)
    }
}

/// The frontmost background pixel among those at rank `rank` and behind. Ranks
/// go by priority, then by background number.
pub open spec fn tiled_pixel(
    bg: BgState,
    mode: u16,
    dispcnt: u16,
    x: int,
    y: int,
    vram: Seq<u8>,
    pram: Seq<u8>,
    rank: int,
) -> LayerPixel
    decreases 16 - rank,
{
    if rank < 0 || rank >= 16 {
        None
    } else {
        let priority = rank / 4;
        let idx = rank % 4;
        match tiled_sample(bg, mode, dispcnt, idx, x, y, vram, pram) {
            Some(color) => if bg.cnt[idx] % 4 == priority {
                Some((color, priority as u8))
            } else {
                tiled_pixel(bg, mode, dispcnt, x, y, vram, pram, rank + 1)
            },
            None => tiled_pixel(bg, mode, dispcnt, x, y, vram, pram, rank + 1),
        }
    }
}

/// A background that shows something at a pixel is never lost behind nothing or
/// behind a background of a higher priority number.
pub proof fn law_frontmost_background_wins(
    bg: BgState,
    mode: u16,
    dispcnt: u16,
    x: int,
    y: int,
    vram: Seq<u8>,
    pram: Seq<u8>,
    idx: int,
)
    requires
        0 <= idx < 4,
        tiled_sample(bg, mode, dispcnt, idx, x, y, vram, pram) is Some,
    ensures
        match tiled_pixel(bg, mode, dispcnt, x, y, vram, pram, 0) {
            Some((_, priority)) => priority <= bg.cnt[idx] % 4,
            None => false,
        },
{
    lemma_tiled_pixel_is_frontmost(bg, mode, dispcnt, x, y, vram, pram, idx, 0);
}

proof fn lemma_tiled_pixel_is_frontmost(
    bg: BgState,
    mode: u16,
    dispcnt: u16,
    x: int,
    y: int,
    vram: Seq<u8>,
    pram: Seq<u8>,
    idx: int,
    rank: int,
)
    requires
        0 <= idx < 4,
        0 <= rank <= bg.cnt[idx] % 4 * 4 + idx,
        tiled_sample(bg, mode, dispcnt, idx, x, y, vram, pram) is Some,
    ensures
        match tiled_pixel(bg, mode, dispcnt, x, y, vram, pram, rank) {
            Some((_, priority)) => priority <= bg.cnt[idx] % 4,
            None => false,
        },
    decreases 16 - rank,
{
    let own = bg.cnt[idx] % 4 * 4 + idx;
    if rank < own {
        lemma_tiled_pixel_is_frontmost(bg, mode, dispcnt, x, y, vram, pram, idx, rank + 1);
    }
}

/// Whether a position can be sampled in every background of a tiled mode.
pub open spec fn tiled_fits(bg: BgState, mode: u16, x: int, y: int) -> bool {
    forall|idx: int|
        0 <= idx < 4 && #[trigger] mode_has_bg(mode, idx) ==> if bg_is_affine(mode, idx) {
            affine_fits(bg, idx, x, y)
        } else {
            x + bg.hofs[idx] <= usize::MAX && y + bg.vofs[idx] <= usize::MAX
        }
}

/// The background pixel of a tiled mode.
pub fn tiled_bg_pixel(
    bg: &BgRegisters,
    mode: u16,
    dispcnt: u16,
    x: usize,
    y: usize,
    vram: &[u8],
    pram: &[u8],
) -> (r: LayerPixel)
    requires
        mode <= 2,
        tiled_fits(bg@, mode, x as int, y as int),
    ensures
        r == tiled_pixel(bg@, mode, dispcnt, x as int, y as int, vram@, pram@, 0),
{
    let mut rank: usize = 0;
    while rank < 16
        invariant
            rank <= 16,
            mode <= 2,
            tiled_fits(bg@, mode, x as int, y as int),
            tiled_pixel(bg@, mode, dispcnt, x as int, y as int, vram@, pram@, rank as int) == tiled_pixel(
                bg@,
                mode,
                dispcnt,
                x as int,
                y as int,
                vram@,
                pram@,
                0,
            ),
        decreases 16 - rank,
    {
        let priority: usize = rank / 4;
        let idx: usize = rank % 4;
        let present: bool = mode == 0 || (mode == 1 && idx < 3) || (mode == 2 && idx >= 2);
        if present && bit16(dispcnt, 8 + idx as u16) && (bg.cnt[idx] % 4) as usize == priority {
            assert(mode_has_bg(mode, idx as int));
            let sample: Option<u16> = if mode != 0 && idx >= 2 {
                sample_affine_bg(bg, idx, x, y, vram, pram)
            } else {
                sample_text_bg(bg.cnt[idx], bg.hofs[idx], bg.vofs[idx], x, y, vram, pram)
            };
            if let Some(color) = sample {
                return Some((color, priority as u8));
            }
        }
        rank = rank + 1;
    }
    None
}

/// Where the shown frame of a double-buffered bitmap starts.
#[verifier::allow_in_spec]
pub fn frame_base(dispcnt: u16) -> usize
    returns
        (if bit16(dispcnt, 4) {
            FRAME_BYTES
        } else {
            0usize
        }),
{
    if bit16(dispcnt, 4) {
        FRAME_BYTES
    } else {
        0
    }
}

/// The background pixel of the bitmap modes 3, 4 and 5, which has the priority
/// of background 2. Mode 3 has direct colours, mode 4 palette colours of which
/// the first is transparent, mode 5 direct colours in a smaller frame.
pub open spec fn bitmap_pixel(
    cnt2: u16,
    mode: u16,
    dispcnt: u16,
    x: int,
    y: int,
    vram: Seq<u8>,
    pram: Seq<u8>,
) -> LayerPixel {
    let priority = (cnt2 % 4) as u8;
    if mode == 3 {
        Some((crate::ppu_color::half_at(vram, (y * 240 + x) * 2), priority))
    } else if mode == 4 {
        let index = crate::bus::byte_at(vram, frame_base(dispcnt) + y * 240 + x);
        if index == 0 {
            None
        } else {
            Some((crate::ppu_color::half_at(pram, index * 2), priority))
        }
    } else if x < MODE5_WIDTH && y < MODE5_HEIGHT {
        Some(
            (
                crate::ppu_color::half_at(vram, frame_base(dispcnt) + (y * 160 + x) * 2),
                priority,
            ),
        )
    } else {
        None
    }
}

/// The background pixel of a bitmap mode.
pub fn bitmap_bg_pixel(
    cnt2: u16,
    mode: u16,
    dispcnt: u16,
    x: usize,
    y: usize,
    vram: &[u8],
    pram: &[u8],
) -> (r: LayerPixel)
    requires
        3 <= mode <= 5,
        mode == 3 ==> (y * 240 + x) * 2 < usize::MAX,
        mode == 4 ==> frame_base(dispcnt) + y * 240 + x <= usize::MAX,
    ensures
        r == bitmap_pixel(cnt2, mode, dispcnt, x as int, y as int, vram@, pram@),
{
    let priority: u8 = (cnt2 % 4) as u8;
    if mode == 3 {
        Some((read_u16_at(vram, (y * 240 + x) * 2), priority))
    } else if mode == 4 {
        let index: u8 = read_at(vram, frame_base(dispcnt) + y * 240 + x);
        if index == 0 {
            None
        } else {
            Some((read_u16_at(pram, index as usize * 2), priority))
        }
    } else if x < MODE5_WIDTH && y < MODE5_HEIGHT {
        Some((read_u16_at(vram, frame_base(dispcnt) + (y * 160 + x) * 2), priority))
    } else {
        None
    }
}

} // verus!

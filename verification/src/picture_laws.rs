//! What the picture shows, from the bytes of video memory and the registers to
//! the colour of a pixel.

use vstd::prelude::*;

use crate::ppu_bg::BgState;
use crate::ppu_color::{LayerPixel, VideoMemory};

verus! {

/// The halfword of a memory at `at`, lowest byte first.
pub open spec fn half(mem: Seq<u8>, at: int) -> int {
    mem[at] + 0x100 * mem[at + 1]
}

/// Bytes of video RAM.
pub open spec fn is_video_ram(vram: Seq<u8>) -> bool {
    vram.len() == 0x1_8000
}

/// Bytes of palette RAM: 256 colours for backgrounds, then 256 for sprites.
pub open spec fn is_palette_ram(pram: Seq<u8>) -> bool {
    pram.len() == 0x400
}

/// The width of a text background in pixels.
pub open spec fn text_width(bgcnt: u16) -> int {
    if bgcnt / 0x4000 % 2 == 1 {
        512
    } else {
        256
    }
}

/// The height of a text background in pixels.
pub open spec fn text_height(bgcnt: u16) -> int {
    if bgcnt / 0x4000 >= 2 {
        512
    } else {
        256
    }
}

/// Where the map entry for the point (`x`, `y`) of a text background lies: the
/// map is made of parts of 256 by 256 pixels, the one to the right before the
/// ones below, and each part has 32 rows of 32 entries of two bytes.
pub open spec fn entry_at(bgcnt: u16, x: int, y: int) -> int {
    let right = x / 256;
    let below = if text_width(bgcnt) == 512 {
        y / 256 * 2
    } else {
        y / 256
    };
    (bgcnt / 0x100 % 32 + right + below) * 0x800 + y % 256 / 8 * 64 + x % 256 / 8 * 2
}

/// A coordinate within a tile, counted from the other side where the map entry
/// mirrors the tile.
pub open spec fn in_tile(v: int, mirror: bool) -> int {
    if mirror {
        7 - v % 8
    } else {
        v % 8
    }
}

/// The colour number of a point in a tile of 16 colours: half a byte, the low
/// half on the left. Four bytes make a row. Beyond video RAM it is zero.
pub open spec fn small_index(vram: Seq<u8>, tile: int, px: int, py: int) -> int {
    let at = tile + py * 4 + px / 2;
    if at >= vram.len() {
        0
    } else if px % 2 == 0 {
        vram[at] as int % 16
    } else {
        vram[at] as int / 16
    }
}

/// The colour number of a point in a tile of 256 colours: a byte. Eight bytes
/// make a row. Beyond video RAM it is zero.
pub open spec fn large_index(vram: Seq<u8>, tile: int, px: int, py: int) -> int {
    let at = tile + py * 8 + px;
    if at >= vram.len() {
        0
    } else {
        vram[at] as int
    }
}

/// A text background of 16 colours: the point under a pixel, after scrolling,
/// belongs to a map entry whose ten low bits name a tile, whose bits 10 and 11
/// mirror it, and whose four top bits `p` choose a palette. A tile point with
/// number `i` shows the palette RAM halfword at byte `(16 * p + i) * 2` and no
/// other, or nothing where `i` is zero.
pub proof fn law_text_background_of_16_colors(
    bgcnt: u16,
    hofs: u16,
    vofs: u16,
    x: int,
    y: int,
    vram: Seq<u8>,
    pram: Seq<u8>,
)
    requires
        is_video_ram(vram),
        is_palette_ram(pram),
        0 <= x,
        0 <= y,
        bgcnt / 0x80 % 2 == 0,
    ensures
        ({
            let bx = (x + hofs) % text_width(bgcnt);
            let by = (y + vofs) % text_height(bgcnt);
            let entry = half(vram, entry_at(bgcnt, bx, by));
            let p = entry / 0x1000;
            let i = small_index(
                vram,
                bgcnt / 4 % 4 * 0x4000 + entry % 0x400 * 32,
                in_tile(bx, entry / 0x400 % 2 == 1),
                in_tile(by, entry / 0x800 % 2 == 1),
            );
            let shown = crate::ppu_bg::text_sample(bgcnt, hofs, vofs, x, y, vram, pram);
            &&& i == 0 ==> shown is None
            &&& i != 0 ==> shown is Some && shown->0 == half(pram, (16 * p + i) * 2)
        }),
{
    lemma_text_entry(bgcnt, hofs, vofs, x, y, vram, pram);
}

/// A text background of 256 colours: the number of a tile point is the number
/// of its colour, and zero shows nothing.
pub proof fn law_text_background_of_256_colors(
    bgcnt: u16,
    hofs: u16,
    vofs: u16,
    x: int,
    y: int,
    vram: Seq<u8>,
    pram: Seq<u8>,
)
    requires
        is_video_ram(vram),
        is_palette_ram(pram),
        0 <= x,
        0 <= y,
        bgcnt / 0x80 % 2 == 1,
    ensures
        ({
            let bx = (x + hofs) % text_width(bgcnt);
            let by = (y + vofs) % text_height(bgcnt);
            let entry = half(vram, entry_at(bgcnt, bx, by));
            let i = large_index(
                vram,
                bgcnt / 4 % 4 * 0x4000 + entry % 0x400 * 64,
                in_tile(bx, entry / 0x400 % 2 == 1),
                in_tile(by, entry / 0x800 % 2 == 1),
            );
            let shown = crate::ppu_bg::text_sample(bgcnt, hofs, vofs, x, y, vram, pram);
            &&& i == 0 ==> shown is None
            &&& i != 0 ==> shown is Some && shown->0 == half(pram, i * 2)
        }),
{
    lemma_text_entry(bgcnt, hofs, vofs, x, y, vram, pram);
}

/// Changing one palette colour changes what a text background of 16 colours
/// shows where its number is used, to the new colour, and nowhere else.
pub proof fn law_palette_entry_shows(
    bgcnt: u16,
    hofs: u16,
    vofs: u16,
    x: int,
    y: int,
    vram: Seq<u8>,
    pram: Seq<u8>,
    other: Seq<u8>,
)
    requires
        is_video_ram(vram),
        is_palette_ram(pram),
        is_palette_ram(other),
        0 <= x,
        0 <= y,
        bgcnt / 0x80 % 2 == 0,
    ensures
        ({
            let bx = (x + hofs) % text_width(bgcnt);
            let by = (y + vofs) % text_height(bgcnt);
            let entry = half(vram, entry_at(bgcnt, bx, by));
            let i = small_index(
                vram,
                bgcnt / 4 % 4 * 0x4000 + entry % 0x400 * 32,
                in_tile(bx, entry / 0x400 % 2 == 1),
                in_tile(by, entry / 0x800 % 2 == 1),
            );
            let at = (16 * (entry / 0x1000) + i) * 2;
            let one = crate::ppu_bg::text_sample(bgcnt, hofs, vofs, x, y, vram, pram);
            let two = crate::ppu_bg::text_sample(bgcnt, hofs, vofs, x, y, vram, other);
            i != 0 ==> (one == two <==> half(pram, at) == half(other, at))
        }),
{
    law_text_background_of_16_colors(bgcnt, hofs, vofs, x, y, vram, pram);
    law_text_background_of_16_colors(bgcnt, hofs, vofs, x, y, vram, other);
}

/// The map entry of a pixel, read with the fields of the control register.
proof fn lemma_text_entry(
    bgcnt: u16,
    hofs: u16,
    vofs: u16,
    x: int,
    y: int,
    vram: Seq<u8>,
    pram: Seq<u8>,
)
    requires
        is_video_ram(vram),
        is_palette_ram(pram),
        0 <= x,
        0 <= y,
    ensures
        ({
            let bx = (x + hofs) % text_width(bgcnt);
            let by = (y + vofs) % text_height(bgcnt);
            let entry = half(vram, entry_at(bgcnt, bx, by));
            let px = in_tile(bx, entry / 0x400 % 2 == 1);
            let py = in_tile(by, entry / 0x800 % 2 == 1);
            let tiles = bgcnt / 4 % 4 * 0x4000;
            let small = small_index(vram, tiles + entry % 0x400 * 32, px, py);
            let large = large_index(vram, tiles + entry % 0x400 * 64, px, py);
            let i = if bgcnt / 0x80 % 2 == 0 {
                small
            } else {
                large
            };
            let color = if bgcnt / 0x80 % 2 == 0 {
                16 * (entry / 0x1000) + small
            } else {
                large
            };
            let shown = crate::ppu_bg::text_sample(bgcnt, hofs, vofs, x, y, vram, pram);
            &&& i == 0 ==> shown is None
            &&& i != 0 ==> shown is Some && shown->0 == half(pram, color * 2)
        }),
{
    let bx = (x + hofs) % text_width(bgcnt);
    let by = (y + vofs) % text_height(bgcnt);
    lemma_text_size(bgcnt, x + hofs, y + vofs);
    let at = entry_at(bgcnt, bx, by);
    assert(0 <= at < 0x1_7FFF);
    let entry = half(vram, at) as u16;
    assert(crate::ppu_color::half_at(vram, at) == entry);
    lemma_text_point(bgcnt, bx, by, vram, pram, entry);
}

proof fn lemma_text_size(bgcnt: u16, x: int, y: int)
    requires
        0 <= x,
        0 <= y,
    ensures
        ({
            let (width, height) = crate::ppu_bg::bg_size_tiles(bgcnt);
            let bx = x % text_width(bgcnt);
            let by = y % text_height(bgcnt);
            &&& crate::ppu_bg::wrapped_at(x, width) == bx
            &&& crate::ppu_bg::wrapped_at(y, height) == by
            &&& (bgcnt >> 8) % 32 * 0x800 + crate::ppu_bg::map_entry(
                bx / 8,
                by / 8,
                width as int,
            ) * 2 == entry_at(bgcnt, bx, by)
            &&& 0 <= entry_at(bgcnt, bx, by) < 0x1_7FFF
        }),
{
    crate::encoding::lemma_register_digits(bgcnt);
    let bx = x % text_width(bgcnt);
    let by = y % text_height(bgcnt);
    let row = by / 8;
    let column = bx / 8;
    assert(bx / 256 == column / 32 && by / 256 == row / 32);
    assert(bx % 256 / 8 == column % 32 && by % 256 / 8 == row % 32);
    assert(row / 32 * (32int / 32) == row / 32);
    assert(row / 32 * (64int / 32) == row / 32 * 2);
}

proof fn lemma_text_point(
    bgcnt: u16,
    bx: int,
    by: int,
    vram: Seq<u8>,
    pram: Seq<u8>,
    entry: u16,
)
    requires
        is_video_ram(vram),
        is_palette_ram(pram),
        0 <= bx,
        0 <= by,
        entry == crate::ppu_color::half_at(
            vram,
            (bgcnt >> 8) % 32 * 0x800 + crate::ppu_bg::map_entry(
                bx / 8,
                by / 8,
                crate::ppu_bg::bg_size_tiles(bgcnt).0 as int,
            ) * 2,
        ),
    ensures
        ({
            let px = in_tile(bx, entry / 0x400 % 2 == 1);
            let py = in_tile(by, entry / 0x800 % 2 == 1);
            let tiles = bgcnt / 4 % 4 * 0x4000;
            let small = small_index(vram, tiles + entry % 0x400 * 32, px, py);
            let large = large_index(vram, tiles + entry % 0x400 * 64, px, py);
            let i = if bgcnt / 0x80 % 2 == 0 {
                small
            } else {
                large
            };
            let color = if bgcnt / 0x80 % 2 == 0 {
                16 * (entry / 0x1000) + small
            } else {
                large
            };
            let shown = crate::ppu_bg::text_point(bgcnt, bx, by, vram, pram);
            &&& i == 0 ==> shown is None
            &&& i != 0 ==> shown is Some && shown->0 == half(pram, color * 2)
        }),
{
    reveal(crate::ppu_bg::text_point);
    assert(crate::bits::bit16(entry, 10) == (entry / 0x400 % 2 == 1) && crate::bits::bit16(
        entry,
        11,
    ) == (entry / 0x800 % 2 == 1)) by {
        crate::encoding::lemma_register_digits(entry);
    }
    assert(crate::bits::bit16(bgcnt, 7) == (bgcnt / 0x80 % 2 == 1) && (bgcnt >> 2) % 4 == bgcnt / 4
        % 4) by {
        crate::encoding::lemma_register_digits(bgcnt);
    }
}

/// A halfword as a number in two's complement.
pub open spec fn signed_half(raw: int) -> int {
    if raw >= 0x8000 {
        raw - 0x1_0000
    } else {
        raw
    }
}

/// The low 28 bits of a word as a number in two's complement.
pub open spec fn signed_28(raw: u32) -> int {
    if raw % 0x1000_0000 >= 0x800_0000 {
        raw % 0x1000_0000 - 0x1000_0000
    } else {
        (raw % 0x1000_0000) as int
    }
}

/// The side of an affine background in pixels: 128, 256, 512 or 1024.
pub open spec fn affine_side(bgcnt: u16) -> int {
    if bgcnt / 0x4000 == 0 {
        128
    } else if bgcnt / 0x4000 == 1 {
        256
    } else if bgcnt / 0x4000 == 2 {
        512
    } else {
        1024
    }
}

/// An affine background: the pixel goes through the matrix, from the reference
/// point, in units of 1/256, to a point of the background. Outside of it there
/// is nothing, unless bit 13 of its control asks to repeat it. The map has one
/// byte per tile and as many columns as the side has tiles; tiles have 256
/// colours, and number zero shows nothing.
#[verifier::spinoff_prover]
pub proof fn law_affine_background(
    bg: BgState,
    idx: int,
    x: int,
    y: int,
    vram: Seq<u8>,
    pram: Seq<u8>,
)
    requires
        idx == 2 || idx == 3,
        is_video_ram(vram),
        is_palette_ram(pram),
    ensures
        ({
            let a = idx - 2;
            let cnt = bg.cnt[idx];
            let side = affine_side(cnt);
            let tx = (signed_half(bg.pa[a] as int) * x + signed_half(bg.pb[a] as int) * y
                + signed_28(bg.x[a])) / 256;
            let ty = (signed_half(bg.pc[a] as int) * x + signed_half(bg.pd[a] as int) * y
                + signed_28(bg.y[a])) / 256;
            let repeated = cnt / 0x2000 % 2 == 1;
            let inside = 0 <= tx < side && 0 <= ty < side;
            let ix = tx % side;
            let iy = ty % side;
            let tile = vram[cnt / 0x100 % 32 * 0x800 + iy / 8 * (side / 8) + ix / 8];
            let i = large_index(vram, cnt / 4 % 4 * 0x4000 + tile * 64, ix % 8, iy % 8);
            let shown = crate::ppu_bg::affine_sample(bg, idx, x, y, vram, pram);
            &&& !inside && !repeated ==> shown is None
            &&& (inside || repeated) && i == 0 ==> shown is None
            &&& (inside || repeated) && i != 0 ==> shown is Some && shown->0 == half(pram, i * 2)
        }),
{
    let a = idx - 2;
    let cnt = bg.cnt[idx];
    let side = affine_side(cnt);
    lemma_affine_control(cnt);
    let tx = (signed_half(bg.pa[a] as int) * x + signed_half(bg.pb[a] as int) * y + signed_28(
        bg.x[a],
    )) / 256;
    let ty = (signed_half(bg.pc[a] as int) * x + signed_half(bg.pd[a] as int) * y + signed_28(
        bg.y[a],
    )) / 256;
    assert(crate::ppu_bg::signed16(bg.pa[a]) == signed_half(bg.pa[a] as int));
    assert(crate::ppu_bg::signed16(bg.pb[a]) == signed_half(bg.pb[a] as int));
    assert(crate::ppu_bg::signed16(bg.pc[a]) == signed_half(bg.pc[a] as int));
    assert(crate::ppu_bg::signed16(bg.pd[a]) == signed_half(bg.pd[a] as int));
    let ix = tx % side;
    let iy = ty % side;
    assert(0 <= ix < side && 0 <= iy < side);
    if 0 <= tx < side {
        assert(ix == tx);
    }
    if 0 <= ty < side {
        assert(iy == ty);
    }
    let map = cnt / 0x100 % 32 * 0x800;
    assert(0 <= iy / 8 * (side / 8) <= 127 * 128) by (nonlinear_arith)
        requires
            0 <= iy / 8 <= 127,
            0 <= side / 8 <= 128,
    ;
    assert(0 <= map + iy / 8 * (side / 8) + ix / 8 < 0x1_8000);
}

proof fn lemma_affine_control(cnt: u16)
    ensures
        crate::ppu_bg::affine_size(cnt) == affine_side(cnt),
        crate::bits::bit16(cnt, 13) == (cnt / 0x2000 % 2 == 1),
        (cnt >> 8) % 32 == cnt / 0x100 % 32,
        (cnt >> 2) % 4 == cnt / 4 % 4,
        affine_side(cnt) == 128 || affine_side(cnt) == 256 || affine_side(cnt) == 512
            || affine_side(cnt) == 1024,
{
    crate::encoding::lemma_register_digits(cnt);
}

/// An affine background with the unit matrix and the reference point at the
/// origin shows itself: the point under a pixel is the pixel.
pub proof fn law_unit_matrix_shows_the_background(
    bg: BgState,
    idx: int,
    x: int,
    y: int,
    vram: Seq<u8>,
    pram: Seq<u8>,
)
    requires
        idx == 2 || idx == 3,
        is_video_ram(vram),
        is_palette_ram(pram),
        bg.pa[idx - 2] == 0x100,
        bg.pb[idx - 2] == 0,
        bg.pc[idx - 2] == 0,
        bg.pd[idx - 2] == 0x100,
        bg.x[idx - 2] == 0,
        bg.y[idx - 2] == 0,
        0 <= x < affine_side(bg.cnt[idx]),
        0 <= y < affine_side(bg.cnt[idx]),
    ensures
        ({
            let cnt = bg.cnt[idx];
            let side = affine_side(cnt);
            let tile = vram[cnt / 0x100 % 32 * 0x800 + y / 8 * (side / 8) + x / 8];
            let i = large_index(vram, cnt / 4 % 4 * 0x4000 + tile * 64, x % 8, y % 8);
            let shown = crate::ppu_bg::affine_sample(bg, idx, x, y, vram, pram);
            &&& i == 0 ==> shown is None
            &&& i != 0 ==> shown is Some && shown->0 == half(pram, i * 2)
        }),
{
    law_affine_background(bg, idx, x, y, vram, pram);
    let zero = signed_half(bg.pb[idx - 2] as int);
    let one = signed_half(bg.pa[idx - 2] as int);
    assert(zero * y == 0 && zero * x == 0 && one * x == 256 * x && one * y == 256 * y)
        by (nonlinear_arith)
        requires
            zero == 0,
            one == 256,
    ;
    assert((256 * x + 0 + 0) / 256 == x && (0 + 256 * y + 0) / 256 == y);
    let side = affine_side(bg.cnt[idx]);
    vstd::arithmetic::div_mod::lemma_small_mod(x as nat, side as nat);
    vstd::arithmetic::div_mod::lemma_small_mod(y as nat, side as nat);
}

/// The bitmaps: mode 3 shows one colour of two bytes per pixel, 240 to a line;
/// mode 4 one palette number per pixel, where zero shows nothing; mode 5 one
/// colour per pixel, 160 to a line and 128 lines, with nothing around. Bit 4 of
/// the display control chooses the second frame in modes 4 and 5. All have the
/// priority of background 2.
pub proof fn law_bitmaps(cnt2: u16, dispcnt: u16, x: int, y: int, vram: Seq<u8>, pram: Seq<u8>)
    requires
        is_video_ram(vram),
        is_palette_ram(pram),
        0 <= x < 240,
        0 <= y < 160,
    ensures
        ({
            let frame = dispcnt / 0x10 % 2 * 0xA000;
            let three = crate::ppu_bg::bitmap_pixel(cnt2, 3, dispcnt, x, y, vram, pram);
            let four = crate::ppu_bg::bitmap_pixel(cnt2, 4, dispcnt, x, y, vram, pram);
            let five = crate::ppu_bg::bitmap_pixel(cnt2, 5, dispcnt, x, y, vram, pram);
            let index = vram[frame + y * 240 + x];
            &&& shows(three, half(vram, (y * 240 + x) * 2), cnt2 as int % 4)
            &&& index == 0 ==> four is None
            &&& index != 0 ==> shows(four, half(pram, index * 2), cnt2 as int % 4)
            &&& x < 160 && y < 128 ==> shows(
                five,
                half(vram, frame + (y * 160 + x) * 2),
                cnt2 as int % 4,
            )
            &&& x >= 160 || y >= 128 ==> five is None
        }),
{
    crate::encoding::lemma_register_digits(dispcnt);
    assert(0 <= y * 240 + x < 38400);
    assert(0 <= y * 160 + x);
}

/// Whether a layer shows this colour with this priority.
pub open spec fn shows(pixel: LayerPixel, color: int, priority: int) -> bool {
    match pixel {
        Some((c, p)) => c == color && p == priority,
        None => false,
    }
}

/// Which backgrounds a tiled mode has: all four as text in mode 0, 0 and 1 as
/// text and 2 affine in mode 1, 2 and 3 affine in mode 2. Bits 8 to 11 of the
/// display control show them.
pub proof fn law_tiled_modes(
    bg: BgState,
    mode: u16,
    dispcnt: u16,
    idx: int,
    x: int,
    y: int,
    vram: Seq<u8>,
    pram: Seq<u8>,
)
    requires
        mode <= 2,
        0 <= idx < 4,
    ensures
        ({
            let enabled = if idx == 0 {
                dispcnt / 0x100 % 2 == 1
            } else if idx == 1 {
                dispcnt / 0x200 % 2 == 1
            } else if idx == 2 {
                dispcnt / 0x400 % 2 == 1
            } else {
                dispcnt / 0x800 % 2 == 1
            };
            let text = mode == 0 || mode == 1 && idx < 2;
            let affine = mode == 1 && idx == 2 || mode == 2 && idx >= 2;
            crate::ppu_bg::tiled_sample(bg, mode, dispcnt, idx, x, y, vram, pram) == if enabled
                && text {
                crate::ppu_bg::text_sample(
                    bg.cnt[idx],
                    bg.hofs[idx],
                    bg.vofs[idx],
                    x,
                    y,
                    vram,
                    pram,
                )
            } else if enabled && affine {
                crate::ppu_bg::affine_sample(bg, idx, x, y, vram, pram)
            } else {
                None
            }
        }),
{
    crate::encoding::lemma_register_digits(dispcnt);
}

/// The background pixel of a tiled mode is one that a background shows there,
/// with the priority of that background; no other background that shows
/// something has a lower priority number, nor the same and a lower number. It is
/// transparent only where all of them are.
#[verifier::spinoff_prover]
pub proof fn law_background_order(
    bg: BgState,
    mode: u16,
    dispcnt: u16,
    x: int,
    y: int,
    vram: Seq<u8>,
    pram: Seq<u8>,
)
    ensures
        ({
            let shown = |i: int|
                crate::ppu_bg::tiled_sample(bg, mode, dispcnt, i, x, y, vram, pram);
            let front = |i: int, j: int|
                bg.cnt[i] as int % 4 < bg.cnt[j] as int % 4 || bg.cnt[i] as int % 4 == bg.cnt[j]
                    as int % 4 && i <= j;
            match crate::ppu_bg::tiled_pixel(bg, mode, dispcnt, x, y, vram, pram, 0) {
                Some((color, priority)) => exists|i: int|
                    #![trigger bg.cnt[i]]
                    0 <= i < 4 && shown(i) == Some(color) && bg.cnt[i] % 4 == priority && forall|
                        j: int,
                    | #![trigger bg.cnt[j]]
                        0 <= j < 4 && shown(j) is Some ==> front(i, j),
                None => forall|j: int| #![trigger bg.cnt[j]] 0 <= j < 4 ==> shown(j) is None,
            }
        }),
{
    lemma_background_order(bg, mode, dispcnt, x, y, vram, pram, 0);
}

proof fn lemma_background_order(
    bg: BgState,
    mode: u16,
    dispcnt: u16,
    x: int,
    y: int,
    vram: Seq<u8>,
    pram: Seq<u8>,
    rank: int,
)
    requires
        0 <= rank <= 16,
        forall|j: int|
            #![trigger bg.cnt[j]]
            0 <= j < 4 && bg.cnt[j] % 4 * 4 + j < rank ==> crate::ppu_bg::tiled_sample(
                bg,
                mode,
                dispcnt,
                j,
                x,
                y,
                vram,
                pram,
            ) is None,
    ensures
        ({
            let shown = |i: int|
                crate::ppu_bg::tiled_sample(bg, mode, dispcnt, i, x, y, vram, pram);
            match crate::ppu_bg::tiled_pixel(bg, mode, dispcnt, x, y, vram, pram, rank) {
                Some((color, priority)) => exists|i: int|
                    #![trigger bg.cnt[i]]
                    0 <= i < 4 && shown(i) == Some(color) && bg.cnt[i] % 4 == priority && forall|
                        j: int,
                    | #![trigger bg.cnt[j]]
                        0 <= j < 4 && shown(j) is Some ==> bg.cnt[i] % 4 * 4 + i <= bg.cnt[j] % 4
                            * 4 + j,
                None => forall|j: int| #![trigger bg.cnt[j]] 0 <= j < 4 ==> shown(j) is None,
            }
        }),
    decreases 16 - rank,
{
    if rank < 16 {
        let i = rank % 4;
        let here = crate::ppu_bg::tiled_sample(bg, mode, dispcnt, i, x, y, vram, pram);
        if here is Some && bg.cnt[i] % 4 == rank / 4 {
            assert(bg.cnt[i] % 4 * 4 + i == rank);
        } else {
            assert forall|j: int|
                #![trigger bg.cnt[j]]
                0 <= j < 4 && bg.cnt[j] % 4 * 4 + j < rank + 1 implies crate::ppu_bg::tiled_sample(
                bg,
                mode,
                dispcnt,
                j,
                x,
                y,
                vram,
                pram,
            ) is None by {
                if bg.cnt[j] % 4 * 4 + j == rank {
                    assert(j == i);
                }
            }
            lemma_background_order(bg, mode, dispcnt, x, y, vram, pram, rank + 1);
        }
    }
}

/// The width of a sprite in pixels, from its shape (square, wide, tall) and size.
pub open spec fn sprite_width(shape: int, size: int) -> int {
    if shape == 0 {
        if size == 0 {
            8
        } else if size == 1 {
            16
        } else if size == 2 {
            32
        } else {
            64
        }
    } else if shape == 1 {
        if size == 0 {
            16
        } else if size == 3 {
            64
        } else {
            32
        }
    } else if shape == 2 {
        if size <= 1 {
            8
        } else if size == 2 {
            16
        } else {
            32
        }
    } else {
        8
    }
}

/// The height of a sprite: a tall sprite is a wide one turned.
pub open spec fn sprite_height(shape: int, size: int) -> int {
    if shape == 1 {
        sprite_width(2, size)
    } else if shape == 2 {
        sprite_width(1, size)
    } else {
        sprite_width(shape, size)
    }
}

/// Where the byte for the point (`sx`, `sy`) of a sprite lies. Its tiles start
/// at 0x10000, 32 bytes to a number; a tile of 256 colours takes two numbers.
/// Either the tiles of a sprite follow each other (`one_d`), or each row of
/// tiles starts 32 numbers after the row above.
pub open spec fn sprite_byte_at(
    tile: int,
    width: int,
    wide: bool,
    one_d: bool,
    sx: int,
    sy: int,
) -> int {
    let step = if wide {
        2int
    } else {
        1int
    };
    let row = if one_d {
        width / 8 * step
    } else {
        32
    };
    let number = tile + sy / 8 * row + sx / 8 * step;
    0x1_0000 + number * 32 + if wide {
        sy % 8 * 8 + sx % 8
    } else {
        sy % 8 * 4 + sx % 8 / 2
    }
}

/// The number of a byte in video RAM beyond whose end there is nothing.
pub open spec fn byte_or_zero(vram: Seq<u8>, at: int) -> int {
    if 0 <= at < vram.len() {
        vram[at] as int
    } else {
        0
    }
}

/// What a sprite shows for the point (`sx`, `sy`) of its picture: number zero
/// nothing; with 256 colours the sprite colour of that number, with 16 the
/// colour of its palette; with the sprite's priority.
pub open spec fn shows_point(
    pixel: LayerPixel,
    attr0: int,
    attr2: int,
    width: int,
    one_d: bool,
    sx: int,
    sy: int,
    mem: VideoMemory,
) -> bool {
    let wide = attr0 / 0x2000 % 2 == 1;
    let byte = byte_or_zero(
        mem.vram,
        sprite_byte_at(attr2 % 0x400, width, wide, one_d, sx, sy),
    );
    let index = if wide {
        byte
    } else if sx % 2 == 0 {
        byte % 16
    } else {
        byte / 16
    };
    let color = if wide {
        index
    } else {
        attr2 / 0x1000 * 16 + index
    };
    if index == 0 {
        pixel is None
    } else {
        shows(pixel, half(mem.pram, 0x200 + color * 2), attr2 / 0x400 % 4)
    }
}

/// The memories have their sizes.
pub open spec fn is_video_memory(mem: VideoMemory) -> bool {
    &&& is_video_ram(mem.vram)
    &&& is_palette_ram(mem.pram)
    &&& mem.oam.len() == 0x400
}

/// A sprite without transformation: its attributes stand at eight bytes per
/// sprite, its left upper corner wraps around 512 columns and 256 lines, and
/// within its width and height it shows its picture, mirrored left to right
/// with bit 12 and top to bottom with bit 13 of the second attribute. Bits 9-8
/// of the first attribute with the value 2 hide it.
#[verifier::spinoff_prover]
pub proof fn law_plain_sprite(mem: VideoMemory, one_d: bool, x: int, y: int, i: int)
    requires
        is_video_memory(mem),
        0 <= i < 128,
        0 <= x < 240,
        0 <= y < 160,
        half(mem.oam, i * 8) / 0x100 % 2 == 0,
    ensures
        ({
            let attr0 = half(mem.oam, i * 8);
            let attr1 = half(mem.oam, i * 8 + 2);
            let attr2 = half(mem.oam, i * 8 + 4);
            let width = sprite_width(attr0 / 0x4000, attr1 / 0x4000);
            let height = sprite_height(attr0 / 0x4000, attr1 / 0x4000);
            let col = (x - attr1 % 512) % 512;
            let row = (y - attr0 % 256) % 256;
            let sx = if attr1 / 0x1000 % 2 == 1 {
                width - 1 - col
            } else {
                col
            };
            let sy = if attr1 / 0x2000 % 2 == 1 {
                height - 1 - row
            } else {
                row
            };
            let pixel = crate::ppu_obj::sprite_pixel(mem, one_d, x, y, i);
            if attr0 / 0x200 % 2 == 1 || col >= width || row >= height {
                pixel is None
            } else {
                shows_point(pixel, attr0, attr2, width, one_d, sx, sy, mem)
            }
        }),
{
    let attr0 = half(mem.oam, i * 8) as u16;
    let attr1 = half(mem.oam, i * 8 + 2) as u16;
    let attr2 = half(mem.oam, i * 8 + 4) as u16;
    lemma_sprite(mem, i, attr0, attr1, attr2);
    let s = crate::ppu_obj::sprite_at(mem.oam, i);
    let width = sprite_width(attr0 as int / 0x4000, attr1 as int / 0x4000);
    let height = sprite_height(attr0 as int / 0x4000, attr1 as int / 0x4000);
    let col = (x - attr1 % 512) % 512;
    let row = (y - attr0 % 256) % 256;
    assert(crate::ppu_obj::column_within(x, s.x as int) == col);
    assert(crate::ppu_obj::row_within(y, s.y as int) == row);
    if s.shown && col < width && row < height {
        lemma_box(s, mem, one_d, attr0 as int, attr2 as int, width, col, row);
    }
}

/// An affine sprite: its box may have twice its width and height (bit 9 of the
/// first attribute). The distance from the middle of the box goes through the
/// matrix, whose four numbers stand in the fourth halfwords of four sprites, in
/// units of 1/256, and gives the distance from the middle of the picture; outside
/// of the picture there is nothing.
#[verifier::spinoff_prover]
pub proof fn law_affine_sprite(mem: VideoMemory, one_d: bool, x: int, y: int, i: int)
    requires
        is_video_memory(mem),
        0 <= i < 128,
        0 <= x < 240,
        0 <= y < 160,
        half(mem.oam, i * 8) / 0x100 % 2 == 1,
    ensures
        ({
            let attr0 = half(mem.oam, i * 8);
            let attr1 = half(mem.oam, i * 8 + 2);
            let attr2 = half(mem.oam, i * 8 + 4);
            let width = sprite_width(attr0 / 0x4000, attr1 / 0x4000);
            let height = sprite_height(attr0 / 0x4000, attr1 / 0x4000);
            let twice = if attr0 / 0x200 % 2 == 1 {
                2int
            } else {
                1int
            };
            let col = (x - attr1 % 512) % 512;
            let row = (y - attr0 % 256) % 256;
            let group = attr1 / 0x200 % 32 * 32;
            let pa = signed_half(half(mem.oam, group + 6));
            let pb = signed_half(half(mem.oam, group + 14));
            let pc = signed_half(half(mem.oam, group + 22));
            let pd = signed_half(half(mem.oam, group + 30));
            let dx = col - width * twice / 2;
            let dy = row - height * twice / 2;
            let sx = (pa * dx + pb * dy) / 256 + width / 2;
            let sy = (pc * dx + pd * dy) / 256 + height / 2;
            let pixel = crate::ppu_obj::sprite_pixel(mem, one_d, x, y, i);
            if col >= width * twice || row >= height * twice || !(0 <= sx < width && 0 <= sy
                < height) {
                pixel is None
            } else {
                shows_point(pixel, attr0, attr2, width, one_d, sx, sy, mem)
            }
        }),
{
    let attr0 = half(mem.oam, i * 8) as u16;
    let attr1 = half(mem.oam, i * 8 + 2) as u16;
    let attr2 = half(mem.oam, i * 8 + 4) as u16;
    lemma_sprite(mem, i, attr0, attr1, attr2);
    let s = crate::ppu_obj::sprite_at(mem.oam, i);
    let width = sprite_width(attr0 as int / 0x4000, attr1 as int / 0x4000);
    let col = (x - attr1 % 512) % 512;
    let row = (y - attr0 % 256) % 256;
    assert(crate::ppu_obj::column_within(x, s.x as int) == col);
    assert(crate::ppu_obj::row_within(y, s.y as int) == row);
    let group = attr1 as int / 0x200 % 32;
    lemma_param(mem.oam, group, 0);
    lemma_param(mem.oam, group, 1);
    lemma_param(mem.oam, group, 2);
    lemma_param(mem.oam, group, 3);
    if col < s.area.0 && row < s.area.1 {
        lemma_box(s, mem, one_d, attr0 as int, attr2 as int, width, col, row);
    }
}

proof fn lemma_param(oam: Seq<u8>, group: int, n: int)
    requires
        oam.len() == 0x400,
        0 <= group < 32,
        0 <= n < 4,
    ensures
        crate::ppu_obj::obj_param(oam, group, n) == signed_half(half(oam, group * 32 + n * 8 + 6)),
{
}

/// The attributes of a sprite, read from their bytes.
proof fn lemma_sprite(mem: VideoMemory, i: int, attr0: u16, attr1: u16, attr2: u16)
    requires
        is_video_memory(mem),
        0 <= i < 128,
        attr0 == half(mem.oam, i * 8),
        attr1 == half(mem.oam, i * 8 + 2),
        attr2 == half(mem.oam, i * 8 + 4),
    ensures
        ({
            let s = crate::ppu_obj::sprite_at(mem.oam, i);
            let width = sprite_width(attr0 as int / 0x4000, attr1 as int / 0x4000);
            let height = sprite_height(attr0 as int / 0x4000, attr1 as int / 0x4000);
            let twice = attr0 / 0x100 % 2 == 1 && attr0 / 0x200 % 2 == 1;
            &&& s.shown == (attr0 / 0x100 % 2 == 1 || attr0 / 0x200 % 2 == 0)
            &&& s.affine == (attr0 / 0x100 % 2 == 1)
            &&& s.size.0 == width && s.size.1 == height
            &&& s.area.0 == if twice {
                width * 2
            } else {
                width
            }
            &&& s.area.1 == if twice {
                height * 2
            } else {
                height
            }
            &&& s.x == attr1 % 512
            &&& s.y == attr0 % 256
            &&& s.eight_bpp == (attr0 / 0x2000 % 2 == 1)
            &&& s.hflip == (attr1 / 0x1000 % 2 == 1)
            &&& s.vflip == (attr1 / 0x2000 % 2 == 1)
            &&& s.group == attr1 / 0x200 % 32
            &&& s.tile == attr2 % 0x400
            &&& s.priority == attr2 / 0x400 % 4
            &&& s.palette == attr2 / 0x1000
            &&& 8 <= width <= 64 && width % 8 == 0
            &&& 8 <= height <= 64 && height % 8 == 0
        }),
{
    crate::encoding::lemma_register_digits(attr0);
    crate::encoding::lemma_register_digits(attr1);
    crate::encoding::lemma_register_digits(attr2);
    assert(crate::ppu_color::half_at(mem.oam, i * 8) == attr0);
    assert(crate::ppu_color::half_at(mem.oam, i * 8 + 2) == attr1);
    assert(crate::ppu_color::half_at(mem.oam, i * 8 + 4) == attr2);
}

/// What a sprite shows at a point of its box.
#[verifier::spinoff_prover]
#[verifier::rlimit(40)]
proof fn lemma_box(
    s: crate::ppu_obj::Sprite,
    mem: VideoMemory,
    one_d: bool,
    attr0: int,
    attr2: int,
    width: int,
    col: int,
    row: int,
)
    requires
        is_video_memory(mem),
        s.size.0 == width,
        s.eight_bpp == (attr0 / 0x2000 % 2 == 1),
        s.tile == attr2 % 0x400,
        s.priority == attr2 / 0x400 % 4,
        s.palette == attr2 / 0x1000,
        0 <= attr2 < 0x1_0000,
    ensures
        ({
            let pixel = crate::ppu_obj::box_pixel(s, mem, one_d, col, row);
            match crate::ppu_obj::obj_texel(s, mem.oam, col, row) {
                Some((sx, sy)) => 0 <= sx && 0 <= sy ==> shows_point(
                    pixel,
                    attr0,
                    attr2,
                    width,
                    one_d,
                    sx,
                    sy,
                    mem,
                ),
                None => pixel is None,
            }
        }),
{
    reveal(crate::ppu_obj::box_pixel);
    if let Some((sx, sy)) = crate::ppu_obj::obj_texel(s, mem.oam, col, row) {
        if 0 <= sx && 0 <= sy {
            let wide = s.eight_bpp;
            let across = width / 8;
            assert((sy / 8 * across + sx / 8) * 2 == sy / 8 * (across * 2) + sx / 8 * 2)
                by (nonlinear_arith);
            assert((sy / 8 * across + sx / 8) * 1 == sy / 8 * (across * 1) + sx / 8 * 1)
                by (nonlinear_arith);
            assert(crate::ppu_obj::obj_byte(sx, sy, width, s.tile as int, wide, one_d)
                == sprite_byte_at(s.tile as int, width, wide, one_d, sx, sy));
            lemma_half_of_byte(sx);
        }
    }
}

proof fn lemma_half_of_byte(sx: int)
    ensures
        (sx % 8) % 2 == sx % 2,
{
    vstd::arithmetic::div_mod::lemma_mod_mod(sx, 2, 4);
}

/// How the layers make a pixel: white while the display is blanked (bit 7 of
/// its control). Otherwise a sprite pixel (bit 12 shows sprites, bit 6 lets their
/// tiles follow each other) covers a background pixel of the same or a higher
/// priority number; where neither is, the first palette colour shows.
pub proof fn law_layers(dispcnt: u16, bg: BgState, mem: VideoMemory, x: int, y: int)
    requires
        is_video_memory(mem),
    ensures
        ({
            let shown = crate::ppu::picture(dispcnt, bg, mem, x, y);
            let mode = dispcnt % 8;
            let back = if mode <= 2 {
                crate::ppu_bg::tiled_pixel(bg, mode, dispcnt, x, y, mem.vram, mem.pram, 0)
            } else if mode <= 5 {
                crate::ppu_bg::bitmap_pixel(bg.cnt[2], mode, dispcnt, x, y, mem.vram, mem.pram)
            } else {
                None
            };
            let sprite = if dispcnt / 0x1000 % 2 == 1 {
                crate::ppu_obj::obj_pixel(mem, dispcnt / 0x40 % 2 == 1, x, y, 128)
            } else {
                None
            };
            if dispcnt / 0x80 % 2 == 1 {
                shown == seq![255u8, 255u8, 255u8, 255u8]
            } else {
                match (sprite, back) {
                    (None, None) => looks(shown, half(mem.pram, 0)),
                    (Some((color, _)), None) => looks(shown, color as int),
                    (None, Some((color, _))) => looks(shown, color as int),
                    (Some((front, over)), Some((behind, under))) => looks(
                        shown,
                        if over <= under {
                            front as int
                        } else {
                            behind as int
                        },
                    ),
                }
            }
        }),
{
    reveal(crate::ppu::picture);
    crate::encoding::lemma_register_digits(dispcnt);
}

/// Whether four bytes are the red, green, blue and full opacity of a colour:
/// red in the lowest five bits, then green, then blue; five bits become eight
/// by repeating the top three below.
pub open spec fn looks(rgba: Seq<u8>, color: int) -> bool {
    let red = color % 32;
    let green = color / 32 % 32;
    let blue = color / 1024 % 32;
    &&& rgba.len() == 4
    &&& rgba[0] == red * 8 + red / 4
    &&& rgba[1] == green * 8 + green / 4
    &&& rgba[2] == blue * 8 + blue / 4
    &&& rgba[3] == 255
}

/// The sprite layer shows the first sprite, by number, that shows anything.
pub proof fn law_first_sprite_shows(mem: VideoMemory, one_d: bool, x: int, y: int, i: int, n: int)
    requires
        0 <= i < n,
        crate::ppu_obj::sprite_pixel(mem, one_d, x, y, i) is Some,
        forall|j: int|
            0 <= j < i ==> #[trigger] crate::ppu_obj::sprite_pixel(mem, one_d, x, y, j) is None,
    ensures
        crate::ppu_obj::obj_pixel(mem, one_d, x, y, n) == crate::ppu_obj::sprite_pixel(
            mem,
            one_d,
            x,
            y,
            i,
        ),
{
    lemma_no_sprites(mem, one_d, x, y, i);
    crate::ppu_obj::law_lowest_index_wins(mem, one_d, x, y, i + 1, n);
}

proof fn lemma_no_sprites(mem: VideoMemory, one_d: bool, x: int, y: int, n: int)
    requires
        forall|j: int|
            0 <= j < n ==> #[trigger] crate::ppu_obj::sprite_pixel(mem, one_d, x, y, j) is None,
    ensures
        crate::ppu_obj::obj_pixel(mem, one_d, x, y, n) is None,
    decreases n,
{
    if n > 0 {
        lemma_no_sprites(mem, one_d, x, y, n - 1);
    }
}

/// A drawn line stands in the frame at 960 bytes per line and four bytes per
/// pixel, and nothing else changes.
pub proof fn law_line_is_drawn(p: crate::ppu::PpuState, mem: VideoMemory, x: int, y: int, k: int)
    requires
        p.wf(),
        0 <= x < 240,
        0 <= y < 160,
        0 <= k < 4,
    ensures
        p.drawn(mem, y).fb[y * 960 + x * 4 + k] == crate::ppu::picture(
            p.dispcnt,
            p.bg,
            mem,
            x,
            y,
        )[k],
        p.framed(mem).fb[y * 960 + x * 4 + k] == crate::ppu::picture(p.dispcnt, p.bg, mem, x, y)[k],
        p.drawn(mem, y).fb.len() == 240 * 160 * 4,
        p.framed(mem).fb.len() == 240 * 160 * 4,
{
    let at = y * 960 + x * 4 + k;
    assert(at / 960 == y);
    assert(at % 960 / 4 == x);
    assert(at % 4 == k);
    assert(0 <= at < 240 * 160 * 4);
}

} // verus!

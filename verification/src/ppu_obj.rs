//! Sprites: small pictures placed anywhere on the screen, with or without an
//! affine transformation.

use vstd::prelude::*;

use crate::bits::bit16;
use crate::ppu_bg::{floor_256, nibble_of_pixel, signed16_value};
use crate::ppu_color::{read_at, read_u16_at, LayerPixel, VideoMemory};

verus! {

/// Sprites in the attribute memory.
pub const OAM_ENTRIES: usize = 128;

/// Where the tiles of sprites start in video RAM.
pub const OBJ_TILE_VRAM_BASE: usize = 0x1_0000;

/// Bytes of a unit of tile numbers.
pub const OBJ_TILE_UNIT_BYTES: usize = 32;

/// Where the colours of sprites start in palette RAM.
pub const OBJ_PALETTE_BYTE_BASE: usize = 0x200;

/// The width and height in pixels of a sprite. The forbidden fourth shape
/// counts as the smallest.
#[verifier::allow_in_spec]
pub fn obj_size(shape: u16, size: u16) -> (usize, usize)
    returns
        (match (shape, size) {
            (0, 0) => (8usize, 8usize),
            (0, 1) => (16usize, 16usize),
            (0, 2) => (32usize, 32usize),
            (0, 3) => (64usize, 64usize),
            (1, 0) => (16usize, 8usize),
            (1, 1) => (32usize, 8usize),
            (1, 2) => (32usize, 16usize),
            (1, 3) => (64usize, 32usize),
            (2, 0) => (8usize, 16usize),
            (2, 1) => (8usize, 32usize),
            (2, 2) => (16usize, 32usize),
            (2, 3) => (32usize, 64usize),
            _ => (8usize, 8usize),
        }),
{
    match (shape, size) {
        (0, 0) => (8, 8),
        (0, 1) => (16, 16),
        (0, 2) => (32, 32),
        (0, 3) => (64, 64),
        (1, 0) => (16, 8),
        (1, 1) => (32, 8),
        (1, 2) => (32, 16),
        (1, 3) => (64, 32),
        (2, 0) => (8, 16),
        (2, 1) => (8, 32),
        (2, 2) => (16, 32),
        (2, 3) => (32, 64),
        _ => (8, 8),
    }
}

/// What the three attribute halfwords of a sprite say.
#[derive(Clone, Copy)]
pub struct Sprite {
    /// Whether it is drawn at all.
    pub shown: bool,
    /// Whether it has an affine transformation.
    pub affine: bool,
    /// Width and height of its picture.
    pub size: (usize, usize),
    /// Width and height of the box that it is drawn into.
    pub area: (usize, usize),
    /// Column of the left edge, modulo 512.
    pub x: usize,
    /// Line of the upper edge, modulo 256.
    pub y: usize,
    /// Whether it has 256 colours, in place of a palette of 16.
    pub eight_bpp: bool,
    /// Whether it is mirrored left to right. Only without affine transformation.
    pub hflip: bool,
    /// Whether it is mirrored top to bottom. Only without affine transformation.
    pub vflip: bool,
    /// Number of its affine parameters.
    pub group: usize,
    /// Number of its first tile.
    pub tile: usize,
    /// Its priority against the backgrounds.
    pub priority: u8,
    /// Its palette of 16 colours.
    pub palette: usize,
}

/// The box of a sprite: its size, doubled for an affine sprite that asks so.
#[verifier::allow_in_spec]
pub fn obj_area(size: (usize, usize), doubled: bool) -> (usize, usize)
    requires
        size.0 <= 64,
        size.1 <= 64,
    returns
        (if doubled {
            ((size.0 * 2) as usize, (size.1 * 2) as usize)
        } else {
            size
        }),
{
    if doubled {
        (size.0 * 2, size.1 * 2)
    } else {
        size
    }
}

/// Decodes the attributes of a sprite.
#[verifier::allow_in_spec]
pub fn sprite(attr0: u16, attr1: u16, attr2: u16) -> Sprite
    returns
        (Sprite {
            shown: bit16(attr0, 8) || !bit16(attr0, 9),
            affine: bit16(attr0, 8),
            size: obj_size((attr0 >> 14) % 4, (attr1 >> 14) % 4),
            area: obj_area(
                obj_size((attr0 >> 14) % 4, (attr1 >> 14) % 4),
                bit16(attr0, 8) && bit16(attr0, 9),
            ),
            x: (attr1 % 512) as usize,
            y: (attr0 % 256) as usize,
            eight_bpp: bit16(attr0, 13),
            hflip: bit16(attr1, 12),
            vflip: bit16(attr1, 13),
            group: ((attr1 >> 9) % 32) as usize,
            tile: (attr2 % 1024) as usize,
            priority: ((attr2 >> 10) % 4) as u8,
            palette: ((attr2 >> 12) % 16) as usize,
        }),
{
    let size: (usize, usize) = obj_size((attr0 >> 14) % 4, (attr1 >> 14) % 4);
    Sprite {
        shown: bit16(attr0, 8) || !bit16(attr0, 9),
        affine: bit16(attr0, 8),
        size,
        area: obj_area(size, bit16(attr0, 8) && bit16(attr0, 9)),
        x: (attr1 % 512) as usize,
        y: (attr0 % 256) as usize,
        eight_bpp: bit16(attr0, 13),
        hflip: bit16(attr1, 12),
        vflip: bit16(attr1, 13),
        group: ((attr1 >> 9) % 32) as usize,
        tile: (attr2 % 1024) as usize,
        priority: ((attr2 >> 10) % 4) as u8,
        palette: ((attr2 >> 12) % 16) as usize,
    }
}

/// The sprite at index `i` of the attribute memory.
pub open spec fn sprite_at(oam: Seq<u8>, i: int) -> Sprite {
    sprite(
        crate::ppu_color::half_at(oam, i * 8),
        crate::ppu_color::half_at(oam, i * 8 + 2),
        crate::ppu_color::half_at(oam, i * 8 + 4),
    )
}

/// The row of a sprite's box that lies on line `y`; lines wrap around at 256.
pub open spec fn row_within(y: int, top: int) -> int {
    (y - top) % 256
}

fn row_of_line(y: usize, top: usize) -> (r: usize)
    requires
        top < 256,
    ensures
        r == row_within(y as int, top as int),
{
    let line: usize = y % 256;
    if line >= top {
        line - top
    } else {
        line + 256 - top
    }
}

/// The column of a sprite's box that lies on column `x` of the screen; columns
/// wrap around at 512.
pub open spec fn column_within(x: int, left: int) -> int {
    if x >= left {
        x - left
    } else {
        x + 512 - left
    }
}

/// Affine parameter `n` of a group: the last halfword of every fourth sprite
/// entry, as a signed number.
pub open spec fn obj_param(oam: Seq<u8>, group: int, n: int) -> int {
    crate::ppu_bg::signed16(crate::ppu_color::half_at(oam, group * 32 + n * 8 + 6))
}

/// The four affine parameters of a group.
pub fn obj_affine_params(oam: &[u8], group: usize) -> (r: (i64, i64, i64, i64))
    requires
        group * 32 + 0x1E < usize::MAX,
    ensures
        r.0 == obj_param(oam@, group as int, 0),
        r.1 == obj_param(oam@, group as int, 1),
        r.2 == obj_param(oam@, group as int, 2),
        r.3 == obj_param(oam@, group as int, 3),
        -0x8000 <= r.0 <= 0x7FFF,
        -0x8000 <= r.1 <= 0x7FFF,
        -0x8000 <= r.2 <= 0x7FFF,
        -0x8000 <= r.3 <= 0x7FFF,
{
    let base: usize = group * 32;
    (
        signed16_value(read_u16_at(oam, base + 0x06)),
        signed16_value(read_u16_at(oam, base + 0x0E)),
        signed16_value(read_u16_at(oam, base + 0x16)),
        signed16_value(read_u16_at(oam, base + 0x1E)),
    )
}

/// The point of a sprite's picture that is shown at a point of its box. An
/// affine sprite transforms the distance from the centre of the box to a
/// distance from the centre of the picture, and shows nothing outside of it.
pub open spec fn obj_texel(s: Sprite, oam: Seq<u8>, col: int, row: int) -> Option<(int, int)> {
    let (w, h) = s.size;
    if s.affine {
        let dx = col - s.area.0 / 2;
        let dy = row - s.area.1 / 2;
        let sx = (obj_param(oam, s.group as int, 0) * dx + obj_param(oam, s.group as int, 1) * dy)
            / 256 + w / 2;
        let sy = (obj_param(oam, s.group as int, 2) * dx + obj_param(oam, s.group as int, 3) * dy)
            / 256 + h / 2;
        if 0 <= sx < w && 0 <= sy < h {
            Some((sx, sy))
        } else {
            None
        }
    } else {
        Some(
            (
                if s.hflip {
                    w - 1 - col
                } else {
                    col
                },
                if s.vflip {
                    h - 1 - row
                } else {
                    row
                },
            ),
        )
    }
}

fn obj_point(s: &Sprite, oam: &[u8], col: usize, row: usize) -> (r: Option<(usize, usize)>)
    requires
        s.size.0 <= 64,
        s.size.1 <= 64,
        s.area.0 <= 128,
        s.area.1 <= 128,
        s.group < 32,
        col < s.area.0,
        row < s.area.1,
        !s.affine ==> s.area == s.size,
    ensures
        match r {
            Some(p) => obj_texel(*s, oam@, col as int, row as int) == Some(
                (p.0 as int, p.1 as int),
            ) && p.0 < s.size.0 && p.1 < s.size.1,
            None => obj_texel(*s, oam@, col as int, row as int) is None,
        },
{
    let (w, h): (usize, usize) = s.size;
    if s.affine {
        let (pa, pb, pc, pd): (i64, i64, i64, i64) = obj_affine_params(oam, s.group);
        let dx: i64 = col as i64 - (s.area.0 / 2) as i64;
        let dy: i64 = row as i64 - (s.area.1 / 2) as i64;
        assert(-0x40_0000 <= pa * dx <= 0x40_0000 && -0x40_0000 <= pb * dy <= 0x40_0000
            && -0x40_0000 <= pc * dx <= 0x40_0000 && -0x40_0000 <= pd * dy <= 0x40_0000)
            by (nonlinear_arith)
            requires
                -0x8000 <= pa <= 0x7FFF,
                -0x8000 <= pb <= 0x7FFF,
                -0x8000 <= pc <= 0x7FFF,
                -0x8000 <= pd <= 0x7FFF,
                -128 <= dx <= 128,
                -128 <= dy <= 128,
        ;
        let sx: i64 = floor_256(pa * dx + pb * dy) + (w / 2) as i64;
        let sy: i64 = floor_256(pc * dx + pd * dy) + (h / 2) as i64;
        if sx < 0 || sx >= w as i64 || sy < 0 || sy >= h as i64 {
            None
        } else {
            Some((sx as usize, sy as usize))
        }
    } else {
        let sx: usize = if s.hflip {
            w - 1 - col
        } else {
            col
        };
        let sy: usize = if s.vflip {
            h - 1 - row
        } else {
            row
        };
        Some((sx, sy))
    }
}

/// The tile units from the start of a sprite to the tile at a cell of it. In
/// one dimension the tiles follow each other; in two they lie in a grid of 32
/// units per row. A tile of 256 colours takes two units.
pub open spec fn tile_offset(
    cell_x: int,
    cell_y: int,
    width: int,
    eight_bpp: bool,
    one_d: bool,
) -> int {
    let units = if eight_bpp {
        2int
    } else {
        1int
    };
    if one_d {
        (cell_y * (width / 8) + cell_x) * units
    } else {
        cell_y * 32 + cell_x * units
    }
}

/// Where in video RAM the byte with a point of a sprite's picture lies.
pub open spec fn obj_byte(
    sx: int,
    sy: int,
    width: int,
    tile_base: int,
    eight_bpp: bool,
    one_d: bool,
) -> int {
    let addr = OBJ_TILE_VRAM_BASE + (tile_base + tile_offset(
        sx / 8,
        sy / 8,
        width,
        eight_bpp,
        one_d,
    )) * OBJ_TILE_UNIT_BYTES;
    if eight_bpp {
        addr + sy % 8 * 8 + sx % 8
    } else {
        addr + sy % 8 * 4 + sx % 8 / 2
    }
}

/// The palette index of a point of a sprite's picture.
pub open spec fn obj_index(
    sx: int,
    sy: int,
    width: int,
    tile_base: int,
    eight_bpp: bool,
    one_d: bool,
    vram: Seq<u8>,
) -> u8 {
    let byte = crate::bus::byte_at(vram, obj_byte(sx, sy, width, tile_base, eight_bpp, one_d));
    if eight_bpp {
        byte
    } else {
        nibble_of_pixel(byte, (sx % 8) as usize)
    }
}

/// The palette index of a point of a sprite's picture.
pub fn obj_tile_index(
    sx: usize,
    sy: usize,
    width: usize,
    tile_base: usize,
    eight_bpp: bool,
    one_d: bool,
    vram: &[u8],
) -> (r: u8)
    requires
        obj_byte(sx as int, sy as int, width as int, tile_base as int, eight_bpp, one_d)
            <= usize::MAX,
    ensures
        r == obj_index(sx as int, sy as int, width as int, tile_base as int, eight_bpp, one_d, vram@),
{
    let cell_x: usize = sx / 8;
    let cell_y: usize = sy / 8;
    let across: usize = width / 8;
    assert(0 <= cell_y * across) by (nonlinear_arith);
    let offset: usize = if one_d {
        if eight_bpp {
            (cell_y * across + cell_x) * 2
        } else {
            cell_y * across + cell_x
        }
    } else if eight_bpp {
        cell_y * 32 + cell_x * 2
    } else {
        cell_y * 32 + cell_x
    };
    let addr: usize = OBJ_TILE_VRAM_BASE + (tile_base + offset) * OBJ_TILE_UNIT_BYTES;
    if eight_bpp {
        read_at(vram, addr + sy % 8 * 8 + sx % 8)
    } else {
        nibble_of_pixel(read_at(vram, addr + sy % 8 * 4 + sx % 8 / 2), sx % 8)
    }
}

proof fn lemma_obj_byte_bound(
    sx: int,
    sy: int,
    width: int,
    tile_base: int,
    eight_bpp: bool,
    one_d: bool,
)
    requires
        0 <= sx < 64,
        0 <= sy < 64,
        0 <= width <= 64,
        0 <= tile_base < 1024,
    ensures
        0 <= obj_byte(sx, sy, width, tile_base, eight_bpp, one_d) < 0x2_0000,
{
    assert(0 <= (sy / 8) * (width / 8) <= 56) by (nonlinear_arith)
        requires
            0 <= sy / 8 <= 7,
            0 <= width / 8 <= 8,
    ;
}

/// The pixel of a sprite with palette index `index`.
pub open spec fn obj_color(s: Sprite, index: u8, pram: Seq<u8>) -> LayerPixel {
    if index == 0 {
        None
    } else {
        let entry = if s.eight_bpp {
            index as int
        } else {
            s.palette * 16 + index
        };
        Some((crate::ppu_color::half_at(pram, OBJ_PALETTE_BYTE_BASE + entry * 2), s.priority))
    }
}

/// The pixel of a sprite at a point of its box.
#[verifier::opaque]
pub open spec fn box_pixel(
    s: Sprite,
    mem: VideoMemory,
    one_d: bool,
    col: int,
    row: int,
) -> LayerPixel {
    match obj_texel(s, mem.oam, col, row) {
        Some(p) => obj_color(
            s,
            obj_index(p.0, p.1, s.size.0 as int, s.tile as int, s.eight_bpp, one_d, mem.vram),
            mem.pram,
        ),
        None => None,
    }
}

/// The pixel of sprite `i` at a pixel of the screen, if the sprite covers it
/// and is not transparent there.
pub open spec fn sprite_pixel(
    mem: VideoMemory,
    one_d: bool,
    x: int,
    y: int,
    i: int,
) -> LayerPixel {
    let s = sprite_at(mem.oam, i);
    let row = row_within(y, s.y as int);
    let col = column_within(x, s.x as int);
    if !s.shown || row >= s.area.1 || col >= s.area.0 {
        None
    } else {
        box_pixel(s, mem, one_d, col, row)
    }
}

/// The pixel of the sprite layer made of the first `n` sprites: that of the
/// lowest index that shows anything there.
pub open spec fn obj_pixel(mem: VideoMemory, one_d: bool, x: int, y: int, n: int) -> LayerPixel
    decreases n,
{
    if n <= 0 {
        None
    } else {
        match obj_pixel(mem, one_d, x, y, n - 1) {
            Some(p) => Some(p),
            None => sprite_pixel(mem, one_d, x, y, n - 1),
        }
    }
}

/// The pixel of a sprite at a point of its box.
fn sample_box(
    s: &Sprite,
    oam: &[u8],
    vram: &[u8],
    pram: &[u8],
    one_d: bool,
    col: usize,
    row: usize,
    Ghost(mem): Ghost<VideoMemory>,
) -> (r: LayerPixel)
    requires
        s.size.0 <= 64,
        s.size.1 <= 64,
        s.area.0 <= 128,
        s.area.1 <= 128,
        s.group < 32,
        s.tile < 1024,
        s.palette < 16,
        col < s.area.0,
        row < s.area.1,
        !s.affine ==> s.area == s.size,
        mem.vram == vram@,
        mem.pram == pram@,
        mem.oam == oam@,
    ensures
        r == box_pixel(*s, mem, one_d, col as int, row as int),
{
    reveal(box_pixel);
    match obj_point(s, oam, col, row) {
        Some((sx, sy)) => {
            proof {
                lemma_obj_byte_bound(
                    sx as int,
                    sy as int,
                    s.size.0 as int,
                    s.tile as int,
                    s.eight_bpp,
                    one_d,
                );
            }
            let index: u8 = obj_tile_index(sx, sy, s.size.0, s.tile, s.eight_bpp, one_d, vram);
            if index == 0 {
                return None;
            }
            let entry: usize = if s.eight_bpp {
                index as usize
            } else {
                s.palette * 16 + index as usize
            };
            Some((read_u16_at(pram, OBJ_PALETTE_BYTE_BASE + entry * 2), s.priority))
        },
        None => None,
    }
}

/// Puts a pixel of a sprite into the sprite layer, unless a sprite of lower
/// index is there.
fn put_obj_pixel(objs: &mut Vec<LayerPixel>, x: usize, pixel: LayerPixel)
    requires
        x < old(objs)@.len(),
    ensures
        final(objs)@ == old(objs)@.update(
            x as int,
            match old(objs)@[x as int] {
                Some(p) => Some(p),
                None => pixel,
            },
        ),
{
    if objs[x].is_none() {
        objs.set(x, pixel);
    } else {
        assert(objs@ =~= old(objs)@.update(x as int, old(objs)@[x as int]));
    }
}

/// Draws the part of sprite `i` that lies on line `y` behind what is already in
/// the layer.
fn render_sprite(
    objs: &mut Vec<LayerPixel>,
    i: usize,
    y: usize,
    one_d: bool,
    oam: &[u8],
    vram: &[u8],
    pram: &[u8],
    Ghost(mem): Ghost<VideoMemory>,
)
    requires
        old(objs)@.len() == 240,
        i < OAM_ENTRIES,
        mem.vram == vram@,
        mem.pram == pram@,
        mem.oam == oam@,
        forall|x: int|
            0 <= x < 240 ==> #[trigger] old(objs)@[x] == obj_pixel(mem, one_d, x, y as int, i as int),
    ensures
        final(objs)@.len() == 240,
        forall|x: int|
            0 <= x < 240 ==> #[trigger] final(objs)@[x] == obj_pixel(
                mem,
                one_d,
                x,
                y as int,
                i + 1,
            ),
{
    let s: Sprite = sprite(
        read_u16_at(oam, i * 8),
        read_u16_at(oam, i * 8 + 2),
        read_u16_at(oam, i * 8 + 4),
    );
    assert(s == sprite_at(mem.oam, i as int));
    if !s.shown {
        return;
    }
    let row: usize = row_of_line(y, s.y);
    if row >= s.area.1 {
        return;
    }
    let mut col: usize = 0;
    while col < s.area.0
        invariant
            objs@.len() == 240,
            i < OAM_ENTRIES,
            mem.vram == vram@,
            mem.pram == pram@,
            mem.oam == oam@,
            s == sprite_at(mem.oam, i as int),
            s.shown,
            row == row_within(y as int, s.y as int),
            row < s.area.1,
            s.size.0 <= 64,
            s.size.1 <= 64,
            s.area.0 <= 128,
            s.area.1 <= 128,
            s.group < 32,
            s.tile < 1024,
            s.palette < 16,
            s.x < 512,
            !s.affine ==> s.area == s.size,
            col <= s.area.0,
            forall|x: int|
                0 <= x < 240 ==> #[trigger] objs@[x] == if column_within(x, s.x as int) < col {
                    obj_pixel(mem, one_d, x, y as int, i + 1)
                } else {
                    obj_pixel(mem, one_d, x, y as int, i as int)
                },
        decreases s.area.0 - col,
    {
        let x: usize = if s.x + col >= 512 {
            s.x + col - 512
        } else {
            s.x + col
        };
        if x < 240 {
            assert(column_within(x as int, s.x as int) == col);
            let pixel: LayerPixel = sample_box(&s, oam, vram, pram, one_d, col, row, Ghost(mem));
            put_obj_pixel(objs, x, pixel);
        }
        col = col + 1;
    }
}

/// The sprite layer on line `y`.
pub fn render_obj_line(y: usize, one_d: bool, oam: &[u8], vram: &[u8], pram: &[u8]) -> (objs: Vec<
    LayerPixel,
>)
    ensures
        objs@.len() == 240,
        forall|x: int|
            0 <= x < 240 ==> #[trigger] objs@[x] == obj_pixel(
                (VideoMemory { vram: vram@, pram: pram@, oam: oam@ }),
                one_d,
                x,
                y as int,
                OAM_ENTRIES as int,
            ),
{
    let ghost mem = VideoMemory { vram: vram@, pram: pram@, oam: oam@ };
    let mut objs: Vec<LayerPixel> = vec![None; 240];
    let mut i: usize = 0;
    while i < OAM_ENTRIES
        invariant
            i <= OAM_ENTRIES,
            objs@.len() == 240,
            mem == (VideoMemory { vram: vram@, pram: pram@, oam: oam@ }),
            forall|x: int|
                0 <= x < 240 ==> #[trigger] objs@[x] == obj_pixel(
                    mem,
                    one_d,
                    x,
                    y as int,
                    i as int,
                ),
        decreases OAM_ENTRIES - i,
    {
        render_sprite(&mut objs, i, y, one_d, oam, vram, pram, Ghost(mem));
        i = i + 1;
    }
    objs
}

/// No sprite of a higher index hides one of a lower index: where the first `n`
/// sprites show something, more sprites change nothing.
pub proof fn law_lowest_index_wins(
    mem: VideoMemory,
    one_d: bool,
    x: int,
    y: int,
    n: int,
    m: int,
)
    requires
        0 <= n <= m,
        obj_pixel(mem, one_d, x, y, n) is Some,
    ensures
        obj_pixel(mem, one_d, x, y, m) == obj_pixel(mem, one_d, x, y, n),
    decreases m,
{
    if n < m {
        law_lowest_index_wins(mem, one_d, x, y, n, m - 1);
    }
}

} // verus!

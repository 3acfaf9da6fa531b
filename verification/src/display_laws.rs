//! What the registers of the picture unit hold after their bytes are written,
//! and how the scan moves.

use vstd::prelude::*;

use crate::ppu_bg::BgState;

verus! {

/// The picture unit after writing two bytes, the lowest first.
pub open spec fn half_written(
    p: crate::ppu::PpuState,
    at: int,
    low: u8,
    high: u8,
) -> crate::ppu::PpuState {
    p.write8(at as u32, low).write8((at + 1) as u32, high)
}

proof fn lemma_half_of_bytes(old_half: u16, at: u32, low: u8, high: u8)
    requires
        at % 2 == 0,
        at < 0x1000,
    ensures
        crate::ppu::with_half_byte(
            crate::ppu::with_half_byte(old_half, at, low),
            (at + 1) as u32,
            high,
        ) == low + 0x100 * high,
{
    let once = crate::ppu::with_half_byte(old_half, at, low);
    assert(once % 0x100 == low);
}

/// The display control at 0 and the control of background `i` at 8 + 2 i arrive
/// whole when their two bytes are written; nothing else changes.
pub proof fn law_control_registers(p: crate::ppu::PpuState, i: int, low: u8, high: u8)
    requires
        p.wf(),
        0 <= i < 4,
    ensures
        ({
            let value = (low + 0x100 * high) as u16;
            &&& half_written(p, 0, low, high) == (crate::ppu::PpuState { dispcnt: value, ..p })
            &&& half_written(p, 8 + 2 * i, low, high) == (crate::ppu::PpuState {
                bg: BgState { cnt: p.bg.cnt.update(i, value), ..p.bg },
                ..p
            })
        }),
{
    let value = (low + 0x100 * high) as u16;
    lemma_half_of_bytes(p.dispcnt, 0, low, high);
    lemma_half_of_bytes(p.bg.cnt[i], (8 + 2 * i) as u32, low, high);
    let after = half_written(p, 8 + 2 * i, low, high);
    assert(after.bg.cnt =~= p.bg.cnt.update(i, value));
}

/// One byte of the scroll registers.
proof fn lemma_scroll_byte(bg: BgState, i: int, local: u32, value: u8)
    requires
        0 <= i < 4,
        local < 4,
    ensures
        crate::ppu::bg_written(bg, (16 + 4 * i + local) as u32, value) == if local < 2 {
            BgState {
                hofs: bg.hofs.update(i, crate::ppu::with_half_byte(bg.hofs[i], local, value)),
                ..bg
            }
        } else {
            BgState {
                vofs: bg.vofs.update(i, crate::ppu::with_half_byte(bg.vofs[i], local, value)),
                ..bg
            }
        },
{
    let off = (16 + 4 * i + local) as u32;
    assert((off - 16) / 4 == i);
    assert(off % 4 == local);
    assert(off % 2 == local % 2);
}

/// The scroll of background `i` at 16 + 4 i and 18 + 4 i arrives whole when its
/// two bytes are written; nothing else changes.
pub proof fn law_scroll_registers(bg: BgState, i: int, low: u8, high: u8)
    requires
        bg.hofs.len() == 4,
        bg.vofs.len() == 4,
        0 <= i < 4,
    ensures
        ({
            let value = (low + 0x100 * high) as u16;
            &&& pair_written(bg, 16 + 4 * i, low, high) == (BgState {
                hofs: bg.hofs.update(i, value),
                ..bg
            })
            &&& pair_written(bg, 18 + 4 * i, low, high) == (BgState {
                vofs: bg.vofs.update(i, value),
                ..bg
            })
        }),
{
    lemma_scroll_pair(bg, i, 0, low, high);
    lemma_scroll_pair(bg, i, 2, low, high);
}

proof fn lemma_scroll_pair(bg: BgState, i: int, local: u32, low: u8, high: u8)
    requires
        bg.hofs.len() == 4,
        bg.vofs.len() == 4,
        0 <= i < 4,
        local == 0 || local == 2,
    ensures
        ({
            let value = (low + 0x100 * high) as u16;
            pair_written(bg, 16 + 4 * i + local, low, high) == if local == 0 {
                BgState { hofs: bg.hofs.update(i, value), ..bg }
            } else {
                BgState { vofs: bg.vofs.update(i, value), ..bg }
            }
        }),
{
    let value = (low + 0x100 * high) as u16;
    let once = crate::ppu::bg_written(bg, (16 + 4 * i + local) as u32, low);
    lemma_scroll_byte(bg, i, local, low);
    lemma_scroll_byte(once, i, (local + 1) as u32, high);
    lemma_half_of_bytes(bg.hofs[i], local, low, high);
    lemma_half_of_bytes(bg.vofs[i], local, low, high);
    let twice = pair_written(bg, 16 + 4 * i + local, low, high);
    assert(local == 0 ==> twice.hofs =~= bg.hofs.update(i, value));
    assert(local == 2 ==> twice.vofs =~= bg.vofs.update(i, value));
}

/// One byte of the affine registers.
proof fn lemma_affine_byte(bg: BgState, i: int, local: u32, value: u8)
    requires
        0 <= i < 2,
        local < 16,
    ensures
        crate::ppu::bg_written(bg, (32 + 16 * i + local) as u32, value) == if local < 2 {
            BgState {
                pa: bg.pa.update(i, crate::ppu::with_half_byte(bg.pa[i], local, value)),
                ..bg
            }
        } else if local < 4 {
            BgState {
                pb: bg.pb.update(i, crate::ppu::with_half_byte(bg.pb[i], local, value)),
                ..bg
            }
        } else if local < 6 {
            BgState {
                pc: bg.pc.update(i, crate::ppu::with_half_byte(bg.pc[i], local, value)),
                ..bg
            }
        } else if local < 8 {
            BgState {
                pd: bg.pd.update(i, crate::ppu::with_half_byte(bg.pd[i], local, value)),
                ..bg
            }
        } else if local < 12 {
            BgState {
                x: bg.x.update(i, crate::ppu::with_word_byte(bg.x[i], local, value)),
                ..bg
            }
        } else {
            BgState {
                y: bg.y.update(i, crate::ppu::with_word_byte(bg.y[i], local, value)),
                ..bg
            }
        },
{
    let off = (32 + 16 * i + local) as u32;
    assert((off - 32) / 16 == i);
    assert(off % 16 == local);
    assert(off % 2 == local % 2);
    assert(off % 4 == local % 4);
}

/// The background registers after writing two bytes, the lowest first.
pub open spec fn pair_written(bg: BgState, at: int, low: u8, high: u8) -> BgState {
    crate::ppu::bg_written(
        crate::ppu::bg_written(bg, at as u32, low),
        (at + 1) as u32,
        high,
    )
}

/// The matrix of affine background 2 + i stands at 32 + 16 i, two bytes per
/// number; each arrives whole, and nothing else changes.
pub proof fn law_matrix_registers(bg: BgState, i: int, low: u8, high: u8)
    requires
        bg.pa.len() == 2,
        bg.pb.len() == 2,
        bg.pc.len() == 2,
        bg.pd.len() == 2,
        0 <= i < 2,
    ensures
        ({
            let value = (low + 0x100 * high) as u16;
            let at = 32 + 16 * i;
            &&& pair_written(bg, at, low, high) == (BgState { pa: bg.pa.update(i, value), ..bg })
            &&& pair_written(bg, at + 2, low, high) == (BgState {
                pb: bg.pb.update(i, value),
                ..bg
            })
            &&& pair_written(bg, at + 4, low, high) == (BgState {
                pc: bg.pc.update(i, value),
                ..bg
            })
            &&& pair_written(bg, at + 6, low, high) == (BgState {
                pd: bg.pd.update(i, value),
                ..bg
            })
        }),
{
    let at = 32 + 16 * i;
    lemma_matrix_pair(bg, i, 0, low, high);
    lemma_matrix_pair(bg, i, 2, low, high);
    lemma_matrix_pair(bg, i, 4, low, high);
    lemma_matrix_pair(bg, i, 6, low, high);
}

proof fn lemma_matrix_pair(bg: BgState, i: int, local: u32, low: u8, high: u8)
    requires
        bg.pa.len() == 2,
        bg.pb.len() == 2,
        bg.pc.len() == 2,
        bg.pd.len() == 2,
        0 <= i < 2,
        local == 0 || local == 2 || local == 4 || local == 6,
    ensures
        ({
            let value = (low + 0x100 * high) as u16;
            pair_written(bg, 32 + 16 * i + local, low, high) == if local == 0 {
                BgState { pa: bg.pa.update(i, value), ..bg }
            } else if local == 2 {
                BgState { pb: bg.pb.update(i, value), ..bg }
            } else if local == 4 {
                BgState { pc: bg.pc.update(i, value), ..bg }
            } else {
                BgState { pd: bg.pd.update(i, value), ..bg }
            }
        }),
{
    let value = (low + 0x100 * high) as u16;
    let once = crate::ppu::bg_written(bg, (32 + 16 * i + local) as u32, low);
    lemma_affine_byte(bg, i, local, low);
    lemma_affine_byte(once, i, (local + 1) as u32, high);
    lemma_half_of_bytes(bg.pa[i], local, low, high);
    lemma_half_of_bytes(bg.pb[i], local, low, high);
    lemma_half_of_bytes(bg.pc[i], local, low, high);
    lemma_half_of_bytes(bg.pd[i], local, low, high);
    let twice = pair_written(bg, 32 + 16 * i + local, low, high);
    assert(local == 0 ==> twice.pa =~= bg.pa.update(i, value));
    assert(local == 2 ==> twice.pb =~= bg.pb.update(i, value));
    assert(local == 4 ==> twice.pc =~= bg.pc.update(i, value));
    assert(local == 6 ==> twice.pd =~= bg.pd.update(i, value));
}

/// The reference point of affine background 2 + i stands at 40 + 16 i and
/// 44 + 16 i, lowest byte first: a write replaces one byte of the number, and
/// nothing else changes.
pub proof fn law_reference_points(bg: BgState, i: int, k: u32, value: u8)
    requires
        bg.x.len() == 2,
        bg.y.len() == 2,
        0 <= i < 2,
        k < 4,
    ensures
        ({
            let x = crate::ppu::bg_written(bg, (40 + 16 * i + k) as u32, value);
            let y = crate::ppu::bg_written(bg, (44 + 16 * i + k) as u32, value);
            &&& x == (BgState { x: bg.x.update(i, x.x[i]), ..bg })
            &&& y == (BgState { y: bg.y.update(i, y.y[i]), ..bg })
            &&& is_byte_replaced(bg.x[i], x.x[i], k as int, value)
            &&& is_byte_replaced(bg.y[i], y.y[i], k as int, value)
        }),
{
    lemma_affine_byte(bg, i, (8 + k) as u32, value);
    lemma_affine_byte(bg, i, (12 + k) as u32, value);
    lemma_word_byte(bg.x[i], (8 + k) as u32, value);
    lemma_word_byte(bg.y[i], (12 + k) as u32, value);
}

/// Whether `after` is `before` with byte `k` replaced by `value`.
pub open spec fn is_byte_replaced(before: u32, after: u32, k: int, value: u8) -> bool {
    if k == 0 {
        after % 0x100 == value && after / 0x100 == before / 0x100
    } else if k == 1 {
        after % 0x100 == before % 0x100 && after / 0x100 % 0x100 == value && after / 0x1_0000
            == before / 0x1_0000
    } else if k == 2 {
        after % 0x1_0000 == before % 0x1_0000 && after / 0x1_0000 % 0x100 == value && after
            / 0x100_0000 == before / 0x100_0000
    } else {
        after % 0x100_0000 == before % 0x100_0000 && after / 0x100_0000 == value
    }
}

proof fn lemma_word_byte(word: u32, n: u32, value: u8)
    ensures
        is_byte_replaced(
            word,
            crate::ppu::with_word_byte(word, n, value),
            (n % 4) as int,
            value,
        ),
{
    if n % 4 == 0 {
        lemma_joined((word / 0x100) as int, value as int, 0, 0x100, 1);
    } else if n % 4 == 1 {
        lemma_joined((word / 0x1_0000) as int, value as int, (word % 0x100) as int, 0x100, 0x100);
    } else if n % 4 == 2 {
        lemma_joined(
            (word / 0x100_0000) as int,
            value as int,
            (word % 0x1_0000) as int,
            0x100,
            0x1_0000,
        );
    } else {
        lemma_joined(0, value as int, (word % 0x100_0000) as int, 0x100, 0x100_0000);
    }
}

/// The three digits of a number put together from them.
proof fn lemma_joined(top: int, middle: int, low: int, base: int, unit: int)
    requires
        0 <= top,
        0 <= middle < base,
        0 <= low < unit,
    ensures
        ({
            let whole = top * base * unit + middle * unit + low;
            &&& whole % unit == low
            &&& whole / unit % base == middle
            &&& whole / unit / base == top
            &&& whole / unit == top * base + middle
        }),
{
    let whole = top * base * unit + middle * unit + low;
    let quotient = top * base + middle;
    assert(whole == quotient * unit + low) by (nonlinear_arith)
        requires
            whole == top * base * unit + middle * unit + low,
            quotient == top * base + middle,
    ;
    vstd::arithmetic::div_mod::lemma_fundamental_div_mod_converse(whole, unit, quotient, low);
    vstd::arithmetic::div_mod::lemma_fundamental_div_mod_converse(quotient, base, top, middle);
}

/// The picture unit hands writes from 8 to 63 to the background registers.
pub proof fn law_background_writes(p: crate::ppu::PpuState, off: u32, value: u8)
    requires
        8 <= off < 0x40,
    ensures
        p.write8(off, value) == (crate::ppu::PpuState {
            bg: crate::ppu::bg_written(p.bg, off, value),
            ..p
        }),
{
}

/// The scan: each line follows the one before, and after line 227 comes line 0.
/// Bit 0 of the display status is set on lines 160 to 226, bit 2 on the line to
/// compare with, and bit 1 in the horizontal blank of any line.
pub proof fn law_scan(p: crate::ppu::PpuState)
    requires
        p.wf(),
    ensures
        ({
            let next = p.next_line();
            let low = next.read8(4) as int;
            &&& next.vcount == (p.vcount + 1) % 228
            &&& next.read8(6) == next.vcount
            &&& next.read8(5) == p.read8(5)
            &&& low % 2 == 1 <==> 160 <= next.vcount <= 226
            &&& low / 2 % 2 == 0
            &&& low / 4 % 2 == 1 <==> next.vcount == p.read8(5)
            &&& low / 8 == p.read8(4) as int / 8
            &&& p.in_hblank().read8(4) as int / 2 % 2 == 1
            &&& p.in_hblank().vcount == p.vcount
            &&& next.fb == p.fb && next.bg == p.bg && next.dispcnt == p.dispcnt
        }),
{
}

} // verus!

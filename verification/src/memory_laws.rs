//! What the memory map promises as a whole: RAM keeps what is written, its
//! mirrors agree, nothing else moves, and copies copy.

use vstd::prelude::*;

use crate::bits::{bit16, half_from_bytes, rotate_right};
use crate::bus::{vram_offset, BusState, OPEN_BUS};
use crate::dma::{DmaState, DmaTransfer};

verus! {

/// Whether an address lies in work RAM, palette RAM, video RAM or the sprite
/// attributes.
pub open spec fn is_ram(addr: u32) -> bool {
    let region = addr / 0x100_0000;
    region == 2 || region == 3 || region == 5 || region == 6 || region == 7
}

/// Offset of the byte of RAM behind an address, within its region.
pub open spec fn cell(addr: u32) -> int {
    match addr / 0x100_0000 {
        0x02 => (addr % 0x4_0000) as int,
        0x03 => (addr % 0x8000) as int,
        0x06 => vram_offset(addr) as int,
        _ => (addr % 0x400) as int,
    }
}

/// Whether two addresses stand for the same byte of RAM.
#[verifier::opaque]
pub open spec fn same_cell(a: u32, b: u32) -> bool {
    is_ram(a) && a / 0x100_0000 == b / 0x100_0000 && cell(a) == cell(b)
}

/// RAM keeps the byte that is written, at all addresses of that byte, and no
/// other byte changes, whether RAM, I/O, ROM or BIOS.
pub proof fn law_ram_keeps_bytes(bus: BusState, a: u32, value: u8, b: u32)
    requires
        bus.wf(),
        is_ram(a),
    ensures
        bus.write8(a, value).read8(b) == if same_cell(a, b) {
            value
        } else {
            bus.read8(b)
        },
        bus.write8(a, value).wf(),
{
    reveal(BusState::read8);
    reveal(BusState::write8);
    reveal(same_cell);
}

/// Work RAM repeats every 256 KiB and every 32 KiB, palette RAM and the sprite
/// attributes every KiB, video RAM every 128 KiB.
pub proof fn law_ram_repeats(bus: BusState, a: u32, b: u32)
    requires
        a / 0x100_0000 == b / 0x100_0000,
    ensures
        a / 0x100_0000 == 2 && a % 0x4_0000 == b % 0x4_0000 ==> bus.read8(a) == bus.read8(b),
        a / 0x100_0000 == 3 && a % 0x8000 == b % 0x8000 ==> bus.read8(a) == bus.read8(b),
        a / 0x100_0000 == 5 && a % 0x400 == b % 0x400 ==> bus.read8(a) == bus.read8(b),
        a / 0x100_0000 == 6 && a % 0x2_0000 == b % 0x2_0000 ==> bus.read8(a) == bus.read8(b),
        a / 0x100_0000 == 7 && a % 0x400 == b % 0x400 ==> bus.read8(a) == bus.read8(b),
{
    reveal(BusState::read8);
}

/// The last 32 KiB of each repetition of video RAM are the 32 KiB before.
pub proof fn law_video_ram_folds(bus: BusState, a: u32)
    requires
        a / 0x100_0000 == 6,
        a % 0x2_0000 >= 0x1_8000,
    ensures
        bus.read8(a) == bus.read8((a - 0x8000) as u32),
{
    reveal(BusState::read8);
}

/// Two addresses of one byte read the same and are written the same.
pub proof fn law_mirrors_agree(bus: BusState, a: u32, b: u32, value: u8)
    requires
        same_cell(a, b),
    ensures
        bus.read8(a) == bus.read8(b),
        bus.write8(a, value) == bus.write8(b, value),
{
    reveal(BusState::read8);
    reveal(BusState::write8);
    reveal(same_cell);
}

/// The three windows on the ROM show the same bytes; past its end there is
/// nothing.
pub proof fn law_rom_windows(bus: BusState, offset: u32)
    requires
        offset < 0x200_0000,
    ensures
        ({
            let byte = if offset < bus.rom.len() {
                bus.rom[offset as int]
            } else {
                OPEN_BUS
            };
            &&& bus.read8((0x0800_0000 + offset) as u32) == byte
            &&& bus.read8((0x0A00_0000 + offset) as u32) == byte
            &&& bus.read8((0x0C00_0000 + offset) as u32) == byte
        }),
{
    reveal(BusState::read8);
}

/// Whether an address lies in the BIOS, in ROM, or where nothing is.
pub open spec fn is_read_only(addr: u32) -> bool {
    addr / 0x100_0000 <= 1 || addr / 0x100_0000 >= 8
}

/// Writes to the BIOS, to ROM and to nowhere change nothing.
pub proof fn law_read_only(bus: BusState, addr: u32, byte: u8, half: u16, word: u32)
    requires
        is_read_only(addr),
    ensures
        bus.write8(addr, byte) == bus,
        bus.write16(addr, half) == bus,
        bus.write32(addr, word) == bus,
{
    let pair = (addr - addr % 2) as u32;
    let quad = (addr - addr % 4) as u32;
    assert(pair / 0x100_0000 == addr / 0x100_0000 && (pair + 1) as u32 / 0x100_0000 == addr
        / 0x100_0000);
    assert(quad / 0x100_0000 == addr / 0x100_0000 && (quad + 1) as u32 / 0x100_0000 == addr
        / 0x100_0000 && (quad + 2) as u32 / 0x100_0000 == addr / 0x100_0000 && (quad + 3) as u32
        / 0x100_0000 == addr / 0x100_0000);
    assert forall|a: u32, v: u8| is_read_only(a) implies #[trigger] bus.write8(a, v) == bus by {
        reveal(BusState::write8);
    }
    assert(bus.store16(addr, half) == bus);
    assert(bus.store32(addr, word) == bus);
    reveal(BusState::after_write);
}

/// Where nothing is, reads give zero.
pub proof fn law_open_bus(bus: BusState, addr: u32)
    requires
        addr / 0x100_0000 == 1 || addr / 0x100_0000 >= 0xE,
    ensures
        bus.read8(addr) == OPEN_BUS,
        bus.read16(addr) == 0,
        bus.read32(addr) == 0,
{
    reveal(BusState::read8);
    let base = (addr - addr % 4) as u32;
    assert(base / 0x100_0000 == addr / 0x100_0000);
    assert((base + 3) as u32 / 0x100_0000 == addr / 0x100_0000);
    let n = (8 * (addr % 4)) as u32;
    assert((0u32 >> n) | (0u32 << ((32 - n) as u32)) == 0) by (bit_vector);
}

/// RAM keeps the halfword that is written, low byte first, at the aligned
/// address; no byte beside it changes.
pub proof fn law_ram_keeps_halfwords(bus: BusState, a: u32, value: u16, b: u32)
    requires
        bus.wf(),
        is_ram(a),
    ensures
        ({
            let base = (a - a % 2) as u32;
            let after = bus.write16(a, value);
            &&& after.read16(base) == value
            &&& after.read8(base) == value % 0x100
            &&& after.read8((base + 1) as u32) == value / 0x100
            &&& !same_cell(base, b) && !same_cell((base + 1) as u32, b) ==> after.read8(b)
                == bus.read8(b)
            &&& after.wf()
        }),
{
    reveal(unit_holds);
    let base = (a - a % 2) as u32;
    lemma_ram_write_starts_nothing(bus.store16(a, value), base, 2);
    lemma_store16(bus, a, value, b);
}

/// RAM keeps the word that is written, lowest byte first, at the aligned
/// address; no byte beside it changes.
pub proof fn law_ram_keeps_words(bus: BusState, a: u32, value: u32, b: u32)
    requires
        bus.wf(),
        is_ram(a),
    ensures
        ({
            let base = (a - a % 4) as u32;
            let after = bus.write32(a, value);
            &&& after.read32(base) == value
            &&& forall|k: int|
                0 <= k < 4 ==> #[trigger] after.read8((base + k) as u32) == crate::bits::byte_of(
                    value,
                    k,
                )
            &&& !unit_holds(true, base, b) ==> after.read8(b) == bus.read8(b)
            &&& after.wf()
        }),
{
    let base = (a - a % 4) as u32;
    lemma_ram_write_starts_nothing(bus.store32(a, value), base, 4);
    lemma_store32(bus, a, value, b);
}

/// A read from an unaligned address gives the aligned unit, rotated so that the
/// addressed byte comes lowest.
pub proof fn law_unaligned_reads_rotate(bus: BusState, a: u32)
    ensures
        bus.read32(a) == rotate_right(bus.read32((a - a % 4) as u32), (8 * (a % 4)) as u32),
        a % 2 == 1 ==> bus.read16(a) == half_from_bytes(bus.read8(a), bus.read8((a - 1) as u32)),
{
}

/// A write to RAM starts no transfer.
pub proof fn lemma_ram_write_starts_nothing(bus: BusState, base: u32, width: u32)
    requires
        is_ram(base),
    ensures
        bus.after_write(base, width) == bus,
{
    reveal(BusState::after_write);
}

/// Whether `b` is one of the bytes of the unit at `base`.
#[verifier::opaque]
pub open spec fn unit_holds(word: bool, base: u32, b: u32) -> bool {
    ||| same_cell(base, b)
    ||| same_cell((base + 1) as u32, b)
    ||| word && same_cell((base + 2) as u32, b)
    ||| word && same_cell((base + 3) as u32, b)
}

proof fn lemma_store16(bus: BusState, a: u32, value: u16, b: u32)
    requires
        bus.wf(),
        is_ram(a),
    ensures
        ({
            let base = (a - a % 2) as u32;
            let after = bus.store16(a, value);
            &&& is_ram(base)
            &&& after.read16(base) == value
            &&& after.read8(base) == value % 0x100
            &&& after.read8((base + 1) as u32) == value / 0x100
            &&& !unit_holds(false, base, b) ==> after.read8(b) == bus.read8(b)
            &&& after.wf()
        }),
{
    reveal(unit_holds);
    let base = (a - a % 2) as u32;
    let next = (base + 1) as u32;
    assert(next / 0x100_0000 == base / 0x100_0000 == a / 0x100_0000);
    lemma_neighbours(base);
    lemma_own_cell(base);
    lemma_own_cell(next);
    let low = bus.write8(base, (value % 0x100) as u8);
    law_ram_keeps_bytes(bus, base, (value % 0x100) as u8, base);
    law_ram_keeps_bytes(bus, base, (value % 0x100) as u8, b);
    law_ram_keeps_bytes(low, next, (value / 0x100) as u8, next);
    law_ram_keeps_bytes(low, next, (value / 0x100) as u8, base);
    law_ram_keeps_bytes(low, next, (value / 0x100) as u8, b);
}

/// The bytes of an aligned word lie one after the other in one region.
proof fn lemma_cell_offset(base: u32, i: int)
    requires
        is_ram(base),
        base % 4 == 0,
        0 <= i < 4,
    ensures
        is_ram((base + i) as u32),
        (base + i) as u32 / 0x100_0000 == base / 0x100_0000,
        cell((base + i) as u32) == cell(base) + i,
{
    let k = i as u32;
    assert((base | k) == base + k && (base | k) / 0x100_0000 == base / 0x100_0000 && (base | k)
        % 0x4_0000 == base % 0x4_0000 + k && (base | k) % 0x8000 == base % 0x8000 + k && (base | k)
        % 0x400 == base % 0x400 + k && (base | k) % 0x2_0000 == base % 0x2_0000 + k && base
        % 0x2_0000 % 4 == 0) by (bit_vector)
        requires
            base % 4 == 0,
            k < 4,
    ;
}

/// The bytes of an aligned pair are distinct bytes of one region.
proof fn lemma_neighbours(base: u32)
    requires
        is_ram(base),
        base % 2 == 0,
    ensures
        is_ram((base + 1) as u32),
        !same_cell(base, (base + 1) as u32),
        !same_cell((base + 1) as u32, base),
{
    reveal(same_cell);
    let word = (base - base % 4) as u32;
    assert(word / 0x100_0000 == base / 0x100_0000);
    lemma_cell_offset(word, (base % 4) as int);
    lemma_cell_offset(word, base % 4 + 1);
}

/// The bytes of an aligned word are distinct bytes of one region.
proof fn lemma_word_neighbours(base: u32, i: int, j: int)
    requires
        is_ram(base),
        base % 4 == 0,
        0 <= i < 4,
        0 <= j < 4,
        i != j,
    ensures
        is_ram((base + i) as u32),
        !same_cell((base + i) as u32, (base + j) as u32),
{
    reveal(same_cell);
    lemma_cell_offset(base, i);
    lemma_cell_offset(base, j);
}

/// An address of RAM stands for its own byte.
pub proof fn lemma_own_cell(a: u32)
    requires
        is_ram(a),
    ensures
        same_cell(a, a),
{
    reveal(same_cell);
}

proof fn lemma_store32(bus: BusState, a: u32, value: u32, b: u32)
    requires
        bus.wf(),
        is_ram(a),
    ensures
        ({
            let base = (a - a % 4) as u32;
            let after = bus.store32(a, value);
            &&& is_ram(base)
            &&& after.read32(base) == value
            &&& forall|k: int|
                0 <= k < 4 ==> #[trigger] after.read8((base + k) as u32) == crate::bits::byte_of(
                    value,
                    k,
                )
            &&& !unit_holds(true, base, b) ==> after.read8(b) == bus.read8(b)
            &&& after.wf()
        }),
{
    reveal(unit_holds);
    let base = (a - a % 4) as u32;
    assert(base / 0x100_0000 == a / 0x100_0000);
    let s1 = bus.write8(base, crate::bits::byte_of(value, 0));
    let s2 = s1.write8((base + 1) as u32, crate::bits::byte_of(value, 1));
    let s3 = s2.write8((base + 2) as u32, crate::bits::byte_of(value, 2));
    let s4 = s3.write8((base + 3) as u32, crate::bits::byte_of(value, 3));
    lemma_word_neighbours(base, 1, 0);
    lemma_word_neighbours(base, 2, 0);
    lemma_word_neighbours(base, 3, 0);
    law_ram_keeps_bytes(bus, base, crate::bits::byte_of(value, 0), b);
    law_ram_keeps_bytes(s1, (base + 1) as u32, crate::bits::byte_of(value, 1), b);
    law_ram_keeps_bytes(s2, (base + 2) as u32, crate::bits::byte_of(value, 2), b);
    law_ram_keeps_bytes(s3, (base + 3) as u32, crate::bits::byte_of(value, 3), b);
    assert forall|k: int| 0 <= k < 4 implies #[trigger] s4.read8((base + k) as u32)
        == crate::bits::byte_of(value, k) by {
        let at = (base + k) as u32;
        lemma_cell_offset(base, k);
        lemma_own_cell(at);
        if k != 1 {
            lemma_word_neighbours(base, 1, k);
        }
        if k != 2 {
            lemma_word_neighbours(base, 2, k);
        }
        if k != 3 {
            lemma_word_neighbours(base, 3, k);
        }
        if k != 0 {
            lemma_word_neighbours(base, k, 0);
        }
        law_ram_keeps_bytes(bus, base, crate::bits::byte_of(value, 0), at);
        law_ram_keeps_bytes(s1, (base + 1) as u32, crate::bits::byte_of(value, 1), at);
        law_ram_keeps_bytes(s2, (base + 2) as u32, crate::bits::byte_of(value, 2), at);
        law_ram_keeps_bytes(s3, (base + 3) as u32, crate::bits::byte_of(value, 3), at);
    }
    assert(s4.read8((base + 0) as u32) == crate::bits::byte_of(value, 0));
    assert(s4.read8((base + 1) as u32) == crate::bits::byte_of(value, 1));
    assert(s4.read8((base + 2) as u32) == crate::bits::byte_of(value, 2));
    assert(s4.read8((base + 3) as u32) == crate::bits::byte_of(value, 3));
    assert(s4 == bus.store32(a, value));
}

/// A word or a halfword of memory.
pub open spec fn unit_at(bus: BusState, word: bool, addr: u32) -> u32 {
    if word {
        bus.read32(addr)
    } else {
        bus.read16(addr) as u32
    }
}

/// Whether an address is aligned to a unit.
pub open spec fn unit_aligned(word: bool, addr: u32) -> bool {
    if word {
        addr % 4 == 0
    } else {
        addr % 2 == 0
    }
}

/// Whether the unit at `a` has no byte in common with the unit at `dst`.
pub open spec fn apart(word: bool, dst: u32, a: u32) -> bool {
    forall|b: u32| unit_reaches(word, a, b) ==> !#[trigger] unit_holds(word, dst, b)
}

/// Whether `b` is the address of a byte of the unit at `base`.
pub open spec fn unit_reaches(word: bool, base: u32, b: u32) -> bool {
    base <= b < base + if word {
        4int
    } else {
        2int
    }
}

/// Where unit `k` of a transfer comes from.
#[verifier::opaque]
pub open spec fn source_of(t: DmaTransfer, k: int) -> u32 {
    crate::bus::stepped(t.src, t.src_step as int, k)
}

/// Where unit `k` of a transfer goes to.
#[verifier::opaque]
pub open spec fn target_of(t: DmaTransfer, k: int) -> u32 {
    crate::bus::stepped(t.dst, t.dst_step as int, k)
}

/// Whether the first `n` units of a transfer go to RAM, to distinct places,
/// none of which is a source.
pub open spec fn is_plain_copy(t: DmaTransfer, n: nat) -> bool {
    &&& forall|k: int|
        0 <= k < n ==> is_ram(#[trigger] target_of(t, k)) && unit_aligned(t.word, target_of(t, k))
    &&& forall|k: int| 0 <= k < n ==> unit_aligned(t.word, #[trigger] source_of(t, k))
    &&& forall|j: int, k: int|
        0 <= j < n && 0 <= k < n ==> #[trigger] apart(t.word, target_of(t, j), source_of(t, k))
    &&& forall|j: int, k: int|
        0 <= j < n && 0 <= k < n && j != k ==> #[trigger] apart(
            t.word,
            target_of(t, j),
            target_of(t, k),
        )
}

/// Whether memory after the first `n` units of a transfer is memory before it
/// with each unit copied.
pub open spec fn is_copied(before: BusState, after: BusState, t: DmaTransfer, n: nat) -> bool {
    &&& forall|k: int|
        0 <= k < n ==> unit_at(after, t.word, #[trigger] target_of(t, k)) == unit_at(
            before,
            t.word,
            source_of(t, k),
        )
    &&& forall|b: u32|
        !in_targets(t, n, b) ==> #[trigger] after.read8(b) == before.read8(b)
}

/// Whether `b` is one of the bytes that the first `n` units go to.
pub open spec fn in_targets(t: DmaTransfer, n: nat, b: u32) -> bool {
    exists|k: int| 0 <= k < n && #[trigger] unit_holds(t.word, target_of(t, k), b)
}

/// A transfer copies: when its units go to distinct places in RAM that are no
/// sources, each of them holds afterwards what its source held before, and no
/// other byte changes.
pub proof fn law_transfer_copies(bus: BusState, t: DmaTransfer, n: nat)
    requires
        bus.wf(),
        is_plain_copy(t, n),
    ensures
        bus.dma_copy(t, n).wf(),
        is_copied(bus, bus.dma_copy(t, n), t, n),
    decreases n,
{
    if n > 0 {
        let m = (n - 1) as nat;
        assert(is_plain_copy(t, m));
        law_transfer_copies(bus, t, m);
        let before = bus.dma_copy(t, m);
        let value = unit_at(bus, t.word, source_of(t, m as int));
        lemma_source_is_untouched(bus, before, t, m);
        reveal(source_of);
        reveal(target_of);
        assert(bus.dma_copy(t, n) == if t.word {
            before.store32(target_of(t, m as int), value)
        } else {
            before.store16(target_of(t, m as int), value as u16)
        });
        lemma_unit_is_copied(bus, before, bus.dma_copy(t, n), t, m);
    }
}

proof fn lemma_source_is_untouched(bus: BusState, before: BusState, t: DmaTransfer, m: nat)
    requires
        is_plain_copy(t, m + 1),
        is_copied(bus, before, t, m),
    ensures
        unit_at(before, t.word, source_of(t, m as int)) == unit_at(
            bus,
            t.word,
            source_of(t, m as int),
        ),
{
    let src = source_of(t, m as int);
    assert forall|a: u32| unit_reaches(t.word, src, a) implies bus.read8(a)
        == #[trigger] before.read8(a) by {
        assert forall|k: int| 0 <= k < m implies !#[trigger] unit_holds(
            t.word,
            target_of(t, k),
            a,
        ) by {
            assert(apart(t.word, target_of(t, k), src));
        }
        assert(!in_targets(t, m, a));
    }
    lemma_same_unit(bus, before, t.word, src);
}

proof fn lemma_unit_is_copied(
    bus: BusState,
    before: BusState,
    after: BusState,
    t: DmaTransfer,
    m: nat,
)
    requires
        before.wf(),
        is_plain_copy(t, m + 1),
        is_copied(bus, before, t, m),
        ({
            let value = unit_at(bus, t.word, source_of(t, m as int));
            after == if t.word {
                before.store32(target_of(t, m as int), value)
            } else {
                before.store16(target_of(t, m as int), value as u16)
            }
        }),
    ensures
        after.wf(),
        is_copied(bus, after, t, m + 1),
{
    let dst = target_of(t, m as int);
    let value = unit_at(bus, t.word, source_of(t, m as int));
    assert forall|b: u32| !unit_holds(t.word, dst, b) implies #[trigger] after.read8(b)
        == before.read8(b) by {
        lemma_store_unit(before, t.word, dst, value, b);
    }
    lemma_store_unit(before, t.word, dst, value, dst);
    assert forall|k: int| 0 <= k < m + 1 implies unit_at(after, t.word, #[trigger] target_of(t, k))
        == unit_at(bus, t.word, source_of(t, k)) by {
        if k < m {
            let a = target_of(t, k);
            assert(apart(t.word, dst, a));
            assert forall|b: u32| unit_reaches(t.word, a, b) implies before.read8(b)
                == #[trigger] after.read8(b) by {
                assert(!unit_holds(t.word, dst, b));
            }
            lemma_same_unit(before, after, t.word, a);
        }
    }
    assert forall|b: u32| !in_targets(t, m + 1, b) implies #[trigger] after.read8(b) == bus.read8(
        b,
    ) by {
        assert(!unit_holds(t.word, target_of(t, m as int), b));
        assert(!in_targets(t, m, b));
    }
}

/// Memories that agree on the bytes of a unit agree on the unit.
proof fn lemma_same_unit(x: BusState, y: BusState, word: bool, base: u32)
    requires
        unit_aligned(word, base),
        forall|a: u32| unit_reaches(word, base, a) ==> x.read8(a) == #[trigger] y.read8(a),
    ensures
        unit_at(x, word, base) == unit_at(y, word, base),
{
    assert(x.read8(base) == y.read8(base));
    assert(x.read8((base + 1) as u32) == y.read8((base + 1) as u32));
    if word {
        assert(x.read8((base + 2) as u32) == y.read8((base + 2) as u32));
        assert(x.read8((base + 3) as u32) == y.read8((base + 3) as u32));
    }
}

proof fn lemma_store_unit(bus: BusState, word: bool, dst: u32, value: u32, b: u32)
    requires
        bus.wf(),
        is_ram(dst),
        unit_aligned(word, dst),
        word || value < 0x1_0000,
    ensures
        ({
            let after = if word {
                bus.store32(dst, value)
            } else {
                bus.store16(dst, value as u16)
            };
            &&& unit_at(after, word, dst) == value
            &&& !unit_holds(word, dst, b) ==> after.read8(b) == bus.read8(b)
            &&& after.wf()
        }),
{
    if word {
        lemma_store32(bus, dst, value, b);
    } else {
        lemma_store16(bus, dst, value as u16, b);
    }
}

/// The end of a transfer is not seen in memory: it differs from the copy in the
/// registers of the devices only.
pub proof fn law_transfer_end_leaves_memory(bus: BusState, ch: int, b: u32)
    requires
        0 <= ch < 4,
        is_ram(b) || is_read_only(b),
    ensures
        ({
            let t = bus.dma.plan(ch);
            let started = BusState {
                dma: DmaState { running: true, ..bus.dma },
                ..bus
            };
            bus.run_dma(ch).read8(b) == started.dma_copy(t, t.count as nat).read8(b)
        }),
{
    reveal(BusState::read8);
}

/// Whether nothing happened in channel `ch` since it was last looked at.
pub open spec fn is_quiet(dma: DmaState, ch: int) -> bool {
    dma.latch[ch] == bit16(dma.control(ch), 15)
}

/// A channel whose enable bit just rose carries out its transfer, and only
/// that: the other channels and their registers stay as they are, and the
/// channel is disabled afterwards.
pub proof fn law_armed_channel_runs(bus: BusState, ch: int)
    requires
        bus.wf(),
        bus.dma.triggers(ch),
        forall|c: int| 0 <= c < 4 && c != ch ==> #[trigger] is_quiet(bus.dma, c),
        is_plain_copy(bus.dma.plan(ch), bus.dma.plan(ch).count as nat),
    ensures
        ({
            let armed = BusState { dma: bus.dma.latched(ch), ..bus };
            let after = bus.poll_channels(0);
            &&& after == armed.run_dma(ch)
            &&& !bit16(after.dma.control(ch), 15)
            &&& forall|c: int| 0 <= c < 4 ==> #[trigger] is_quiet(after.dma, c)
            &&& forall|c: int|
                0 <= c < 4 && c != ch ==> #[trigger] after.dma.control(c) == bus.dma.control(c)
        }),
{
    let armed = BusState { dma: bus.dma.latched(ch), ..bus };
    let t = bus.dma.plan(ch);
    assert(armed.dma.plan(ch) == t);
    let started = BusState { dma: DmaState { running: true, ..armed.dma }, ..armed };
    let copied = started.dma_copy(t, t.count as nat);
    lemma_copy_leaves_dma(started, t, t.count as nat);
    let done = armed.run_dma(ch);
    let idle = DmaState { running: false, ..copied.dma };
    assert(done.dma == idle.finish_immediate(ch));
    assert(idle.wf());
    crate::dma::law_trigger_is_an_edge(idle, ch);
    assert forall|c: int| 0 <= c < 4 && c != ch implies #[trigger] is_quiet(done.dma, c)
        && done.dma.control(c) == bus.dma.control(c) by {
        assert(is_quiet(bus.dma, c));
        assert(done.dma.regs[c * 12 + 10] == bus.dma.regs[c * 12 + 10]);
        assert(done.dma.regs[c * 12 + 11] == bus.dma.regs[c * 12 + 11]);
    }
    lemma_quiet_channels_skip(bus, 0, ch);
    assert(bus.poll_channels(ch) == done.poll_channels(ch + 1));
    lemma_quiet_channels_skip(done, ch + 1, 4);
    assert(done.poll_channels(4) == done);
}

/// Polling passes over quiet channels.
proof fn lemma_quiet_channels_skip(bus: BusState, from: int, to: int)
    requires
        bus.dma.wf(),
        0 <= from <= to <= 4,
        forall|c: int| from <= c < to ==> #[trigger] is_quiet(bus.dma, c),
    ensures
        bus.poll_channels(from) == bus.poll_channels(to),
    decreases to - from,
{
    if from < to {
        assert(is_quiet(bus.dma, from));
        assert(bus.dma.latched(from) =~= bus.dma);
        assert((BusState { dma: bus.dma.latched(from), ..bus }) == bus);
        lemma_quiet_channels_skip(bus, from + 1, to);
    }
}

proof fn lemma_copy_leaves_dma(bus: BusState, t: DmaTransfer, n: nat)
    requires
        is_plain_copy(t, n),
    ensures
        bus.dma_copy(t, n).dma == bus.dma,
    decreases n,
{
    if n > 0 {
        let m = (n - 1) as nat;
        assert(is_plain_copy(t, m));
        lemma_copy_leaves_dma(bus, t, m);
        let before = bus.dma_copy(t, m);
        let dst = target_of(t, m as int);
        assert(is_ram(dst) && unit_aligned(t.word, dst));
        reveal(source_of);
        reveal(target_of);
        if t.word {
            lemma_store32_leaves_dma(before, dst, before.read32(source_of(t, m as int)));
        } else {
            lemma_store16_leaves_dma(before, dst, before.read16(source_of(t, m as int)));
        }
    }
}

proof fn lemma_store32_leaves_dma(bus: BusState, dst: u32, value: u32)
    requires
        is_ram(dst),
        dst % 4 == 0,
    ensures
        bus.store32(dst, value).dma == bus.dma,
{
    lemma_cell_offset(dst, 1);
    lemma_cell_offset(dst, 2);
    lemma_cell_offset(dst, 3);
    reveal(BusState::write8);
}

proof fn lemma_store16_leaves_dma(bus: BusState, dst: u32, value: u16)
    requires
        is_ram(dst),
        dst % 2 == 0,
    ensures
        bus.store16(dst, value).dma == bus.dma,
{
    lemma_neighbours(dst);
    reveal(BusState::write8);
}

/// Handing out the due events has one outcome.
pub proof fn law_drain_has_one_outcome(bus: BusState, x: BusState, y: BusState)
    requires
        bus.drains_to(x),
        bus.drains_to(y),
    ensures
        x == y,
{
    let m = choose|n: nat| #[trigger] bus.drains_in(n, x);
    let n = choose|n: nat| #[trigger] bus.drains_in(n, y);
    if m < n {
        assert(bus.delivered_n(m).sched.due());
    } else if n < m {
        assert(bus.delivered_n(n).sched.due());
    }
}

} // verus!

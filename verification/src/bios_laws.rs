//! What the built-in BIOS promises as a whole: block copies copy, resets clear
//! what they are asked to, and decompression gives what the header declares.

use vstd::prelude::*;

use crate::bits::bit;
use crate::bios_memory::MAX_DECOMP_BYTES;
use crate::bios_unpack::Stream;
use crate::bus::{
    BusState, EWRAM_SIZE, EWRAM_START, IWRAM_SIZE, IWRAM_START, OAM_SIZE, OAM_START, PRAM_SIZE,
    PRAM_START, VRAM_SIZE, VRAM_START,
};
use crate::dma::DmaTransfer;

verus! {

/// The transfer that a block copy or fill stands for.
pub open spec fn block_transfer(src: u32, dst: u32, word: bool, fixed: bool) -> DmaTransfer {
    let unit = if word {
        4i32
    } else {
        2i32
    };
    DmaTransfer {
        src,
        dst,
        count: 0,
        word,
        src_step: if fixed {
            0
        } else {
            unit
        },
        dst_step: unit,
    }
}

/// A block copy or fill within RAM is a transfer: when its units go to distinct
/// places that are no sources, each of them holds afterwards what its source
/// held before, and no other byte changes.
pub proof fn law_block_set_copies(
    bus: BusState,
    src: u32,
    dst: u32,
    word: bool,
    fixed: bool,
    n: nat,
)
    requires
        bus.wf(),
        crate::memory_laws::is_plain_copy(block_transfer(src, dst, word, fixed), n),
    ensures
        crate::memory_laws::is_copied(
            bus,
            bus.block_set(src, dst, word, fixed, n),
            block_transfer(src, dst, word, fixed),
            n,
        ),
{
    lemma_block_set_is_a_transfer(bus, src, dst, word, fixed, n);
    crate::memory_laws::law_transfer_copies(bus, block_transfer(src, dst, word, fixed), n);
}

proof fn lemma_block_set_is_a_transfer(
    bus: BusState,
    src: u32,
    dst: u32,
    word: bool,
    fixed: bool,
    n: nat,
)
    requires
        crate::memory_laws::is_plain_copy(block_transfer(src, dst, word, fixed), n),
    ensures
        bus.block_set(src, dst, word, fixed, n) == bus.dma_copy(
            block_transfer(src, dst, word, fixed),
            n,
        ),
    decreases n,
{
    if n > 0 {
        let t = block_transfer(src, dst, word, fixed);
        let k = (n - 1) as nat;
        assert(crate::memory_laws::is_plain_copy(t, k));
        lemma_block_set_is_a_transfer(bus, src, dst, word, fixed, k);
        let to = crate::memory_laws::target_of(t, k as int);
        assert(crate::memory_laws::is_ram(to));
        assert(crate::memory_laws::unit_aligned(word, to));
        reveal(crate::memory_laws::target_of);
        let from = if fixed {
            src
        } else {
            crate::bus::stepped(src, t.src_step as int, k as int)
        };
        assert(from == crate::bus::stepped(t.src, t.src_step as int, k as int)) by {
            assert(k * 0 == 0);
        }
        let before = bus.block_set(src, dst, word, fixed, k);
        if word {
            crate::memory_laws::lemma_ram_write_starts_nothing(
                before.store32(to, before.read32(from)),
                to,
                4,
            );
        } else {
            crate::memory_laws::lemma_ram_write_starts_nothing(
                before.store16(to, before.read16(from)),
                to,
                2,
            );
        }
    }
}

/// Whether `b` is one of the `n` bytes from `start` on.
pub open spec fn in_run(start: u32, n: nat, b: u32) -> bool {
    exists|k: int|
        0 <= k < n && #[trigger] crate::memory_laws::same_cell(
            crate::bus::stepped(start, 1, k),
            b,
        )
}

/// Whether the `n` bytes from `start` on lie in RAM.
pub open spec fn run_in_ram(start: u32, n: nat) -> bool {
    forall|k: int|
        0 <= k < n ==> #[trigger] crate::memory_laws::is_ram(crate::bus::stepped(start, 1, k))
}

/// Clearing a run of RAM makes its bytes zero and changes no other byte.
pub proof fn law_cleared(bus: BusState, start: u32, n: nat, b: u32)
    requires
        bus.wf(),
        run_in_ram(start, n),
    ensures
        bus.cleared(start, n).wf(),
        bus.cleared(start, n).read8(b) == if in_run(start, n, b) {
            0
        } else {
            bus.read8(b)
        },
    decreases n,
{
    if n > 0 {
        let m = (n - 1) as nat;
        law_cleared(bus, start, m, b);
        let at = crate::bus::stepped(start, 1, n - 1);
        assert(crate::memory_laws::is_ram(at));
        crate::memory_laws::law_ram_keeps_bytes(bus.cleared(start, m), at, 0, b);
        if crate::memory_laws::same_cell(at, b) {
            assert(in_run(start, n, b));
        } else {
            assert(in_run(start, n, b) == in_run(start, m, b));
        }
    }
}

/// Whether a reset with these flags clears the byte of RAM at `b`. Internal
/// work RAM keeps its last 0x200 bytes.
pub open spec fn reset_clears(flags: u32, b: u32) -> bool {
    match b / 0x100_0000 {
        0x02 => bit(flags, 0),
        0x03 => bit(flags, 1) && crate::memory_laws::cell(b) < IWRAM_SIZE - 0x200,
        0x05 => bit(flags, 2),
        0x06 => bit(flags, 3),
        0x07 => bit(flags, 4),
        _ => false,
    }
}

/// A reset clears the RAM that it is asked to clear, and nothing else.
pub proof fn law_ram_reset_clears_what_is_asked(bus: BusState, flags: u32, b: u32)
    requires
        bus.wf(),
    ensures
        bus.ram_reset(flags).read8(b) == if reset_clears(flags, b) {
            0
        } else {
            bus.read8(b)
        },
        bus.ram_reset(flags).wf(),
{
    let s1 = bus.cleared_if(bit(flags, 0), EWRAM_START, EWRAM_SIZE as nat);
    let s2 = s1.cleared_if(bit(flags, 1), IWRAM_START, (IWRAM_SIZE - 0x200) as nat);
    let s3 = s2.cleared_if(bit(flags, 2), PRAM_START, PRAM_SIZE as nat);
    let s4 = s3.cleared_if(bit(flags, 3), VRAM_START, VRAM_SIZE as nat);
    lemma_region_cleared(bus, EWRAM_START, EWRAM_SIZE as nat, b);
    lemma_region_cleared(s1, IWRAM_START, (IWRAM_SIZE - 0x200) as nat, b);
    lemma_region_cleared(s2, PRAM_START, PRAM_SIZE as nat, b);
    lemma_region_cleared(s3, VRAM_START, VRAM_SIZE as nat, b);
    lemma_region_cleared(s4, OAM_START, OAM_SIZE as nat, b);
    lemma_cell_bounds(b);
}

proof fn lemma_cell_bounds(b: u32)
    ensures
        b / 0x100_0000 == 2 ==> crate::memory_laws::cell(b) < EWRAM_SIZE,
        b / 0x100_0000 == 5 ==> crate::memory_laws::cell(b) < PRAM_SIZE,
        b / 0x100_0000 == 6 ==> crate::memory_laws::cell(b) < VRAM_SIZE,
        b / 0x100_0000 == 7 ==> crate::memory_laws::cell(b) < OAM_SIZE,
{
}

/// Clearing the first `n` bytes of a region clears its cells below `n`.
proof fn lemma_region_cleared(bus: BusState, start: u32, n: nat, b: u32)
    requires
        bus.wf(),
        crate::memory_laws::is_ram(start),
        start % 0x100_0000 == 0,
        n <= region_size(start),
    ensures
        bus.cleared(start, n).wf(),
        bus.cleared(start, n).read8(b) == if b / 0x100_0000 == start / 0x100_0000
            && crate::memory_laws::cell(b) < n {
            0
        } else {
            bus.read8(b)
        },
{
    assert forall|k: int| 0 <= k < n implies {
        let at = #[trigger] crate::bus::stepped(start, 1, k);
        &&& at == start + k
        &&& crate::memory_laws::is_ram(at)
        &&& at / 0x100_0000 == start / 0x100_0000
        &&& crate::memory_laws::cell(at) == k
    } by {
        assert(start + k < 0x1_0000_0000);
    }
    assert forall|k: int| 0 <= k < n implies #[trigger] crate::memory_laws::is_ram(
        crate::bus::stepped(start, 1, k),
    ) by {
        assert(crate::bus::stepped(start, 1, k) == start + k);
    }
    law_cleared(bus, start, n, b);
    reveal(crate::memory_laws::same_cell);
    let c = crate::memory_laws::cell(b);
    if b / 0x100_0000 == start / 0x100_0000 && c < n {
        lemma_cell_is_not_negative(b);
        assert(crate::bus::stepped(start, 1, c) == start + c);
        assert(crate::memory_laws::same_cell(crate::bus::stepped(start, 1, c), b));
        assert(in_run(start, n, b));
    } else if in_run(start, n, b) {
        let k = choose|k: int|
            0 <= k < n && #[trigger] crate::memory_laws::same_cell(
                crate::bus::stepped(start, 1, k),
                b,
            );
        assert(crate::bus::stepped(start, 1, k) == start + k);
    }
}

proof fn lemma_cell_is_not_negative(b: u32)
    ensures
        crate::memory_laws::cell(b) >= 0,
{
}

/// Bytes of RAM in the region of an address.
pub open spec fn region_size(addr: u32) -> nat {
    match addr / 0x100_0000 {
        0x02 => EWRAM_SIZE as nat,
        0x03 => IWRAM_SIZE as nat,
        0x06 => VRAM_SIZE as nat,
        _ => PRAM_SIZE as nat,
    }
}

/// Bytes that are written to a run of RAM without overlap are there afterwards.
pub proof fn law_flushed_bytes_arrive(bus: BusState, dst: u32, data: Seq<u8>)
    requires
        bus.wf(),
        run_in_ram(dst, data.len()),
        forall|j: int, k: int|
            0 <= j < k < data.len() ==> !#[trigger] crate::memory_laws::same_cell(
                crate::bus::stepped(dst, 1, k),
                crate::bus::stepped(dst, 1, j),
            ),
    ensures
        forall|k: int|
            0 <= k < data.len() ==> bus.flushed(dst, data, false).read8(
                #[trigger] crate::bus::stepped(dst, 1, k),
            ) == data[k],
{
    lemma_flushed_bytes(bus, dst, data, data.len());
}

proof fn lemma_flushed_bytes(bus: BusState, dst: u32, data: Seq<u8>, n: nat)
    requires
        bus.wf(),
        n <= data.len(),
        run_in_ram(dst, n),
        forall|j: int, k: int|
            0 <= j < k < n ==> !#[trigger] crate::memory_laws::same_cell(
                crate::bus::stepped(dst, 1, k),
                crate::bus::stepped(dst, 1, j),
            ),
    ensures
        bus.flushed_bytes(dst, data, n).wf(),
        forall|k: int|
            0 <= k < n ==> bus.flushed_bytes(dst, data, n).read8(
                #[trigger] crate::bus::stepped(dst, 1, k),
            ) == data[k],
    decreases n,
{
    if n > 0 {
        let m = (n - 1) as nat;
        lemma_flushed_bytes(bus, dst, data, m);
        let at = crate::bus::stepped(dst, 1, n - 1);
        let before = bus.flushed_bytes(dst, data, m);
        assert(crate::memory_laws::is_ram(at));
        crate::memory_laws::law_ram_keeps_bytes(before, at, data[n - 1], at);
        crate::memory_laws::lemma_own_cell(at);
        assert forall|k: int| 0 <= k < n implies bus.flushed_bytes(dst, data, n).read8(
            #[trigger] crate::bus::stepped(dst, 1, k),
        ) == data[k] by {
            if k < m {
                let a = crate::bus::stepped(dst, 1, k);
                assert(!crate::memory_laws::same_cell(at, a));
                crate::memory_laws::law_ram_keeps_bytes(before, at, data[n - 1], a);
            }
        }
    }
}

/// Decompression is bounded by what the header declares, and never by more than
/// 4 MiB: LZ77 and run-length streams give exactly that many bytes, differences
/// of bytes too, differences of halfwords the whole halfwords of it, and a
/// Huffman stream at most one byte more.
pub proof fn law_decompressed_sizes(bus: BusState, src: u32)
    ensures
        bus.declared_size(src) <= MAX_DECOMP_BYTES,
        crate::bios_unpack::lz77_output(bus, src).len() == bus.declared_size(src),
        crate::bios_unpack::rl_output(bus, src).len() == bus.declared_size(src),
        crate::bios_unpack::diff_output(bus, src, false).len() == bus.declared_size(src),
        crate::bios_unpack::diff_output(bus, src, true).len() == bus.declared_size(src) / 2 * 2,
        crate::bios_unpack::huffman_output(bus, src).len() <= bus.declared_size(src) + 1,
{
    let size = bus.declared_size(src);
    let start = Stream { at: src.wrapping_add(4), out: Seq::empty() };
    lemma_lz77_groups_len(bus, start, size, size as nat);
    lemma_rl_blocks_len(bus, start, size, size as nat);
    let tree = src.wrapping_add(4);
    lemma_huffman_len(
        bus,
        tree.wrapping_add(1),
        tree.wrapping_add(((bus.read8(tree) + 1) * 2) as u32),
        bus.read32(src) % 16,
        size,
        (32 * crate::bios_unpack::huffman_word_limit(size)) as nat,
    );
}

proof fn lemma_copied_back_len(out: Seq<u8>, distance: int, n: nat)
    ensures
        crate::bios_unpack::copied_back(out, distance, n).len() == out.len() + n,
    decreases n,
{
    if n > 0 {
        lemma_copied_back_len(out, distance, (n - 1) as nat);
    }
}

proof fn lemma_lz77_items_len(b: BusState, s: Stream, size: int, flags: u8, i: nat)
    requires
        s.out.len() < size,
    ensures
        ({
            let len = crate::bios_unpack::lz77_items(b, s, size, flags, i).out.len();
            &&& len <= size
            &&& i > 0 ==> len > s.out.len()
        }),
    decreases i,
{
    if i > 0 {
        lemma_lz77_items_len(b, s, size, flags, (i - 1) as nat);
        let before = crate::bios_unpack::lz77_items(b, s, size, flags, (i - 1) as nat);
        if before.out.len() < size {
            let b0 = b.read8(before.at);
            let b1 = b.read8(before.at.wrapping_add(1));
            lemma_copied_back_len(
                before.out,
                (b0 % 16) * 0x100 + b1 + 1,
                crate::bios_unpack::lesser(b0 / 16 + 3, size - before.out.len()) as nat,
            );
        }
    }
}

proof fn lemma_lz77_groups_len(b: BusState, s: Stream, size: int, n: nat)
    requires
        s.out.len() == 0,
        size >= 0,
    ensures
        ({
            let len = crate::bios_unpack::lz77_groups(b, s, size, n).out.len();
            &&& len <= size
            &&& n <= size ==> len >= n
        }),
    decreases n,
{
    if n > 0 {
        lemma_lz77_groups_len(b, s, size, (n - 1) as nat);
        let before = crate::bios_unpack::lz77_groups(b, s, size, (n - 1) as nat);
        if before.out.len() < size {
            lemma_lz77_items_len(
                b,
                Stream { at: before.at.wrapping_add(1), ..before },
                size,
                b.read8(before.at),
                8,
            );
        }
    }
}

proof fn lemma_rl_blocks_len(b: BusState, s: Stream, size: int, n: nat)
    requires
        s.out.len() == 0,
        size >= 0,
    ensures
        ({
            let len = crate::bios_unpack::rl_blocks(b, s, size, n).out.len();
            &&& len <= size
            &&& n <= size ==> len >= n
        }),
    decreases n,
{
    if n > 0 {
        lemma_rl_blocks_len(b, s, size, (n - 1) as nat);
    }
}

proof fn lemma_huffman_len(
    b: BusState,
    root: u32,
    at: u32,
    data_bits: u32,
    size: int,
    t: nat,
)
    requires
        size >= 0,
        data_bits < 16,
    ensures
        ({
            let w = crate::bios_unpack::huffman_walk(b, root, at, data_bits, size, t);
            &&& w.out.len() <= size + 1
            &&& w.pending_bits < 8
        }),
    decreases t,
{
    if t > 0 {
        lemma_huffman_len(b, root, at, data_bits, size, (t - 1) as nat);
        reveal_with_fuel(crate::bios_unpack::with_whole_bytes, 4);
    }
}

} // verus!

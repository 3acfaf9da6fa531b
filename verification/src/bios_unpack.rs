//! Decompression functions of the built-in BIOS.
//!
//! All of them read a stream from memory and write the result to memory. A
//! stream is under the control of the program, so every read goes through the
//! bus and no result is longer than [`MAX_DECOMP_BYTES`] by more than the last
//! symbol.

use vstd::prelude::*;

use crate::bios_memory::{flush, MAX_DECOMP_BYTES};
use crate::bits::bit;
use crate::bus::{Bus, BusState};
use crate::cpu::{half_aligned, Cpu, Machine};

verus! {

/// A position in a stream and the bytes produced so far.
#[verifier::ext_equal]
pub struct Stream {
    /// Address of the next byte.
    pub at: u32,
    /// Bytes produced.
    pub out: Seq<u8>,
}

/// The smaller of two numbers.
pub open spec fn lesser(a: int, b: int) -> int {
    if a < b {
        a
    } else {
        b
    }
}

impl BusState {
    /// The size that the header at `src` declares, up to the limit.
    pub open spec fn declared_size(self, src: u32) -> int {
        lesser((self.read32(src) / 0x100) as int, MAX_DECOMP_BYTES as int)
    }
}

/// The size that the header at `src` declares, up to [`MAX_DECOMP_BYTES`].
pub fn decompressed_size(bus: &Bus, src: u32) -> (r: usize)
    ensures
        r == bus@.declared_size(src),
        r <= MAX_DECOMP_BYTES,
{
    let declared: usize = (bus.read_u32(src) / 0x100) as usize;
    if declared < MAX_DECOMP_BYTES {
        declared
    } else {
        MAX_DECOMP_BYTES
    }
}

/// `out` followed by `n` bytes, each a copy of the one `distance` bytes before
/// it. A distance that reaches before the first byte gives zero.
pub open spec fn copied_back(out: Seq<u8>, distance: int, n: nat) -> Seq<u8>
    decreases n,
{
    if n == 0 {
        out
    } else {
        let before = copied_back(out, distance, (n - 1) as nat);
        before.push(
            if before.len() >= distance {
                before[before.len() - distance]
            } else {
                0
            },
        )
    }
}

/// After one item of an LZ77 stream: a literal byte, or a reference of two
/// bytes that copies 3 to 18 bytes from 1 to 4096 bytes before.
pub open spec fn lz77_item(b: BusState, s: Stream, size: int, reference: bool) -> Stream {
    if reference {
        let b0 = b.read8(s.at);
        let b1 = b.read8(s.at.wrapping_add(1));
        let n = lesser(b0 / 16 + 3, size - s.out.len());
        Stream {
            at: s.at.wrapping_add(2),
            out: copied_back(s.out, (b0 % 16) * 0x100 + b1 + 1, n as nat),
        }
    } else {
        Stream { at: s.at.wrapping_add(1), out: s.out.push(b.read8(s.at)) }
    }
}

/// After the first `i` of the eight items that a flag byte announces, highest
/// bit first. Nothing is added to a complete result.
pub open spec fn lz77_items(b: BusState, s: Stream, size: int, flags: u8, i: nat) -> Stream
    decreases i,
{
    if i == 0 {
        s
    } else {
        let before = lz77_items(b, s, size, flags, (i - 1) as nat);
        if before.out.len() >= size {
            before
        } else {
            lz77_item(b, before, size, bit(flags as u32, (8 - i) as u32))
        }
    }
}

/// After the first `n` groups of a flag byte and its items.
pub open spec fn lz77_groups(b: BusState, s: Stream, size: int, n: nat) -> Stream
    decreases n,
{
    if n == 0 {
        s
    } else {
        let before = lz77_groups(b, s, size, (n - 1) as nat);
        if before.out.len() >= size {
            before
        } else {
            lz77_items(
                b,
                Stream { at: before.at.wrapping_add(1), ..before },
                size,
                b.read8(before.at),
                8,
            )
        }
    }
}

/// The bytes of the LZ77 stream at `src`. Each group adds at least one byte, so
/// as many groups as bytes are enough.
pub open spec fn lz77_output(b: BusState, src: u32) -> Seq<u8> {
    let size = b.declared_size(src);
    let start = Stream { at: src.wrapping_add(4), out: Seq::empty() };
    lz77_groups(b, start, size, size as nat).out
}

/// A complete result does not change with further groups.
pub(crate) proof fn lemma_lz77_complete(b: BusState, s: Stream, size: int, n: nat, m: nat)
    requires
        n <= m,
        lz77_groups(b, s, size, n).out.len() >= size,
    ensures
        lz77_groups(b, s, size, m) == lz77_groups(b, s, size, n),
    decreases m - n,
{
    if n < m {
        lemma_lz77_complete(b, s, size, n, (m - 1) as nat);
    }
}

/// Adds one item of an LZ77 stream.
fn lz77_read_item(bus: &Bus, sp: u32, out: &mut Vec<u8>, size: usize, reference: bool) -> (r: u32)
    requires
        old(out)@.len() < size,
    ensures
        (Stream { at: r, out: final(out)@ }) == lz77_item(
            bus@,
            Stream { at: sp, out: old(out)@ },
            size as int,
            reference,
        ),
        old(out)@.len() < final(out)@.len() <= size,
{
    if reference {
        let b0: u8 = bus.read_u8(sp);
        let b1: u8 = bus.read_u8(sp.wrapping_add(1));
        let distance: usize = (b0 % 16) as usize * 0x100 + b1 as usize + 1;
        let length: usize = (b0 / 16) as usize + 3;
        let room: usize = size - out.len();
        let n: usize = if length < room {
            length
        } else {
            room
        };
        let ghost start = out@;
        let mut i: usize = 0;
        while i < n
            invariant
                i <= n,
                distance >= 1,
                start.len() + n <= size,
                out@.len() == start.len() + i,
                out@ == copied_back(start, distance as int, i as nat),
            decreases n - i,
        {
            let len: usize = out.len();
            let byte: u8 = if len >= distance {
                out[len - distance]
            } else {
                0
            };
            out.push(byte);
            i = i + 1;
        }
        sp.wrapping_add(2)
    } else {
        out.push(bus.read_u8(sp));
        sp.wrapping_add(1)
    }
}

/// Decodes the LZ77 stream at `src`.
fn lz77_decode(bus: &Bus, src: u32) -> (r: Vec<u8>)
    ensures
        r@ == lz77_output(bus@, src),
        r@.len() <= MAX_DECOMP_BYTES,
{
    let size: usize = decompressed_size(bus, src);
    let mut out: Vec<u8> = Vec::new();
    let mut sp: u32 = src.wrapping_add(4);
    let ghost start = Stream { at: sp, out: out@ };
    let ghost mut n: nat = 0;
    assert(out@ =~= Seq::<u8>::empty());
    while out.len() < size
        invariant
            out@.len() <= size,
            n <= out@.len(),
            (Stream { at: sp, out: out@ }) == lz77_groups(bus@, start, size as int, n),
        decreases size - out@.len(),
    {
        let ghost before = Stream { at: sp, out: out@ };
        let flags: u8 = bus.read_u8(sp);
        sp = sp.wrapping_add(1);
        let ghost group = Stream { at: sp, out: out@ };
        let mut i: u32 = 0;
        while i < 8
            invariant
                i <= 8,
                group.out.len() < size,
                i > 0 ==> out@.len() > group.out.len(),
                out@.len() >= group.out.len(),
                out@.len() <= size,
                (Stream { at: sp, out: out@ }) == lz77_items(
                    bus@,
                    group,
                    size as int,
                    flags,
                    i as nat,
                ),
            decreases 8 - i,
        {
            if out.len() < size {
                let reference: bool = bit(flags as u32, 7 - i);
                sp = lz77_read_item(bus, sp, &mut out, size, reference);
            }
            i = i + 1;
        }
        proof {
            n = n + 1;
        }
    }
    proof {
        lemma_lz77_complete(bus@, start, size as int, n, size as nat);
    }
    out
}

/// `LZ77UnComp`: decompresses from `r0` to `r1`.
pub fn lz77(cpu: &mut Cpu, bus: &mut Bus, write16: bool)
    requires
        old(bus)@.wf(),
    ensures
        final(cpu)@ == old(cpu)@,
        final(bus)@ == old(bus)@.flushed(
            old(cpu)@.r[1],
            lz77_output(old(bus)@, old(cpu)@.r[0]),
            write16,
        ),
        final(bus)@.wf(),
{
    let out: Vec<u8> = lz77_decode(bus, cpu.reg(0));
    flush(bus, cpu.reg(1), &out, write16);
}

/// After one block of a run-length stream: a flag byte with bit 7 set repeats
/// the next byte 3 to 130 times, otherwise 1 to 128 bytes follow as they are.
pub open spec fn rl_block(b: BusState, s: Stream, size: int) -> Stream {
    let flag = b.read8(s.at);
    let first = s.at.wrapping_add(1);
    let room = size - s.out.len();
    if flag >= 0x80 {
        let n = lesser(flag % 0x80 + 3, room);
        Stream {
            at: first.wrapping_add(1),
            out: s.out + Seq::new(n as nat, |i: int| b.read8(first)),
        }
    } else {
        let n = lesser(flag % 0x80 + 1, room);
        Stream {
            at: first.wrapping_add(n as u32),
            out: s.out + Seq::new(n as nat, |i: int| b.read8(first.wrapping_add(i as u32))),
        }
    }
}

/// After the first `n` blocks.
pub open spec fn rl_blocks(b: BusState, s: Stream, size: int, n: nat) -> Stream
    decreases n,
{
    if n == 0 {
        s
    } else {
        let before = rl_blocks(b, s, size, (n - 1) as nat);
        if before.out.len() >= size {
            before
        } else {
            rl_block(b, before, size)
        }
    }
}

/// The bytes of the run-length stream at `src`.
pub open spec fn rl_output(b: BusState, src: u32) -> Seq<u8> {
    let size = b.declared_size(src);
    let start = Stream { at: src.wrapping_add(4), out: Seq::empty() };
    rl_blocks(b, start, size, size as nat).out
}

pub(crate) proof fn lemma_rl_complete(b: BusState, s: Stream, size: int, n: nat, m: nat)
    requires
        n <= m,
        rl_blocks(b, s, size, n).out.len() >= size,
    ensures
        rl_blocks(b, s, size, m) == rl_blocks(b, s, size, n),
    decreases m - n,
{
    if n < m {
        lemma_rl_complete(b, s, size, n, (m - 1) as nat);
    }
}

/// Adds one block of a run-length stream.
fn rl_read_block(bus: &Bus, sp: u32, out: &mut Vec<u8>, size: usize) -> (r: u32)
    requires
        old(out)@.len() < size,
    ensures
        (Stream { at: r, out: final(out)@ }) == rl_block(
            bus@,
            Stream { at: sp, out: old(out)@ },
            size as int,
        ),
        old(out)@.len() < final(out)@.len() <= size,
{
    let flag: u8 = bus.read_u8(sp);
    let first: u32 = sp.wrapping_add(1);
    let room: usize = size - out.len();
    let ghost start = out@;
    if flag >= 0x80 {
        let run: usize = (flag % 0x80) as usize + 3;
        let n: usize = if run < room {
            run
        } else {
            room
        };
        let byte: u8 = bus.read_u8(first);
        let mut i: usize = 0;
        while i < n
            invariant
                i <= n,
                out@ =~= start + Seq::new(i as nat, |k: int| byte),
            decreases n - i,
        {
            out.push(byte);
            i = i + 1;
        }
        assert(out@ =~= start + Seq::new(n as nat, |k: int| bus@.read8(first)));
        first.wrapping_add(1)
    } else {
        let run: usize = (flag % 0x80) as usize + 1;
        let n: usize = if run < room {
            run
        } else {
            room
        };
        let mut i: usize = 0;
        while i < n
            invariant
                i <= n <= 128,
                out@ =~= start + Seq::new(
                    i as nat,
                    |k: int| bus@.read8(first.wrapping_add(k as u32)),
                ),
            decreases n - i,
        {
            out.push(bus.read_u8(first.wrapping_add(i as u32)));
            i = i + 1;
        }
        first.wrapping_add(n as u32)
    }
}

/// Decodes the run-length stream at `src`.
fn rl_decode(bus: &Bus, src: u32) -> (r: Vec<u8>)
    ensures
        r@ == rl_output(bus@, src),
        r@.len() <= MAX_DECOMP_BYTES,
{
    let size: usize = decompressed_size(bus, src);
    let mut out: Vec<u8> = Vec::new();
    let mut sp: u32 = src.wrapping_add(4);
    let ghost start = Stream { at: sp, out: out@ };
    let ghost mut n: nat = 0;
    assert(out@ =~= Seq::<u8>::empty());
    while out.len() < size
        invariant
            out@.len() <= size,
            n <= out@.len(),
            (Stream { at: sp, out: out@ }) == rl_blocks(bus@, start, size as int, n),
        decreases size - out@.len(),
    {
        sp = rl_read_block(bus, sp, &mut out, size);
        proof {
            n = n + 1;
        }
    }
    proof {
        lemma_rl_complete(bus@, start, size as int, n, size as nat);
    }
    out
}

/// `RLUnComp`: decompresses from `r0` to `r1`.
pub fn rl(cpu: &mut Cpu, bus: &mut Bus, write16: bool)
    requires
        old(bus)@.wf(),
    ensures
        final(cpu)@ == old(cpu)@,
        final(bus)@ == old(bus)@.flushed(
            old(cpu)@.r[1],
            rl_output(old(bus)@, old(cpu)@.r[0]),
            write16,
        ),
        final(bus)@.wf(),
{
    let out: Vec<u8> = rl_decode(bus, cpu.reg(0));
    flush(bus, cpu.reg(1), &out, write16);
}

/// The sum of the first `n` bytes of a stream, modulo 2^8.
pub open spec fn byte_sum(b: BusState, at: u32, n: nat) -> u8
    decreases n,
{
    if n == 0 {
        0
    } else {
        let k = (n - 1) as nat;
        byte_sum(b, at, k).wrapping_add(b.read8(at.wrapping_add(k as u32)))
    }
}

/// The sum of the first `n` halfwords of a stream, modulo 2^16.
pub open spec fn half_sum(b: BusState, at: u32, n: nat) -> u16
    decreases n,
{
    if n == 0 {
        0
    } else {
        let k = (n - 1) as nat;
        half_sum(b, at, k).wrapping_add(b.read16(at.wrapping_add((2 * k) as u32)))
    }
}

/// The values of the stream of differences at `src`: each one is the sum of the
/// differences up to it.
pub open spec fn diff_output(b: BusState, src: u32, unit16: bool) -> Seq<u8> {
    let size = b.declared_size(src);
    let at = src.wrapping_add(4);
    if unit16 {
        Seq::new(
            (2 * (size / 2)) as nat,
            |i: int|
                {
                    let sum = half_sum(b, at, (i / 2 + 1) as nat);
                    if i % 2 == 0 {
                        (sum % 0x100) as u8
                    } else {
                        (sum / 0x100) as u8
                    }
                },
        )
    } else {
        Seq::new(size as nat, |i: int| byte_sum(b, at, (i + 1) as nat))
    }
}

/// Rebuilds the values of a stream of differences.
fn diff_decode(bus: &Bus, src: u32, unit16: bool) -> (r: Vec<u8>)
    ensures
        r@ == diff_output(bus@, src, unit16),
        r@.len() <= MAX_DECOMP_BYTES,
{
    let size: usize = decompressed_size(bus, src);
    let at: u32 = src.wrapping_add(4);
    let mut out: Vec<u8> = Vec::new();
    let mut i: usize = 0;
    if unit16 {
        let mut acc: u16 = 0;
        while i < size / 2
            invariant
                i <= size / 2,
                size <= MAX_DECOMP_BYTES,
                acc == half_sum(bus@, at, i as nat),
                out@.len() == 2 * i,
                forall|k: int|
                    0 <= k < 2 * i ==> #[trigger] out@[k] == (if k % 2 == 0 {
                        (half_sum(bus@, at, (k / 2 + 1) as nat) % 0x100) as u8
                    } else {
                        (half_sum(bus@, at, (k / 2 + 1) as nat) / 0x100) as u8
                    }),
            decreases size / 2 - i,
        {
            acc = acc.wrapping_add(bus.read_u16(at.wrapping_add((2 * i) as u32)));
            out.push((acc % 0x100) as u8);
            out.push((acc / 0x100) as u8);
            i = i + 1;
        }
    } else {
        let mut acc: u8 = 0;
        while i < size
            invariant
                i <= size <= MAX_DECOMP_BYTES,
                acc == byte_sum(bus@, at, i as nat),
                out@.len() == i,
                forall|k: int|
                    0 <= k < i ==> #[trigger] out@[k] == byte_sum(bus@, at, (k + 1) as nat),
            decreases size - i,
        {
            acc = acc.wrapping_add(bus.read_u8(at.wrapping_add(i as u32)));
            out.push(acc);
            i = i + 1;
        }
    }
    assert(out@ =~= diff_output(bus@, src, unit16));
    out
}

/// `Diff8bitUnFilter` and `Diff16bitUnFilter`: rebuilds values from differences
/// at `r0` to `r1`.
pub fn diff_unfilter(cpu: &mut Cpu, bus: &mut Bus, unit16: bool, write16: bool)
    requires
        old(bus)@.wf(),
    ensures
        final(cpu)@ == old(cpu)@,
        final(bus)@ == old(bus)@.flushed(
            old(cpu)@.r[1],
            diff_output(old(bus)@, old(cpu)@.r[0], unit16),
            write16,
        ),
        final(bus)@.wf(),
{
    let out: Vec<u8> = diff_decode(bus, cpu.reg(0), unit16);
    flush(bus, cpu.reg(1), &out, write16);
}

/// The walk through a Huffman tree: where it stands, the bits of the symbol
/// that is being put together, and the bytes produced.
#[verifier::ext_equal]
pub struct HuffmanWalk {
    /// Address of the current node.
    pub node: u32,
    /// The current node.
    pub node_byte: u8,
    /// Symbol bits not yet written.
    pub pending: u32,
    /// How many there are, fewer than eight between symbols.
    pub pending_bits: u32,
    /// Bytes produced.
    pub out: Seq<u8>,
}

/// Mask of a symbol of `bits` bits.
#[verifier::allow_in_spec]
pub fn symbol_mask(bits: u32) -> u32
    returns
        (if bits >= 8 {
            0xFFu32
        } else {
            ((1u32 << bits) - 1) as u32
        }),
{
    if bits >= 8 {
        0xFF
    } else {
        assert(bits < 8 ==> 1u32 << bits >= 1) by (bit_vector);
        (1u32 << bits) - 1
    }
}

/// `out` with every whole byte of the pending bits moved to it.
pub open spec fn with_whole_bytes(w: HuffmanWalk) -> HuffmanWalk
    decreases w.pending_bits,
{
    if w.pending_bits >= 8 {
        with_whole_bytes(
            HuffmanWalk {
                pending: w.pending / 0x100,
                pending_bits: (w.pending_bits - 8) as u32,
                out: w.out.push((w.pending % 0x100) as u8),
                ..w
            },
        )
    } else {
        w
    }
}

/// The address of the child that bit `right` selects. The low six bits of a
/// node give the distance to its pair of children.
pub open spec fn huffman_child(w: HuffmanWalk, right: bool) -> u32 {
    half_aligned(w.node).wrapping_add(((w.node_byte % 0x40 + 1) * 2) as u32).wrapping_add(
        if right {
            1
        } else {
            0
        },
    )
}

/// After one bit of the stream: to a child, and if that is a leaf, its symbol
/// is taken and the walk starts again at the root.
pub open spec fn huffman_step(
    b: BusState,
    root: u32,
    data_bits: u32,
    w: HuffmanWalk,
    right: bool,
) -> HuffmanWalk {
    let child = huffman_child(w, right);
    let leaf = if right {
        bit(w.node_byte as u32, 6)
    } else {
        bit(w.node_byte as u32, 7)
    };
    if leaf {
        let symbol = (b.read8(child) as u32) & symbol_mask(data_bits);
        HuffmanWalk {
            node: root,
            node_byte: b.read8(root),
            ..with_whole_bytes(
                HuffmanWalk {
                    pending: w.pending | (symbol << w.pending_bits),
                    pending_bits: (w.pending_bits + data_bits) as u32,
                    ..w
                },
            )
        }
    } else {
        HuffmanWalk { node: child, node_byte: b.read8(child), ..w }
    }
}

/// Bit `t` of the stream at `at`: words, highest bit first.
pub open spec fn stream_bit(b: BusState, at: u32, t: nat) -> bool {
    bit(b.read32(at.wrapping_add((t / 32 * 4) as u32)), (31 - t % 32) as u32)
}

/// At the root, with nothing produced.
pub open spec fn huffman_start(b: BusState, root: u32) -> HuffmanWalk {
    HuffmanWalk {
        node: root,
        node_byte: b.read8(root),
        pending: 0,
        pending_bits: 0,
        out: Seq::empty(),
    }
}

/// After the first `t` bits of the stream at `at`. Nothing is added to a
/// complete result.
pub open spec fn huffman_walk(
    b: BusState,
    root: u32,
    at: u32,
    data_bits: u32,
    size: int,
    t: nat,
) -> HuffmanWalk
    decreases t,
{
    if t == 0 {
        huffman_start(b, root)
    } else {
        let before = huffman_walk(b, root, at, data_bits, size, (t - 1) as nat);
        if before.out.len() >= size {
            before
        } else {
            huffman_step(b, root, data_bits, before, stream_bit(b, at, (t - 1) as nat))
        }
    }
}

/// How many words of a Huffman stream are read at most.
pub open spec fn huffman_word_limit(size: int) -> int {
    8 * size + 64
}

/// The bytes of the Huffman stream at `src`. The header gives the size and the
/// bits per symbol; the tree follows, and the stream after it.
pub open spec fn huffman_output(b: BusState, src: u32) -> Seq<u8> {
    let size = b.declared_size(src);
    let tree = src.wrapping_add(4);
    let at = tree.wrapping_add(((b.read8(tree) + 1) * 2) as u32);
    huffman_walk(
        b,
        tree.wrapping_add(1),
        at,
        b.read32(src) % 16,
        size,
        (32 * huffman_word_limit(size)) as nat,
    ).out
}

pub(crate) proof fn lemma_huffman_complete(
    b: BusState,
    root: u32,
    at: u32,
    data_bits: u32,
    size: int,
    t: nat,
    u: nat,
)
    requires
        t <= u,
        huffman_walk(b, root, at, data_bits, size, t).out.len() >= size,
    ensures
        huffman_walk(b, root, at, data_bits, size, u) == huffman_walk(
            b,
            root,
            at,
            data_bits,
            size,
            t,
        ),
    decreases u - t,
{
    if t < u {
        lemma_huffman_complete(b, root, at, data_bits, size, t, (u - 1) as nat);
    }
}

/// A walk through a Huffman tree.
struct Walk {
    node: u32,
    node_byte: u8,
    pending: u32,
    pending_bits: u32,
    out: Vec<u8>,
}

impl View for Walk {
    type V = HuffmanWalk;

    closed spec fn view(&self) -> HuffmanWalk {
        HuffmanWalk {
            node: self.node,
            node_byte: self.node_byte,
            pending: self.pending,
            pending_bits: self.pending_bits,
            out: self.out@,
        }
    }
}

impl Walk {
    /// At the root, with nothing produced.
    fn new(bus: &Bus, root: u32) -> (r: Self)
        ensures
            r@ == huffman_start(bus@, root),
    {
        Walk {
            node: root,
            node_byte: bus.read_u8(root),
            pending: 0,
            pending_bits: 0,
            out: Vec::new(),
        }
    }

    /// Moves every whole byte of the pending bits to the output.
    fn take_whole_bytes(&mut self)
        requires
            old(self)@.pending_bits < 24,
        ensures
            final(self)@ == with_whole_bytes(old(self)@),
            final(self)@.pending_bits < 8,
            final(self)@.out.len() <= old(self)@.out.len() + 2,
    {
        let ghost start = self@;
        while self.pending_bits >= 8
            invariant
                self@.pending_bits < 24,
                self@.out.len() + self@.pending_bits / 8 <= start.out.len() + 2,
                with_whole_bytes(self@) == with_whole_bytes(start),
            decreases self@.pending_bits,
        {
            let byte: u8 = (self.pending % 0x100) as u8;
            self.out.push(byte);
            self.pending = self.pending / 0x100;
            self.pending_bits = self.pending_bits - 8;
        }
    }

    /// Follows one bit of the stream.
    fn step(&mut self, bus: &Bus, root: u32, data_bits: u32, right: bool)
        requires
            old(self)@.pending_bits < 8,
            data_bits < 16,
        ensures
            final(self)@ == huffman_step(bus@, root, data_bits, old(self)@, right),
            final(self)@.pending_bits < 8,
            final(self)@.out.len() <= old(self)@.out.len() + 2,
    {
        let offset: u32 = ((self.node_byte % 0x40) as u32 + 1) * 2;
        let side: u32 = if right {
            1
        } else {
            0
        };
        let child: u32 = half_aligned(self.node).wrapping_add(offset).wrapping_add(side);
        let leaf: bool = if right {
            bit(self.node_byte as u32, 6)
        } else {
            bit(self.node_byte as u32, 7)
        };
        let child_byte: u8 = bus.read_u8(child);
        if leaf {
            let symbol: u32 = child_byte as u32 & symbol_mask(data_bits);
            self.pending = self.pending | (symbol << self.pending_bits);
            self.pending_bits = self.pending_bits + data_bits;
            self.take_whole_bytes();
            self.node = root;
            self.node_byte = bus.read_u8(root);
        } else {
            self.node = child;
            self.node_byte = child_byte;
        }
    }
}

/// Decodes the Huffman stream at `src`.
fn huff_decode(bus: &Bus, src: u32) -> (r: Vec<u8>)
    ensures
        r@ == huffman_output(bus@, src),
        r@.len() <= MAX_DECOMP_BYTES + 2,
{
    let size: usize = decompressed_size(bus, src);
    let data_bits: u32 = bus.read_u32(src) % 16;
    let tree: u32 = src.wrapping_add(4);
    let root: u32 = tree.wrapping_add(1);
    let at: u32 = tree.wrapping_add((bus.read_u8(tree) as u32 + 1) * 2);
    let limit: usize = 8 * size + 64;
    let mut walk: Walk = Walk::new(bus, root);
    let mut words: usize = 0;
    let ghost b = bus@;
    while walk.out.len() < size && words < limit
        invariant
            b == bus@,
            size <= MAX_DECOMP_BYTES,
            limit == 8 * size + 64,
            words <= limit,
            data_bits < 16,
            walk@.pending_bits < 8,
            walk@.out.len() <= size + 2,
            walk@ == huffman_walk(b, root, at, data_bits, size as int, (32 * words) as nat),
        decreases limit - words,
    {
        let word: u32 = bus.read_u32(at.wrapping_add((words * 4) as u32));
        let mut i: u32 = 0;
        while i < 32
            invariant
                i <= 32,
                b == bus@,
                size <= MAX_DECOMP_BYTES,
                limit == 8 * size + 64,
                words < limit,
                word == b.read32(at.wrapping_add((words * 4) as u32)),
                data_bits < 16,
                walk@.pending_bits < 8,
                walk@.out.len() <= size + 2,
                walk@ == huffman_walk(
                    b,
                    root,
                    at,
                    data_bits,
                    size as int,
                    (32 * words + i) as nat,
                ),
            decreases 32 - i,
        {
            if walk.out.len() < size {
                let right: bool = bit(word, 31 - i);
                assert(right == stream_bit(b, at, (32 * words + i) as nat)) by {
                    assert((32 * words + i) as nat / 32 == words);
                    assert((32 * words + i) as nat % 32 == i);
                }
                walk.step(bus, root, data_bits, right);
            }
            i = i + 1;
        }
        words = words + 1;
    }
    proof {
        if walk@.out.len() >= size {
            lemma_huffman_complete(
                b,
                root,
                at,
                data_bits,
                size as int,
                (32 * words) as nat,
                (32 * huffman_word_limit(size as int)) as nat,
            );
        }
    }
    walk.out
}

/// `HuffUnComp`: decompresses from `r0` to `r1`. A header that declares symbols
/// of no bits is ignored.
pub fn huff(cpu: &mut Cpu, bus: &mut Bus)
    requires
        old(bus)@.wf(),
    ensures
        final(cpu)@ == old(cpu)@,
        final(bus)@ == (Machine { cpu: old(cpu)@, bus: old(bus)@ }).huffman(),
        final(bus)@.wf(),
{
    let src: u32 = cpu.reg(0);
    if bus.read_u32(src) % 16 == 0 {
        return;
    }
    let out: Vec<u8> = huff_decode(bus, src);
    flush(bus, cpu.reg(1), &out, false);
}

impl Machine {
    /// After `HuffUnComp`.
    pub open spec fn huffman(self) -> BusState {
        if self.bus.read32(self.cpu.r[0]) % 16 == 0 {
            self.bus
        } else {
            self.bus.flushed(self.cpu.r[1], huffman_output(self.bus, self.cpu.r[0]), false)
        }
    }
}

/// What `BitUnPack` is asked to do.
pub struct UnpackInfo {
    /// Bits per unit in the source: 1, 2, 4 or 8.
    pub src_width: u32,
    /// Bits per unit in the destination: 1, 2, 4, 8, 16 or 32.
    pub dst_width: u32,
    /// What is added to each unit.
    pub offset: u32,
    /// Whether it is added to zero units too.
    pub offset_zero: bool,
}

/// The state of an unpacking: memory, the word being filled, how many bits of
/// it are filled, and where it goes.
#[verifier::ext_equal]
pub struct Unpacking {
    /// The bus.
    pub bus: BusState,
    /// The word being filled.
    pub buffer: u32,
    /// Filled bits, fewer than 32.
    pub bits: u32,
    /// Where the word goes.
    pub at: u32,
}

/// A mask of the lowest `width` bits.
#[verifier::allow_in_spec]
pub fn low_mask(width: u32) -> u32
    returns
        (if width >= 32 {
            0xFFFF_FFFFu32
        } else {
            ((1u32 << width) - 1) as u32
        }),
{
    if width >= 32 {
        0xFFFF_FFFF
    } else {
        assert(width < 32 ==> 1u32 << width >= 1) by (bit_vector);
        (1u32 << width) - 1
    }
}

/// Unit `k` of a source byte, with the offset added.
pub open spec fn unpacked_unit(info: UnpackInfo, byte: u8, k: int) -> u32 {
    let unit = ((byte as u32) >> ((k * info.src_width) as u32)) & low_mask(info.src_width);
    if unit != 0 || info.offset_zero {
        unit.wrapping_add(info.offset)
    } else {
        unit
    }
}

/// After putting one more unit into the word; a full word is written.
pub open spec fn unpack_put(u: Unpacking, info: UnpackInfo, unit: u32) -> Unpacking {
    let buffer = u.buffer | ((unit & low_mask(info.dst_width)) << u.bits);
    let bits = (u.bits + info.dst_width) as u32;
    if bits >= 32 {
        Unpacking {
            bus: u.bus.write32(u.at, buffer),
            buffer: 0,
            bits: 0,
            at: u.at.wrapping_add(4),
        }
    } else {
        Unpacking { buffer, bits, ..u }
    }
}

/// After the first `k` units of a source byte, lowest bits first.
pub open spec fn unpack_byte(u: Unpacking, info: UnpackInfo, byte: u8, k: nat) -> Unpacking
    decreases k,
{
    if k == 0 {
        u
    } else {
        unpack_put(
            unpack_byte(u, info, byte, (k - 1) as nat),
            info,
            unpacked_unit(info, byte, k - 1),
        )
    }
}

/// After the first `n` bytes of the source.
pub open spec fn unpack_bytes(u: Unpacking, info: UnpackInfo, src: u32, n: nat) -> Unpacking
    decreases n,
{
    if n == 0 {
        u
    } else {
        let before = unpack_bytes(u, info, src, (n - 1) as nat);
        let byte = before.bus.read8(src.wrapping_add((n - 1) as u32));
        unpack_byte(before, info, byte, units_per_byte(info.src_width))
    }
}

/// Units in a source byte.
pub open spec fn units_per_byte(src_width: u32) -> nat {
    if src_width == 1 {
        8
    } else if src_width == 2 {
        4
    } else if src_width == 4 {
        2
    } else {
        1
    }
}

/// Whether both widths are ones that exist.
pub open spec fn valid_widths(info: UnpackInfo) -> bool {
    &&& info.src_width == 1 || info.src_width == 2 || info.src_width == 4 || info.src_width == 8
    &&& info.dst_width == 1 || info.dst_width == 2 || info.dst_width == 4 || info.dst_width == 8
        || info.dst_width == 16 || info.dst_width == 32
}

impl Machine {
    /// What the structure at `r2` asks `BitUnPack` to do.
    pub open spec fn unpack_info(self) -> UnpackInfo {
        let info = self.cpu.r[2];
        let offset = self.bus.read32(info.wrapping_add(4));
        UnpackInfo {
            src_width: self.bus.read8(info.wrapping_add(2)) as u32,
            dst_width: self.bus.read8(info.wrapping_add(3)) as u32,
            offset: offset % 0x8000_0000,
            offset_zero: offset >= 0x8000_0000,
        }
    }

    /// After `BitUnPack`. Widths that do not exist are ignored; a last partial
    /// word is written too.
    pub open spec fn bit_unpack(self) -> BusState {
        let info = self.unpack_info();
        if valid_widths(info) {
            let start = Unpacking { bus: self.bus, buffer: 0, bits: 0, at: self.cpu.r[1] };
            let end = unpack_bytes(
                start,
                info,
                self.cpu.r[0],
                self.bus.read16(self.cpu.r[2]) as nat,
            );
            if end.bits > 0 {
                end.bus.write32(end.at, end.buffer)
            } else {
                end.bus
            }
        } else {
            self.bus
        }
    }
}

/// `BitUnPack`: widens the units at `r0` into `r1`, as the structure at `r2`
/// says.
pub fn bit_unpack(cpu: &mut Cpu, bus: &mut Bus)
    requires
        old(bus)@.wf(),
    ensures
        final(cpu)@ == old(cpu)@,
        final(bus)@ == (Machine { cpu: old(cpu)@, bus: old(bus)@ }).bit_unpack(),
        final(bus)@.wf(),
{
    let src: u32 = cpu.reg(0);
    let dst: u32 = cpu.reg(1);
    let info_at: u32 = cpu.reg(2);
    let src_len: u32 = bus.read_u16(info_at) as u32;
    let src_width: u32 = bus.read_u8(info_at.wrapping_add(2)) as u32;
    let dst_width: u32 = bus.read_u8(info_at.wrapping_add(3)) as u32;
    let offset_word: u32 = bus.read_u32(info_at.wrapping_add(4));
    let offset: u32 = offset_word % 0x8000_0000;
    let offset_zero: bool = offset_word >= 0x8000_0000;
    let ghost info = UnpackInfo { src_width, dst_width, offset, offset_zero };
    assert(info == (Machine { cpu: cpu@, bus: bus@ }).unpack_info());
    if !(src_width == 1 || src_width == 2 || src_width == 4 || src_width == 8) {
        return;
    }
    if !(dst_width == 1 || dst_width == 2 || dst_width == 4 || dst_width == 8 || dst_width == 16
        || dst_width == 32) {
        return;
    }
    let src_mask: u32 = low_mask(src_width);
    let dst_mask: u32 = low_mask(dst_width);
    let mut buffer: u32 = 0;
    let mut bits: u32 = 0;
    let mut at: u32 = dst;
    let ghost start = Unpacking { bus: bus@, buffer, bits, at };
    let mut n: u32 = 0;
    while n < src_len
        invariant
            n <= src_len,
            valid_widths(info),
            info == (UnpackInfo { src_width, dst_width, offset, offset_zero }),
            src_mask == low_mask(src_width),
            dst_mask == low_mask(dst_width),
            bits < 32,
            bus@.wf(),
            (Unpacking { bus: bus@, buffer, bits, at }) == unpack_bytes(
                start,
                info,
                src,
                n as nat,
            ),
        decreases src_len - n,
    {
        let byte: u8 = bus.read_u8(src.wrapping_add(n));
        let ghost before = Unpacking { bus: bus@, buffer, bits, at };
        let mut bitpos: u32 = 0;
        let ghost mut k: nat = 0;
        while bitpos < 8
            invariant
                valid_widths(info),
                info == (UnpackInfo { src_width, dst_width, offset, offset_zero }),
                src_mask == low_mask(src_width),
                dst_mask == low_mask(dst_width),
                k <= units_per_byte(src_width),
                bitpos == k * src_width,
                bitpos <= 8,
                bitpos == 8 ==> k == units_per_byte(src_width),
                bits < 32,
                bus@.wf(),
                (Unpacking { bus: bus@, buffer, bits, at }) == unpack_byte(before, info, byte, k),
            decreases 8 - bitpos,
        {
            let mut unit: u32 = (byte as u32 >> bitpos) & src_mask;
            if unit != 0 || offset_zero {
                unit = unit.wrapping_add(offset);
            }
            assert(unit == unpacked_unit(info, byte, k as int));
            buffer = buffer | ((unit & dst_mask) << bits);
            bits = bits + dst_width;
            if bits >= 32 {
                bus.write_u32(at, buffer);
                at = at.wrapping_add(4);
                buffer = 0;
                bits = 0;
            }
            bitpos = bitpos + src_width;
            proof {
                assert((k + 1) * src_width == k * src_width + src_width) by (nonlinear_arith);
                k = k + 1;
            }
        }
        n = n + 1;
    }
    if bits > 0 {
        bus.write_u32(at, buffer);
    }
}

} // verus!

//! What decompression is for: a stream that describes a byte string, and any
//! such stream, gives that byte string back.

use vstd::prelude::*;

use crate::bios_unpack::{Stream, UnpackInfo, Unpacking};
use crate::bus::BusState;
use crate::cpu::Machine;

verus! {

/// The address `n` bytes after `start`.
#[verifier::opaque]
pub open spec fn after(start: u32, n: int) -> u32 {
    ((start + n) % 0x1_0000_0000) as u32
}

/// Moving on by a few more bytes.
pub(crate) proof fn lemma_after(start: u32, n: int, k: u32)
    ensures
        after(start, n).wrapping_add(k) == after(start, n + k),
        after(start, 0) == start,
        start.wrapping_add(k) == after(start, k as int),
{
    reveal(after);
}

/// The byte of memory `n` bytes after `start`.
pub open spec fn byte_after(b: BusState, start: u32, n: int) -> u8 {
    b.read8(after(start, n))
}

/// An item of an LZ77 stream.
pub enum Item {
    /// A byte that stands for itself.
    Literal {
        /// The byte.
        byte: u8,
    },
    /// A repetition of earlier bytes.
    Reference {
        /// How far back they are, 1 to 4096 bytes.
        distance: int,
        /// How many there are, 3 to 18.
        length: int,
    },
}

impl Item {
    /// The bytes of text that the item stands for.
    pub open spec fn covers(self) -> int {
        match self {
            Item::Literal { byte } => 1,
            Item::Reference { distance, length } => length,
        }
    }

    /// The bytes that the item takes in the stream.
    pub open spec fn width(self) -> int {
        match self {
            Item::Literal { byte } => 1,
            Item::Reference { distance, length } => 2,
        }
    }

    /// Whether the item can be written down.
    pub open spec fn valid(self) -> bool {
        match self {
            Item::Literal { byte } => true,
            Item::Reference { distance, length } => 1 <= distance <= 4096 && 3 <= length <= 18,
        }
    }
}

/// Where the text of item `j` starts.
pub open spec fn text_at(items: Seq<Item>, j: nat) -> int
    decreases j,
{
    if j == 0 {
        0
    } else {
        text_at(items, (j - 1) as nat) + items[j - 1].covers()
    }
}

/// The bytes that the first `j` items take in the stream.
pub open spec fn widths(items: Seq<Item>, j: nat) -> int
    decreases j,
{
    if j == 0 {
        0
    } else {
        widths(items, (j - 1) as nat) + items[j - 1].width()
    }
}

/// Whether byte `k` of a text equals the one `distance` places before it.
pub open spec fn repeats(text: Seq<u8>, k: int, distance: int) -> bool {
    text[k] == text[k - distance]
}

/// Whether item `j` describes its part of `text`: a literal is the byte that
/// stands there, and the bytes of a reference equal those `distance` places
/// before them.
pub open spec fn item_describes(items: Seq<Item>, text: Seq<u8>, j: int) -> bool {
    let from = text_at(items, j as nat);
    &&& items[j].valid()
    &&& match items[j] {
        Item::Literal { byte } => text[from] == byte,
        Item::Reference { distance, length } => {
            &&& distance <= from
            &&& forall|k: int|
                from <= k < from + length ==> #[trigger] repeats(text, k, distance)
        },
    }
}

/// Whether the items describe `text`, one after the other.
pub open spec fn describes(items: Seq<Item>, text: Seq<u8>) -> bool {
    &&& text.len() == text_at(items, items.len())
    &&& forall|j: int| 0 <= j < items.len() ==> #[trigger] item_describes(items, text, j)
}

/// Whether memory from `start` on holds item `j`: before each eight items stands
/// a byte of flags, whose bits from the top say which ones are references; a
/// literal is its byte, a reference four bits of length less three and twelve
/// bits of distance less one.
pub open spec fn item_spelled(b: BusState, start: u32, items: Seq<Item>, j: int) -> bool {
    let at = widths(items, j as nat) + j / 8 + 1;
    let flags = byte_after(b, start, widths(items, (j - j % 8) as nat) + j / 8);
    &&& crate::encoding::top_bit(flags, j % 8) == items[j] is Reference
    &&& match items[j] {
        Item::Literal { byte } => byte_after(b, start, at) == byte,
        Item::Reference { distance, length } => {
            &&& byte_after(b, start, at) == (length - 3) * 16 + (distance - 1) / 0x100
            &&& byte_after(b, start, at + 1) == (distance - 1) % 0x100
        },
    }
}

/// Whether memory from `start` on holds all the items.
pub open spec fn spells(b: BusState, start: u32, items: Seq<Item>) -> bool {
    forall|j: int| 0 <= j < items.len() ==> #[trigger] item_spelled(b, start, items, j)
}

/// Decompressing an LZ77 stream gives back the text that it describes, for
/// every text and every way to describe it.
pub proof fn law_lz77_gives_the_text(b: BusState, src: u32, items: Seq<Item>, text: Seq<u8>)
    requires
        describes(items, text),
        spells(b, after(src, 4), items),
        b.read32(src) / 0x100 == text.len(),
        text.len() <= 0x40_0000,
    ensures
        crate::bios_unpack::lz77_output(b, src) == text,
{
    let size = text.len() as int;
    lemma_after(src, 0, 4);
    let start = after(src, 4);
    let s = Stream { at: start, out: Seq::empty() };
    let g = items.len() / 8;
    assert(b.declared_size(src) == size);
    lemma_text_at(items, text, 0, items.len());
    lemma_groups(b, start, items, text, g);
    assert(8 * g <= items.len());
    lemma_text_at(items, text, 8 * g, items.len());
    lemma_text_at(items, text, 0, 8 * g);
    if items.len() == 8 * g {
        assert(text.take(size) =~= text);
        crate::bios_unpack::lemma_lz77_complete(b, s, size, g, size as nat);
    } else {
        let i = (items.len() - 8 * g) as nat;
        lemma_items(b, start, items, text, g, i);
        assert(text.take(size) =~= text);
        let at = widths(items, 8 * g) + g;
        let group = Stream {
            at: after(start, at + 1),
            out: text.take(text_at(items, 8 * g)),
        };
        lemma_after(start, at, 1);
        lemma_full_items(b, group, size, byte_after(b, start, at), i, 8);
        crate::bios_unpack::lemma_lz77_complete(b, s, size, g + 1, size as nat);
    }
}

/// Every item adds to the text.
proof fn lemma_text_at(items: Seq<Item>, text: Seq<u8>, i: nat, j: nat)
    requires
        i <= j <= items.len(),
        describes(items, text),
    ensures
        text_at(items, j) - text_at(items, i) >= j - i,
        text_at(items, i) >= 0,
    decreases j,
{
    if i < j {
        lemma_text_at(items, text, i, (j - 1) as nat);
        assert(item_describes(items, text, j - 1));
    } else if i > 0 {
        lemma_text_at(items, text, 0, (i - 1) as nat);
        assert(item_describes(items, text, i - 1));
    }
}

/// Copying back continues a text that repeats.
proof fn lemma_copied_back(text: Seq<u8>, from: int, distance: int, n: nat)
    requires
        1 <= distance <= from,
        from + n <= text.len(),
        forall|k: int| from <= k < from + n ==> #[trigger] repeats(text, k, distance),
    ensures
        crate::bios_unpack::copied_back(text.take(from), distance, n) == text.take(from + n),
    decreases n,
{
    if n > 0 {
        let m = (n - 1) as nat;
        lemma_copied_back(text, from, distance, m);
        let before = text.take(from + m);
        assert(repeats(text, from + m, distance));
        assert(before.push(text[from + m]) =~= text.take(from + n));
    } else {
        assert(text.take(from) =~= text.take(from + n));
    }
}

/// After item `j`, its text has been added.
proof fn lemma_item(b: BusState, start: u32, items: Seq<Item>, text: Seq<u8>, j: nat)
    requires
        describes(items, text),
        spells(b, start, items),
        j < items.len(),
    ensures
        ({
            let at = widths(items, j) + j / 8 + 1;
            let before = Stream {
                at: after(start, at),
                out: text.take(text_at(items, j)),
            };
            let after = Stream {
                at: after(start, widths(items, j + 1) + j / 8 + 1),
                out: text.take(text_at(items, j + 1)),
            };
            &&& before.out.len() < text.len()
            &&& crate::bios_unpack::lz77_item(b, before, text.len() as int, items[j as int] is Reference)
                == after
        }),
{
    lemma_text_at(items, text, 0, j);
    lemma_text_at(items, text, j + 1, items.len());
    lemma_text_at(items, text, j, items.len());
    let item = items[j as int];
    assert(item_describes(items, text, j as int));
    assert(item_spelled(b, start, items, j as int));
    let from = text_at(items, j);
    let at = widths(items, j) + j / 8 + 1;
    match item {
        Item::Literal { byte } => {
            lemma_after(start, at, 1);
            assert(text.take(from).push(byte) =~= text.take(from + 1));
        },
        Item::Reference { distance, length } => {
            lemma_reference(b, start, at, text, from, distance, length);
        },
    }
}

/// A reference adds the bytes that it stands for.
proof fn lemma_reference(
    b: BusState,
    start: u32,
    at: int,
    text: Seq<u8>,
    from: int,
    distance: int,
    length: int,
)
    requires
        1 <= distance <= 4096,
        distance <= from,
        3 <= length <= 18,
        from + length <= text.len(),
        forall|k: int| from <= k < from + length ==> #[trigger] repeats(text, k, distance),
        byte_after(b, start, at) == (length - 3) * 16 + (distance - 1) / 0x100,
        byte_after(b, start, at + 1) == (distance - 1) % 0x100,
    ensures
        crate::bios_unpack::lz77_item(
            b,
            Stream { at: after(start, at), out: text.take(from) },
            text.len() as int,
            true,
        ) == (Stream { at: after(start, at + 2), out: text.take(from + length) }),
{
    lemma_after(start, at, 1);
    lemma_after(start, at, 2);
    let b0 = byte_after(b, start, at);
    let b1 = byte_after(b, start, at + 1);
    assert(b0 / 16 + 3 == length);
    assert((b0 % 16) * 0x100 + b1 + 1 == distance);
    lemma_copied_back(text, from, distance, length as nat);
}

/// The flags are read from the top.
proof fn lemma_flag(flags: u8, k: nat)
    requires
        k < 8,
    ensures
        crate::bits::bit(flags as u32, (7 - k) as u32) == crate::encoding::top_bit(
            flags,
            k as int,
        ),
{
    crate::encoding::lemma_byte_digits(flags);
}

/// After the first `i` items of group `g`, their text has been added.
proof fn lemma_items(b: BusState, start: u32, items: Seq<Item>, text: Seq<u8>, g: nat, i: nat)
    requires
        describes(items, text),
        spells(b, start, items),
        8 * g + i <= items.len(),
        i <= 8,
        8 * g < items.len(),
    ensures
        ({
            let at = widths(items, 8 * g) + g;
            let group = Stream {
                at: after(start, at + 1),
                out: text.take(text_at(items, 8 * g)),
            };
            crate::bios_unpack::lz77_items(b, group, text.len() as int, byte_after(b, start, at), i) == (
            Stream {
                at: after(start, widths(items, 8 * g + i) + g + 1),
                out: text.take(text_at(items, 8 * g + i)),
            })
        }),
    decreases i,
{
    if i > 0 {
        let k = (i - 1) as nat;
        lemma_items(b, start, items, text, g, k);
        let j = 8 * g + k;
        lemma_item(b, start, items, text, j);
        assert(item_spelled(b, start, items, j as int));
        assert(j / 8 == g && j % 8 == k as int && j - j % 8 == 8 * g);
        let flags = byte_after(b, start, widths(items, 8 * g) + g);
        lemma_flag(flags, k);
        assert(crate::encoding::top_bit(flags, k as int) == items[j as int] is Reference);
    }
}

/// Items after the end of the text are not read.
proof fn lemma_full_items(b: BusState, s: Stream, size: int, flags: u8, i: nat, n: nat)
    requires
        i <= n,
        crate::bios_unpack::lz77_items(b, s, size, flags, i).out.len() >= size,
    ensures
        crate::bios_unpack::lz77_items(b, s, size, flags, n)
            == crate::bios_unpack::lz77_items(b, s, size, flags, i),
    decreases n,
{
    if i < n {
        lemma_full_items(b, s, size, flags, i, (n - 1) as nat);
    }
}

/// After the first `g` groups, their text has been added.
proof fn lemma_groups(b: BusState, start: u32, items: Seq<Item>, text: Seq<u8>, g: nat)
    requires
        describes(items, text),
        spells(b, start, items),
        8 * g <= items.len(),
    ensures
        crate::bios_unpack::lz77_groups(
            b,
            Stream { at: start, out: Seq::empty() },
            text.len() as int,
            g,
        ) == (Stream {
            at: after(start, widths(items, 8 * g) + g),
            out: text.take(text_at(items, 8 * g)),
        }),
    decreases g,
{
    if g > 0 {
        let h = (g - 1) as nat;
        lemma_groups(b, start, items, text, h);
        lemma_text_at(items, text, 8 * h, items.len());
        lemma_text_at(items, text, 0, 8 * h);
        lemma_items(b, start, items, text, h, 8);
        lemma_after(start, widths(items, 8 * h) + h, 1);
        assert(8 * h + 8 == 8 * g);
    } else {
        lemma_after(start, 0, 0);
        assert(text.take(0) =~= Seq::empty());
    }
}

/// What a reference adds: `n` bytes, each equal to the one `distance` places
/// before it, or zero where there is none; the bytes before stay.
pub proof fn law_reference_repeats(out: Seq<u8>, distance: int, n: nat)
    requires
        distance >= 1,
    ensures
        ({
            let longer = crate::bios_unpack::copied_back(out, distance, n);
            &&& longer.len() == out.len() + n
            &&& forall|k: int| 0 <= k < out.len() ==> #[trigger] longer[k] == out[k]
            &&& forall|k: int|
                out.len() <= k < longer.len() && k >= distance ==> #[trigger] repeats(
                    longer,
                    k,
                    distance,
                )
            &&& forall|k: int|
                out.len() <= k < longer.len() && k < distance ==> #[trigger] longer[k] == 0
        }),
    decreases n,
{
    if n > 0 {
        let m = (n - 1) as nat;
        law_reference_repeats(out, distance, m);
        let before = crate::bios_unpack::copied_back(out, distance, m);
        let longer = crate::bios_unpack::copied_back(out, distance, n);
        assert(longer.len() == out.len() + n);
        assert forall|k: int|
            out.len() <= k < longer.len() && k >= distance implies #[trigger] repeats(
            longer,
            k,
            distance,
        ) by {
            if k < before.len() {
                assert(repeats(before, k, distance));
            }
        }
    }
}

/// A block of a run-length stream.
pub enum Block {
    /// One byte many times.
    Run {
        /// The byte.
        byte: u8,
        /// How often, 3 to 130 times.
        count: int,
    },
    /// Bytes that stand for themselves.
    Plain {
        /// How many, 1 to 128.
        count: int,
    },
}

impl Block {
    /// The bytes of text that the block stands for.
    pub open spec fn covers(self) -> int {
        match self {
            Block::Run { byte, count } => count,
            Block::Plain { count } => count,
        }
    }

    /// The bytes that the block takes in the stream.
    pub open spec fn width(self) -> int {
        match self {
            Block::Run { byte, count } => 2,
            Block::Plain { count } => 1 + count,
        }
    }
}

/// Where the text of block `j` starts, and where the block starts in the
/// stream.
pub open spec fn block_at(blocks: Seq<Block>, j: nat) -> (int, int)
    decreases j,
{
    if j == 0 {
        (0, 0)
    } else {
        let (text, stream) = block_at(blocks, (j - 1) as nat);
        (text + blocks[j - 1].covers(), stream + blocks[j - 1].width())
    }
}

/// Whether memory from `start` on holds block `j` and the block describes its
/// part of `text`: a run has the top bit of its first byte set, the other seven
/// give its length less three, and all its bytes equal the second byte; the
/// first byte of other blocks gives their length less one, and the bytes follow.
pub open spec fn block_spelled(
    b: BusState,
    start: u32,
    blocks: Seq<Block>,
    text: Seq<u8>,
    j: int,
) -> bool {
    let (from, at) = block_at(blocks, j as nat);
    match blocks[j] {
        Block::Run { byte, count } => {
            &&& 3 <= count <= 130
            &&& byte_after(b, start, at) == 0x80 + count - 3
            &&& byte_after(b, start, at + 1) == byte
            &&& forall|k: int| from <= k < from + count ==> #[trigger] text[k] == byte
        },
        Block::Plain { count } => {
            &&& 1 <= count <= 128
            &&& byte_after(b, start, at) == count - 1
            &&& forall|k: int|
                0 <= k < count ==> #[trigger] text[from + k] == byte_after(b, start, at + 1 + k)
        },
    }
}

/// Decompressing a run-length stream gives back the text that it describes, for
/// every text and every way to describe it.
pub proof fn law_run_lengths_give_the_text(
    b: BusState,
    src: u32,
    blocks: Seq<Block>,
    text: Seq<u8>,
)
    requires
        forall|j: int|
            0 <= j < blocks.len() ==> #[trigger] block_spelled(b, after(src, 4), blocks, text, j),
        text.len() == block_at(blocks, blocks.len()).0,
        b.read32(src) / 0x100 == text.len(),
        text.len() <= 0x40_0000,
    ensures
        crate::bios_unpack::rl_output(b, src) == text,
{
    let size = text.len() as int;
    let start = after(src, 4);
    lemma_after(src, 0, 4);
    lemma_blocks(b, start, blocks, text, blocks.len());
    lemma_block_at(b, start, blocks, text, 0, blocks.len());
    assert(text.take(size) =~= text);
    let s = Stream { at: start, out: Seq::empty() };
    crate::bios_unpack::lemma_rl_complete(b, s, size, blocks.len(), size as nat);
}

proof fn lemma_block_at(
    b: BusState,
    start: u32,
    blocks: Seq<Block>,
    text: Seq<u8>,
    i: nat,
    j: nat,
)
    requires
        i <= j <= blocks.len(),
        forall|j: int|
            0 <= j < blocks.len() ==> #[trigger] block_spelled(b, start, blocks, text, j),
    ensures
        block_at(blocks, j).0 - block_at(blocks, i).0 >= j - i,
        block_at(blocks, i).0 >= 0,
    decreases j,
{
    if i < j {
        lemma_block_at(b, start, blocks, text, i, (j - 1) as nat);
        assert(block_spelled(b, start, blocks, text, j - 1));
    } else if i > 0 {
        lemma_block_at(b, start, blocks, text, 0, (i - 1) as nat);
        assert(block_spelled(b, start, blocks, text, i - 1));
    }
}

/// After block `j`, its text has been added.
proof fn lemma_block(b: BusState, start: u32, blocks: Seq<Block>, text: Seq<u8>, j: nat)
    requires
        j < blocks.len(),
        block_spelled(b, start, blocks, text, j as int),
        0 <= block_at(blocks, j).0,
        block_at(blocks, j + 1).0 <= text.len(),
    ensures
        ({
            let (from, at) = block_at(blocks, j);
            let (from2, at2) = block_at(blocks, j + 1);
            crate::bios_unpack::rl_block(
                b,
                Stream { at: after(start, at), out: text.take(from) },
                text.len() as int,
            ) == (Stream { at: after(start, at2), out: text.take(from2) })
        }),
{
    let (from, at) = block_at(blocks, j);
    let first = after(start, at + 1);
    lemma_after(start, at, 1);
    match blocks[j as int] {
        Block::Run { byte, count } => {
            lemma_after(start, at + 1, 1);
            assert(text.take(from) + Seq::new(count as nat, |i: int| b.read8(first)) =~= text.take(
                from + count,
            )) by {
                assert(b.read8(first) == byte);
            }
        },
        Block::Plain { count } => {
            lemma_after(start, at + 1, count as u32);
            let plain = Seq::new(count as nat, |i: int| b.read8(first.wrapping_add(i as u32)));
            assert forall|k: int| 0 <= k < count implies plain[k] == #[trigger] text[from + k] by {
                lemma_after(start, at + 1, k as u32);
            }
            assert(text.take(from) + plain =~= text.take(from + count)) by {
                assert forall|k: int| from <= k < from + count implies (text.take(from) + plain)[k]
                    == #[trigger] text[k] by {
                    assert(plain[k - from] == text[from + (k - from)]);
                }
            }
        },
    }
}

/// After the first `n` blocks, their text has been added.
proof fn lemma_blocks(b: BusState, start: u32, blocks: Seq<Block>, text: Seq<u8>, n: nat)
    requires
        forall|j: int|
            0 <= j < blocks.len() ==> #[trigger] block_spelled(b, start, blocks, text, j),
        text.len() == block_at(blocks, blocks.len()).0,
        n <= blocks.len(),
    ensures
        crate::bios_unpack::rl_blocks(
            b,
            Stream { at: start, out: Seq::empty() },
            text.len() as int,
            n,
        ) == (Stream {
            at: after(start, block_at(blocks, n).1),
            out: text.take(block_at(blocks, n).0),
        }),
    decreases n,
{
    if n > 0 {
        let j = (n - 1) as nat;
        lemma_blocks(b, start, blocks, text, j);
        assert(block_spelled(b, start, blocks, text, j as int));
        lemma_block_at(b, start, blocks, text, j, blocks.len());
        lemma_block_at(b, start, blocks, text, n, blocks.len());
        lemma_block(b, start, blocks, text, j);
    } else {
        lemma_after(start, 0, 0);
        assert(text.take(0) =~= Seq::empty());
    }
}

/// Undoing a difference filter: the first byte is the first of the stream, and
/// every other byte is the one before it plus the next of the stream, modulo
/// 2^8.
pub proof fn law_byte_differences(b: BusState, src: u32, k: int)
    requires
        1 <= k < b.read32(src) / 0x100,
        b.read32(src) / 0x100 <= 0x40_0000,
    ensures
        ({
            let out = crate::bios_unpack::diff_output(b, src, false);
            &&& out.len() == b.read32(src) / 0x100
            &&& out[0] == byte_after(b, src, 4)
            &&& out[k] == (out[k - 1] + byte_after(b, src, 4 + k)) % 0x100
        }),
{
    let at = src.wrapping_add(4);
    lemma_after(src, 0, 4);
    lemma_after(src, 4, k as u32);
    lemma_after(src, 4, 0);
    assert(crate::bios_unpack::byte_sum(b, at, 0) == 0);
    assert(crate::bios_unpack::byte_sum(b, at, 1) == 0u8.wrapping_add(b.read8(at.wrapping_add(0))));
}

/// The same with halfwords, lowest byte first, modulo 2^16.
#[verifier::spinoff_prover]
pub proof fn law_half_differences(b: BusState, src: u32, k: int)
    requires
        1 <= k < b.read32(src) / 0x100 / 2,
        b.read32(src) / 0x100 <= 0x40_0000,
    ensures
        ({
            let out = crate::bios_unpack::diff_output(b, src, true);
            let half = |j: int| out[2 * j] + 0x100 * out[2 * j + 1];
            &&& out.len() == b.read32(src) / 0x100 / 2 * 2
            &&& half(0) == b.read16(after(src, 4))
            &&& half(k) == (half(k - 1) + b.read16(after(src, 4 + 2 * k))) % 0x1_0000
        }),
{
    let at = src.wrapping_add(4);
    lemma_after(src, 0, 4);
    lemma_after(src, 4, (2 * k) as u32);
    lemma_after(src, 4, 0);
    lemma_half_sum(b, src, 0);
    lemma_half_sum(b, src, k - 1);
    lemma_half_sum(b, src, k);
    assert(crate::bios_unpack::half_sum(b, at, 0) == 0);
    assert(crate::bios_unpack::half_sum(b, at, 1) == 0u16.wrapping_add(
        b.read16(at.wrapping_add(0)),
    ));
    assert(crate::bios_unpack::half_sum(b, at, (k + 1) as nat) == crate::bios_unpack::half_sum(
        b,
        at,
        k as nat,
    ).wrapping_add(b.read16(at.wrapping_add((2 * k) as u32))));
}

/// Halfword `j` of the result is the sum of the differences up to it.
proof fn lemma_half_sum(b: BusState, src: u32, j: int)
    requires
        0 <= j < b.declared_size(src) / 2,
    ensures
        ({
            let out = crate::bios_unpack::diff_output(b, src, true);
            out[2 * j] + 0x100 * out[2 * j + 1] == crate::bios_unpack::half_sum(
                b,
                src.wrapping_add(4),
                (j + 1) as nat,
            )
        }),
{
    assert((2 * j) / 2 == j && (2 * j + 1) / 2 == j);
    assert((2 * j) % 2 == 0 && (2 * j + 1) % 2 == 1);
    let sum = crate::bios_unpack::half_sum(b, src.wrapping_add(4), (j + 1) as nat);
    assert(sum % 0x100 + 0x100 * (sum / 0x100) == sum);
}

/// What `BitUnPack` reads from the structure at `r2`: the length in bytes at 0,
/// the two widths at 2 and 3, and at 4 a word with the offset, whose top bit lets
/// it count for zero units too.
pub proof fn law_unpack_parameters(m: Machine)
    ensures
        ({
            let info = m.unpack_info();
            let at = m.cpu.r[2];
            let word = m.bus.read32(after(at, 4));
            &&& info.src_width == byte_after(m.bus, at, 2)
            &&& info.dst_width == byte_after(m.bus, at, 3)
            &&& info.offset == word % 0x8000_0000
            &&& info.offset_zero == (word >= 0x8000_0000)
        }),
{
    let at = m.cpu.r[2];
    lemma_after(at, 0, 2);
    lemma_after(at, 0, 3);
    lemma_after(at, 0, 4);
}

/// Unit `k` of a source byte: its bits are those of the byte from `k` times the
/// width up, and the offset is added to it unless it is zero and zero units are
/// left alone.
pub proof fn law_unpacked_unit(info: UnpackInfo, byte: u8, k: u32, unit: u32, i: u32)
    requires
        crate::bios_unpack::valid_widths(info),
        (k + 1) * info.src_width <= 8,
        i < 32,
        unit == crate::bios_unpack::unpacked_unit(
            UnpackInfo { offset: 0, ..info },
            byte,
            k as int,
        ),
    ensures
        crate::encoding::has_bit(unit, i) == (i < info.src_width && crate::encoding::has_bit(
            byte as u32,
            (k * info.src_width + i) as u32,
        )),
        crate::bios_unpack::unpacked_unit(info, byte, k as int) == if unit != 0
            || info.offset_zero {
            (unit + info.offset) % 0x1_0000_0000
        } else {
            0
        },
{
    let n = (k * info.src_width) as u32;
    assert(n < 32) by {
        assert((k + 1) * info.src_width == k * info.src_width + info.src_width)
            by (nonlinear_arith);
    }
    crate::encoding::lemma_field_bits(byte as u32, n, info.src_width, 0, i);
    let plain = ((byte as u32) >> n) & crate::bios_unpack::low_mask(info.src_width);
    crate::encoding::lemma_wrapping(plain, info.offset);
    crate::encoding::lemma_wrapping(plain, 0);
}

/// Putting a unit into the word that is being filled: its low bits, as many as
/// the width, go above the bits that are there; a full word is written and the
/// next one starts four bytes further.
pub proof fn law_unpacked_units_fill_words(u: Unpacking, info: UnpackInfo, unit: u32, i: u32)
    requires
        crate::bios_unpack::valid_widths(info),
        u.bits < 32,
        u.bits + info.dst_width <= 32,
        i < 32,
    ensures
        ({
            let after_unit = crate::bios_unpack::unpack_put(u, info, unit);
            let word = (u.buffer | ((unit & crate::bios_unpack::low_mask(info.dst_width))
                << u.bits));
            &&& crate::encoding::has_bit(word, i) == (crate::encoding::has_bit(u.buffer, i) || (i
                >= u.bits && i - u.bits < info.dst_width && crate::encoding::has_bit(
                unit,
                (i - u.bits) as u32,
            )))
            &&& u.bits + info.dst_width < 32 ==> after_unit == (Unpacking {
                buffer: word,
                bits: (u.bits + info.dst_width) as u32,
                ..u
            })
            &&& u.bits + info.dst_width == 32 ==> after_unit == (Unpacking {
                bus: u.bus.write32(u.at, word),
                buffer: 0,
                bits: 0,
                at: after(u.at, 4),
            })
        }),
{
    lemma_after(u.at, 0, 4);
    if info.dst_width < 32 {
        crate::encoding::lemma_field_bits(unit, u.bits, info.dst_width, u.buffer, i);
    } else {
        crate::encoding::lemma_field_bits(unit, u.bits, 0, u.buffer, i);
    }
}

/// The units of a byte are unpacked from its lowest bits up, and the bytes one
/// after the other: 8, 4, 2 or 1 units per byte by the width.
pub proof fn law_unpacking_order(u: Unpacking, info: UnpackInfo, src: u32, byte: u8, k: nat)
    requires
        crate::bios_unpack::valid_widths(info),
    ensures
        crate::bios_unpack::unpack_byte(u, info, byte, 0) == u,
        crate::bios_unpack::unpack_byte(u, info, byte, k + 1) == crate::bios_unpack::unpack_put(
            crate::bios_unpack::unpack_byte(u, info, byte, k),
            info,
            crate::bios_unpack::unpacked_unit(info, byte, k as int),
        ),
        crate::bios_unpack::unpack_bytes(u, info, src, 0) == u,
        k < 0x1_0000 ==> ({
            let before = crate::bios_unpack::unpack_bytes(u, info, src, k);
            crate::bios_unpack::unpack_bytes(u, info, src, k + 1)
                == crate::bios_unpack::unpack_byte(
                before,
                info,
                byte_after(before.bus, src, k as int),
                (8int / info.src_width as int) as nat,
            )
        }),
{
    lemma_after(src, 0, k as u32);
}

} // verus!

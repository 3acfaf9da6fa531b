//! What the Huffman decoder is for: a stream of codes from the tree gives the
//! symbols that the codes lead to.

use vstd::prelude::*;

use crate::bios_unpack::HuffmanWalk;
use crate::bus::BusState;

verus! {

/// The child of the node at `node` that a bit chooses. The six low bits of a
/// node say how many pairs of bytes lie between it and its children; the right
/// child follows the left one.
pub open spec fn child_of(b: BusState, node: u32, right: bool) -> u32 {
    let byte = b.read8(node);
    ((node - node % 2 + (byte % 0x40 + 1) * 2 + if right {
        1int
    } else {
        0int
    }) % 0x1_0000_0000) as u32
}

/// Whether the child that a bit chooses is a symbol: bit 7 of the node says so
/// of the left one, bit 6 of the right one.
pub open spec fn child_is_symbol(b: BusState, node: u32, right: bool) -> bool {
    if right {
        b.read8(node) / 0x40 % 2 == 1
    } else {
        b.read8(node) >= 0x80
    }
}

/// The node that a code leads to from the root, one bit after the other.
pub open spec fn node_after(b: BusState, root: u32, code: Seq<bool>, i: nat) -> u32
    decreases i,
{
    if i == 0 {
        root
    } else {
        child_of(b, node_after(b, root, code, (i - 1) as nat), code[i - 1])
    }
}

/// Whether bit `i` of a code ends it exactly when it leads to a symbol.
pub open spec fn ends_at_symbol(b: BusState, root: u32, code: Seq<bool>, i: int) -> bool {
    child_is_symbol(b, node_after(b, root, code, i as nat), code[i]) == (i == code.len() - 1)
}

/// Whether a code is the code of the symbol `value`: its bits lead from the root
/// over inner nodes to a symbol with that value.
pub open spec fn is_code(b: BusState, root: u32, code: Seq<bool>, value: u8) -> bool {
    &&& code.len() >= 1
    &&& forall|i: int| 0 <= i < code.len() ==> #[trigger] ends_at_symbol(b, root, code, i)
    &&& b.read8(node_after(b, root, code, code.len())) == value
}

/// The number of bits of the first `j` codes.
pub open spec fn bits_before(codes: Seq<Seq<bool>>, j: nat) -> nat
    decreases j,
{
    if j == 0 {
        0
    } else {
        bits_before(codes, (j - 1) as nat) + codes[j - 1].len()
    }
}

/// Bit `t` of a stream of words, each from its top bit down.
pub open spec fn bit_of_stream(b: BusState, at: u32, t: nat) -> bool {
    crate::encoding::has_bit(
        b.read32(((at + (t / 32 * 4) as u32) % 0x1_0000_0000) as u32),
        (31 - t % 32) as u32,
    )
}

/// Whether the stream at `at` holds bit `i` of code `j` in its place.
pub open spec fn bit_stands(b: BusState, at: u32, codes: Seq<Seq<bool>>, j: int, i: int) -> bool {
    bit_of_stream(b, at, (bits_before(codes, j as nat) + i) as nat) == codes[j][i]
}

/// Whether the stream at `at` holds code `j` in its place, and the code is that
/// of symbol `j`.
pub open spec fn code_stands(
    b: BusState,
    root: u32,
    at: u32,
    codes: Seq<Seq<bool>>,
    symbols: Seq<u8>,
    j: int,
) -> bool {
    &&& is_code(b, root, codes[j], symbols[j])
    &&& forall|i: int| 0 <= i < codes[j].len() ==> #[trigger] bit_stands(b, at, codes, j, i)
}

/// The walk with nothing pending.
pub open spec fn idle(b: BusState, node: u32, out: Seq<u8>) -> HuffmanWalk {
    HuffmanWalk { node, node_byte: b.read8(node), pending: 0, pending_bits: 0, out }
}

/// Decoding a Huffman stream of bytes gives back the text whose codes it holds:
/// the header declares the size and eight bits per symbol, the tree follows it,
/// and the stream follows the tree.
pub proof fn law_huffman_gives_the_text(
    b: BusState,
    src: u32,
    codes: Seq<Seq<bool>>,
    text: Seq<u8>,
)
    requires
        b.read32(src) % 16 == 8,
        b.read32(src) / 0x100 == text.len(),
        text.len() <= 0x40_0000,
        codes.len() == text.len(),
        bits_before(codes, codes.len()) <= 32 * (8 * text.len() + 64),
        ({
            let tree = crate::unpack_laws::after(src, 4);
            let root = crate::unpack_laws::after(src, 5);
            let at = crate::unpack_laws::after(src, 4 + (b.read8(tree) + 1) * 2);
            forall|j: int|
                0 <= j < codes.len() ==> #[trigger] code_stands(b, root, at, codes, text, j)
        }),
    ensures
        crate::bios_unpack::huffman_output(b, src) == text,
{
    let tree = crate::unpack_laws::after(src, 4);
    let root = crate::unpack_laws::after(src, 5);
    let at = crate::unpack_laws::after(src, 4 + (b.read8(tree) + 1) * 2);
    crate::unpack_laws::lemma_after(src, 0, 4);
    crate::unpack_laws::lemma_after(src, 4, 1);
    crate::unpack_laws::lemma_after(src, 4, ((b.read8(tree) + 1) * 2) as u32);
    let size = text.len() as int;
    lemma_symbols(b, root, at, codes, text, codes.len());
    assert(text.take(size) =~= text);
    let t = bits_before(codes, codes.len());
    crate::bios_unpack::lemma_huffman_complete(
        b,
        root,
        at,
        8,
        size,
        t,
        (32 * crate::bios_unpack::huffman_word_limit(size)) as nat,
    );
}

/// After the codes of the first `j` symbols, these have been produced and the
/// walk is back at the root.
proof fn lemma_symbols(
    b: BusState,
    root: u32,
    at: u32,
    codes: Seq<Seq<bool>>,
    text: Seq<u8>,
    j: nat,
)
    requires
        j <= codes.len(),
        codes.len() == text.len(),
        forall|j: int| 0 <= j < codes.len() ==> #[trigger] code_stands(b, root, at, codes, text, j),
    ensures
        crate::bios_unpack::huffman_walk(
            b,
            root,
            at,
            8,
            text.len() as int,
            bits_before(codes, j),
        ) == idle(b, root, text.take(j as int)),
    decreases j,
{
    if j > 0 {
        let k = (j - 1) as nat;
        lemma_symbols(b, root, at, codes, text, k);
        assert(code_stands(b, root, at, codes, text, k as int));
        let code = codes[k as int];
        let n = (code.len() - 1) as nat;
        lemma_inner(b, root, at, codes, text, k, n);
        let t = bits_before(codes, k) + n;
        let node = node_after(b, root, code, n);
        assert(ends_at_symbol(b, root, code, n as int));
        assert(bit_stands(b, at, codes, k as int, n as int));
        let out = text.take(k as int);
        lemma_walk_step(b, root, at, text.len() as int, t, node, out);
        assert(bits_before(codes, j) == t + 1);
        assert(out.push(text[k as int]) =~= text.take(j as int));
    } else {
        assert(text.take(0) =~= Seq::empty());
    }
}

/// Within a code the walk is at an inner node.
#[verifier::spinoff_prover]
proof fn lemma_inner(
    b: BusState,
    root: u32,
    at: u32,
    codes: Seq<Seq<bool>>,
    text: Seq<u8>,
    j: nat,
    i: nat,
)
    requires
        j < codes.len(),
        codes.len() == text.len(),
        code_stands(b, root, at, codes, text, j as int),
        i < codes[j as int].len(),
        crate::bios_unpack::huffman_walk(
            b,
            root,
            at,
            8,
            text.len() as int,
            bits_before(codes, j),
        ) == idle(b, root, text.take(j as int)),
    ensures
        crate::bios_unpack::huffman_walk(
            b,
            root,
            at,
            8,
            text.len() as int,
            bits_before(codes, j) + i,
        ) == idle(b, node_after(b, root, codes[j as int], i), text.take(j as int)),
    decreases i,
{
    if i > 0 {
        let k = (i - 1) as nat;
        lemma_inner(b, root, at, codes, text, j, k);
        let code = codes[j as int];
        assert(ends_at_symbol(b, root, code, k as int));
        assert(bit_stands(b, at, codes, j as int, k as int));
        lemma_walk_step(
            b,
            root,
            at,
            text.len() as int,
            bits_before(codes, j) + k,
            node_after(b, root, code, k),
            text.take(j as int),
        );
    }
}

/// One bit of a walk that is not complete.
proof fn lemma_walk_step(
    b: BusState,
    root: u32,
    at: u32,
    size: int,
    t: nat,
    node: u32,
    out: Seq<u8>,
)
    requires
        crate::bios_unpack::huffman_walk(b, root, at, 8, size, t) == idle(b, node, out),
        out.len() < size,
    ensures
        ({
            let right = bit_of_stream(b, at, t);
            let child = child_of(b, node, right);
            crate::bios_unpack::huffman_walk(b, root, at, 8, size, t + 1) == if child_is_symbol(
                b,
                node,
                right,
            ) {
                idle(b, root, out.push(b.read8(child)))
            } else {
                idle(b, child, out)
            }
        }),
{
    lemma_step(b, root, at, node, out, t);
}

/// One bit: to an inner node, or over a symbol back to the root.
proof fn lemma_step(b: BusState, root: u32, at: u32, node: u32, out: Seq<u8>, t: nat)
    ensures
        ({
            let right = bit_of_stream(b, at, t);
            let child = child_of(b, node, right);
            &&& crate::bios_unpack::stream_bit(b, at, t) == right
            &&& crate::bios_unpack::huffman_step(b, root, 8, idle(b, node, out), right) == if
                child_is_symbol(b, node, right) {
                idle(b, root, out.push(b.read8(child)))
            } else {
                idle(b, child, out)
            }
        }),
{
    let right = bit_of_stream(b, at, t);
    let child = child_of(b, node, right);
    lemma_stream_bit(b, at, t);
    lemma_child(b, node, out, right);
    let byte = b.read8(node);
    crate::encoding::lemma_byte_digits(byte);
    let symbol = b.read8(child);
    crate::encoding::lemma_symbol_bits(symbol, 0);
    reveal_with_fuel(crate::bios_unpack::with_whole_bytes, 3);
}

proof fn lemma_stream_bit(b: BusState, at: u32, t: nat)
    ensures
        crate::bios_unpack::stream_bit(b, at, t) == bit_of_stream(b, at, t),
{
    let word = b.read32(((at + (t / 32 * 4) as u32) % 0x1_0000_0000) as u32);
    crate::thumb_flow_laws::lemma_one_bit(word, (31 - t % 32) as u32);
    crate::encoding::lemma_wrapping(at, (t / 32 * 4) as u32);
}

proof fn lemma_child(b: BusState, node: u32, out: Seq<u8>, right: bool)
    ensures
        crate::bios_unpack::huffman_child(idle(b, node, out), right) == child_of(b, node, right),
{
    let byte = b.read8(node);
    let pair = (node - node % 2) as u32;
    let down = ((byte % 0x40 + 1) * 2) as u32;
    crate::encoding::lemma_wrapping(pair, down);
    let left = pair.wrapping_add(down);
    crate::encoding::lemma_wrapping(left, 1);
    crate::encoding::lemma_wrapping(left, 0);
    assert(((pair + down) % 0x1_0000_0000 + 1) % 0x1_0000_0000 == (pair + down + 1)
        % 0x1_0000_0000);
}

/// With four bits per symbol, two symbols make a byte, the first one its low
/// half: after the first nothing is produced yet, after the second the byte is.
pub proof fn law_huffman_halves(b: BusState, root: u32, node: u32, out: Seq<u8>, low: u8, right: bool)
    requires
        child_is_symbol(b, node, right),
        low < 16,
    ensures
        ({
            let symbol = b.read8(child_of(b, node, right)) % 16;
            let second = HuffmanWalk {
                pending: low as u32,
                pending_bits: 4,
                ..idle(b, node, out)
            };
            &&& crate::bios_unpack::huffman_step(b, root, 4, idle(b, node, out), right) == (
            HuffmanWalk { pending: symbol as u32, pending_bits: 4, ..idle(b, root, out) })
            &&& crate::bios_unpack::huffman_step(b, root, 4, second, right) == idle(
                b,
                root,
                out.push((low + 16 * symbol) as u8),
            )
        }),
{
    lemma_child(b, node, out, right);
    crate::encoding::lemma_byte_digits(b.read8(node));
    crate::encoding::lemma_symbol_bits(b.read8(child_of(b, node, right)), low as u32);
    reveal_with_fuel(crate::bios_unpack::with_whole_bytes, 3);
}

} // verus!

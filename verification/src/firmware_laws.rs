//! What the calls into the built-in BIOS do, from the number in the instruction
//! to the registers and the memory after the call.

use vstd::prelude::*;

use crate::arm::ArmInstruction;
use crate::bus::BusState;
use crate::cpu::{CpuState, Machine};
use crate::thumb::ThumbInstruction;

verus! {

/// Without a BIOS image, `SWI` calls the built-in function whose number stands
/// in bits 23-16 of the ARM instruction; unless the call jumps, the program goes
/// on behind it.
pub proof fn law_arm_call(m: Machine, instr: u32)
    requires
        crate::arm_laws::runs_arm(m, instr),
        instr / 0x100_0000 % 16 == 15,
        !m.bus.bios_loaded,
        m.swi((instr / 0x1_0000 % 0x100) as u8).1 is Continue,
        m.swi((instr / 0x1_0000 % 0x100) as u8).0.cpu.wf(),
        m.swi((instr / 0x1_0000 % 0x100) as u8).0.cpu.psr == m.cpu.psr,
    ensures
        ({
            let called = m.swi((instr / 0x1_0000 % 0x100) as u8).0;
            let after = m.stepped().0;
            &&& after.bus == called.bus
            &&& after.cpu.r == called.cpu.r.update(
                15,
                ((called.cpu.r[15] + 4) % 0x1_0000_0000) as u32,
            )
        }),
{
    let kind = ArmInstruction::category(instr);
    assert(kind is SoftwareInterrupt && (instr >> 16) % 0x100 == instr / 0x1_0000 % 0x100) by {
        crate::encoding::lemma_word_digits(instr);
        crate::encoding::lemma_word_patterns(instr);
        assert(instr / 0x200_0000 % 8 == 7 && instr / 0x100_0000 % 2 == 1);
    }
    assert(m.arm_executed(kind, instr) == m.swi((instr / 0x1_0000 % 0x100) as u8)) by {
        reveal(Machine::arm_executed);
    }
    crate::encoding::lemma_status_digits(m.cpu.psr);
    crate::arm_memory_laws::lemma_arm_continues(m, instr);
}

/// The same in THUMB state, where the number stands in the lowest byte.
pub proof fn law_thumb_call(m: Machine, instr: u16)
    requires
        crate::thumb_laws::runs_thumb(m, instr),
        instr / 0x100 == 0xDF,
        !m.bus.bios_loaded,
        m.swi((instr % 0x100) as u8).1 is Continue,
        m.swi((instr % 0x100) as u8).0.cpu.wf(),
        m.swi((instr % 0x100) as u8).0.cpu.psr == m.cpu.psr,
        m.swi((instr % 0x100) as u8).0.cpu.r[15] == m.cpu.r[15],
    ensures
        ({
            let called = m.swi((instr % 0x100) as u8).0;
            let after = m.stepped().0;
            &&& after.bus == called.bus
            &&& after.cpu.r == called.cpu.r.update(
                15,
                ((m.cpu.r[15] + 2) % 0x1_0000_0000) as u32,
            )
        }),
{
    assert(ThumbInstruction::format(instr) is SoftwareInterrupt) by {
        crate::encoding::lemma_half_digits(instr);
        assert(instr / 0x2000 == 6 && instr / 0x1000 % 2 == 1 && instr / 0x100 % 16 == 15);
    }
    assert(crate::thumb_laws::effect(m, instr) == m.swi((instr % 0x100) as u8)) by {
        reveal(Machine::thumb_executed);
    }
    crate::encoding::lemma_status_digits(m.cpu.psr);
    crate::thumb_laws::lemma_thumb_continues(m, instr);
}

/// Whether `q` and `r` are quotient and remainder of `a` by `b`: they make up
/// `a`, and the remainder is smaller than `b` and not on the other side of zero
/// than `a`.
pub open spec fn divides(a: int, b: int, q: int, r: int) -> bool {
    &&& a == b * q + r
    &&& -distance(b) < r < distance(b)
    &&& a >= 0 ==> r >= 0
    &&& a <= 0 ==> r <= 0
}

/// The distance of a number from zero.
pub open spec fn distance(a: int) -> int {
    if a < 0 {
        -a
    } else {
        a
    }
}

/// Whether the registers hold `a` divided by `b`: the quotient in `r0`, the
/// remainder in `r1` and the quotient without its sign in `r3`; by zero, one with
/// the sign of `a`, `a` itself and one. The one quotient without 32 bits is left
/// out.
pub open spec fn holds_division(before: CpuState, after: CpuState, a: int, b: int) -> bool {
    let q = crate::encoding::number(after.r[0]);
    let r = crate::encoding::number(after.r[1]);
    &&& b != 0 && !(a == -0x8000_0000 && b == -1) ==> divides(a, b, q, r) && after.r[3]
        == distance(q)
    &&& b == 0 ==> r == a && after.r[3] == 1 && q == if a < 0 {
        -1int
    } else {
        1int
    }
    &&& forall|j: int|
        0 <= j < 16 && j != 0 && j != 1 && j != 3 ==> #[trigger] after.r[j] == before.r[j]
    &&& after.psr == before.psr
    &&& after.r.len() == 16
}

/// Call 6 divides `r0` by `r1`, and call 7 `r1` by `r0`, as signed numbers.
pub proof fn law_division_calls(m: Machine)
    requires
        m.cpu.wf(),
    ensures
        ({
            let a = crate::encoding::number(m.cpu.r[0]);
            let b = crate::encoding::number(m.cpu.r[1]);
            &&& holds_division(m.cpu, m.swi(6).0.cpu, a, b)
            &&& holds_division(m.cpu, m.swi(7).0.cpu, b, a)
            &&& m.swi(6).0.bus == m.bus && m.swi(7).0.bus == m.bus
        }),
{
    let a = crate::encoding::number(m.cpu.r[0]);
    let b = crate::encoding::number(m.cpu.r[1]);
    assert(m.swi(6).0.cpu == m.cpu.divided(a, b) && m.swi(7).0.cpu == m.cpu.divided(b, a)
        && m.swi(6).0.bus == m.bus && m.swi(7).0.bus == m.bus) by {
        reveal(Machine::swi);
    }
    lemma_divided(m.cpu, a, b);
    lemma_divided(m.cpu, b, a);
}

proof fn lemma_divided(c: CpuState, a: int, b: int)
    requires
        c.wf(),
        -0x8000_0000 <= a <= 0x7FFF_FFFF,
        -0x8000_0000 <= b <= 0x7FFF_FFFF,
    ensures
        holds_division(c, c.divided(a, b), a, b),
{
    if b != 0 {
        lemma_quotient_fits(a, b);
        let q = crate::bios_math::quotient(a, b);
        let r = crate::bios_math::remainder(a, b);
        if !(a == -0x8000_0000 && b == -1) {
            lemma_word_number(q);
        }
        lemma_word_number(r);
    } else {
        lemma_word_number(a);
    }
}

/// The word of a number with 32 bits stands for it.
proof fn lemma_word_number(v: int)
    requires
        -0x8000_0000 <= v <= 0x7FFF_FFFF,
    ensures
        crate::encoding::number(crate::alu::word_of(v)) == v,
        v >= 0 ==> crate::alu::word_of(v) == v,
        v < 0 ==> crate::alu::word_of(-v) == -v,
{
}

proof fn lemma_quotient_fits(a: int, b: int)
    requires
        b != 0,
        -0x8000_0000 <= a <= 0x7FFF_FFFF,
        -0x8000_0000 <= b <= 0x7FFF_FFFF,
    ensures
        ({
            let q = crate::bios_math::quotient(a, b);
            let r = crate::bios_math::remainder(a, b);
            &&& divides(a, b, q, r)
            &&& -0x8000_0000 <= q <= 0x8000_0000
            &&& q == 0x8000_0000 ==> a == -0x8000_0000 && b == -1
            &&& -0x8000_0000 <= r <= 0x7FFF_FFFF
        }),
{
    crate::bios_math::law_division(a, b);
    let n = distance(a);
    let d = distance(b);
    assert(0 <= n / d <= n) by (nonlinear_arith)
        requires
            n >= 0,
            d >= 1,
    ;
    if d >= 2 {
        assert(n / d <= n / 2) by (nonlinear_arith)
            requires
                n >= 0,
                d >= 2,
        ;
    }
}

/// Call 8 leaves in `r0` the largest number whose square is not above `r0`.
pub proof fn law_square_root_call(m: Machine)
    requires
        m.cpu.wf(),
    ensures
        ({
            let after = m.swi(8).0;
            let root = after.cpu.r[0];
            &&& root * root <= m.cpu.r[0] < (root + 1) * (root + 1)
            &&& after.bus == m.bus
            &&& forall|j: int| 1 <= j < 16 ==> #[trigger] after.cpu.r[j] == m.cpu.r[j]
        }),
{
    reveal(Machine::swi);
    let n = m.cpu.r[0] as int;
    lemma_root_exists(n);
    let root = crate::bios_math::integer_sqrt(n);
    assert(crate::bios_math::is_integer_sqrt(root, n));
    assert(root < 0x1_0000) by (nonlinear_arith)
        requires
            0 <= root,
            root * root <= n,
            n < 0x1_0000_0000,
    ;
}

proof fn lemma_root_exists(n: int)
    requires
        0 <= n,
    ensures
        exists|root: int| crate::bios_math::is_integer_sqrt(root, n),
    decreases n,
{
    if n == 0 {
        assert(crate::bios_math::is_integer_sqrt(0, 0));
    } else {
        lemma_root_exists(n - 1);
        let m = n - 1;
        let r = choose|root: int| crate::bios_math::is_integer_sqrt(root, m);
        if (r + 1) * (r + 1) <= n {
            assert(n < (r + 2) * (r + 2)) by (nonlinear_arith)
                requires
                    n - 1 < (r + 1) * (r + 1),
                    0 <= r,
            ;
            assert(crate::bios_math::is_integer_sqrt(r + 1, n));
        } else {
            assert(crate::bios_math::is_integer_sqrt(r, n));
        }
    }
}

/// Calls 2, 4 and 5 put the processor to sleep and change nothing else; numbers
/// that no function has change nothing.
pub proof fn law_sleep_calls(m: Machine, number: u8)
    requires
        number == 2 || number == 4 || number == 5 || number == 3 || number == 0xD || number >= 0x19,
    ensures
        m.swi(number).0.bus == m.bus,
        number == 2 || number == 4 || number == 5 ==> m.swi(number).0.cpu == (CpuState {
            halted: true,
            ..m.cpu
        }),
        number == 3 || number == 0xD || number >= 0x19 ==> m.swi(number).0.cpu == m.cpu,
{
    reveal(Machine::swi);
}

/// Call 0 starts over: it clears 0x200 bytes from 0x03007E00 on and goes on at
/// the cartridge, or at external work RAM if the byte at 0x03007FFA was not zero,
/// in System mode with its stack and those of the other two modes in place and
/// the other registers zero.
pub proof fn law_soft_reset_call(m: Machine)
    ensures
        ({
            let after = m.swi(0).0;
            &&& after.bus == m.bus.cleared(0x0300_7E00, 0x200)
            &&& after.cpu.r[15] == if m.bus.read8(0x0300_7FFA) != 0 {
                0x0200_0000int
            } else {
                0x0800_0000int
            }
            &&& after.cpu.r[13] == 0x0300_7F00
            &&& after.cpu.bank_sp[2] == 0x0300_7FA0
            &&& after.cpu.bank_sp[3] == 0x0300_7FE0
            &&& after.cpu.psr % 0x20 == 0x1F
            &&& after.cpu.psr / 0x20 % 2 == 0
            &&& forall|j: int| 0 <= j < 13 || j == 14 ==> #[trigger] after.cpu.r[j] == 0
            &&& after.cpu.cycles == m.cpu.cycles
        }),
{
    reveal(Machine::swi);
    let entry = 0u32;
    let reset = CpuState::reset();
    lemma_reset_modes(reset);
}

proof fn lemma_reset_modes(reset: CpuState)
    requires
        reset == CpuState::reset(),
    ensures
        reset.mode() == crate::psr::CpuMode::Supervisor,
        reset.without_bios().psr % 0x20 == 0x1F,
        reset.without_bios().psr / 0x20 % 2 == 0,
{
    crate::encoding::lemma_block_control(0);
    crate::encoding::lemma_status_writes(0xD3, 0, 0x1F);
    crate::psr::law_mode_bits_round_trip(crate::psr::CpuMode::Supervisor, 0x13);
    crate::psr::law_with_mode(reset.psr, crate::psr::CpuMode::System);
}

/// Whether the bytes of `text` are in memory from `dst` on.
pub open spec fn arrives(b: BusState, dst: u32, text: Seq<u8>) -> bool {
    forall|k: int|
        0 <= k < text.len() ==> b.read8(#[trigger] crate::bus::stepped(dst, 1, k)) == text[k]
}

/// Whether a run of bytes lies in RAM and no byte occurs twice in it.
pub open spec fn plain_run(dst: u32, n: nat) -> bool {
    &&& crate::bios_laws::run_in_ram(dst, n)
    &&& forall|j: int, k: int|
        0 <= j < k < n ==> !#[trigger] crate::memory_laws::same_cell(
            crate::bus::stepped(dst, 1, k),
            crate::bus::stepped(dst, 1, j),
        )
}

/// Call 0x11 decompresses an LZ77 stream from `r0` to `r1`: the text that the
/// stream describes is there afterwards.
pub proof fn law_lz77_call(m: Machine, items: Seq<crate::unpack_laws::Item>, text: Seq<u8>)
    requires
        m.bus.wf(),
        crate::unpack_laws::describes(items, text),
        crate::unpack_laws::spells(m.bus, crate::unpack_laws::after(m.cpu.r[0], 4), items),
        m.bus.read32(m.cpu.r[0]) / 0x100 == text.len(),
        text.len() <= 0x40_0000,
        plain_run(m.cpu.r[1], text.len()),
    ensures
        arrives(m.swi(0x11).0.bus, m.cpu.r[1], text),
        m.swi(0x11).0.cpu == m.cpu,
{
    reveal(Machine::swi);
    crate::unpack_laws::law_lz77_gives_the_text(m.bus, m.cpu.r[0], items, text);
    crate::bios_laws::law_flushed_bytes_arrive(m.bus, m.cpu.r[1], text);
}

/// Call 0x14 decompresses a run-length stream from `r0` to `r1`.
pub proof fn law_run_length_call(
    m: Machine,
    blocks: Seq<crate::unpack_laws::Block>,
    text: Seq<u8>,
)
    requires
        m.bus.wf(),
        forall|j: int|
            0 <= j < blocks.len() ==> #[trigger] crate::unpack_laws::block_spelled(
                m.bus,
                crate::unpack_laws::after(m.cpu.r[0], 4),
                blocks,
                text,
                j,
            ),
        text.len() == crate::unpack_laws::block_at(blocks, blocks.len()).0,
        m.bus.read32(m.cpu.r[0]) / 0x100 == text.len(),
        text.len() <= 0x40_0000,
        plain_run(m.cpu.r[1], text.len()),
    ensures
        arrives(m.swi(0x14).0.bus, m.cpu.r[1], text),
        m.swi(0x14).0.cpu == m.cpu,
{
    reveal(Machine::swi);
    crate::unpack_laws::law_run_lengths_give_the_text(m.bus, m.cpu.r[0], blocks, text);
    crate::bios_laws::law_flushed_bytes_arrive(m.bus, m.cpu.r[1], text);
}

/// Call 0x16 undoes a difference filter on bytes from `r0` to `r1`.
pub proof fn law_difference_call(m: Machine)
    requires
        m.bus.wf(),
        m.bus.read32(m.cpu.r[0]) / 0x100 <= 0x40_0000,
        plain_run(
            m.cpu.r[1],
            crate::bios_unpack::diff_output(m.bus, m.cpu.r[0], false).len(),
        ),
    ensures
        arrives(
            m.swi(0x16).0.bus,
            m.cpu.r[1],
            crate::bios_unpack::diff_output(m.bus, m.cpu.r[0], false),
        ),
        m.swi(0x16).0.cpu == m.cpu,
{
    reveal(Machine::swi);
    crate::bios_laws::law_flushed_bytes_arrive(
        m.bus,
        m.cpu.r[1],
        crate::bios_unpack::diff_output(m.bus, m.cpu.r[0], false),
    );
}

/// The calls that write to video RAM store halfwords: bytes `2 k` and `2 k + 1`
/// of the result make the halfword `2 k` bytes after `r1`, and a last single
/// byte goes with a zero. They decompress what their bytewise counterparts do.
pub proof fn law_halfword_calls(m: Machine)
    ensures
        ({
            let (src, dst) = (m.cpu.r[0], m.cpu.r[1]);
            let halves = |text: Seq<u8>| halves_stored(m.bus, dst, text, ((text.len() + 1) / 2) as nat);
            &&& m.swi(0x12).0.bus == halves(crate::bios_unpack::lz77_output(m.bus, src))
            &&& m.swi(0x15).0.bus == halves(crate::bios_unpack::rl_output(m.bus, src))
            &&& m.swi(0x17).0.bus == halves(crate::bios_unpack::diff_output(m.bus, src, false))
            &&& m.swi(0x18).0.bus == halves(crate::bios_unpack::diff_output(m.bus, src, true))
            &&& m.swi(0x12).0.cpu == m.cpu && m.swi(0x15).0.cpu == m.cpu
            &&& m.swi(0x17).0.cpu == m.cpu && m.swi(0x18).0.cpu == m.cpu
        }),
{
    reveal(Machine::swi);
    let (src, dst) = (m.cpu.r[0], m.cpu.r[1]);
    let one = crate::bios_unpack::lz77_output(m.bus, src);
    let two = crate::bios_unpack::rl_output(m.bus, src);
    let three = crate::bios_unpack::diff_output(m.bus, src, false);
    let four = crate::bios_unpack::diff_output(m.bus, src, true);
    lemma_halves(m.bus, dst, one, ((one.len() + 1) / 2) as nat);
    lemma_halves(m.bus, dst, two, ((two.len() + 1) / 2) as nat);
    lemma_halves(m.bus, dst, three, ((three.len() + 1) / 2) as nat);
    lemma_halves(m.bus, dst, four, ((four.len() + 1) / 2) as nat);
}

/// Memory after storing the first `n` pairs of a text as halfwords.
pub open spec fn halves_stored(b: BusState, dst: u32, text: Seq<u8>, n: nat) -> BusState
    decreases n,
{
    if n == 0 {
        b
    } else {
        let k = n - 1;
        let low = text[2 * k];
        let high = if 2 * k + 1 < text.len() {
            text[2 * k + 1]
        } else {
            0
        };
        halves_stored(b, dst, text, k as nat).write16(
            ((dst + 2 * k) % 0x1_0000_0000) as u32,
            (low + 0x100 * high) as u16,
        )
    }
}

proof fn lemma_halves(b: BusState, dst: u32, text: Seq<u8>, n: nat)
    ensures
        b.flushed_halves(dst, text, n) == halves_stored(b, dst, text, n),
    decreases n,
{
    if n > 0 {
        lemma_halves(b, dst, text, (n - 1) as nat);
        let k = n - 1;
        assert(k * 2 == 2 * k);
    }
}

/// Call 0xB copies, or with bit 24 of `r2` fills, as many units as the low 21
/// bits of `r2` say, halfwords or with bit 26 words, from `r0` to `r1`, both
/// rounded down to a unit; call 0xC does so with words, in eights. Where the
/// units go to distinct places in RAM that are no sources, each holds afterwards
/// what its source held, and no other byte changes.
pub proof fn law_block_calls(m: Machine)
    requires
        m.bus.wf(),
    ensures
        ({
            let control = m.cpu.r[2];
            let word = control / 0x400_0000 % 2 == 1;
            let fixed = control / 0x100_0000 % 2 == 1;
            let unit = if word {
                4int
            } else {
                2int
            };
            let n = (control % 0x20_0000) as nat;
            let eights = ((control % 0x20_0000 + 7) / 8 * 8) as nat;
            let set = crate::bios_laws::block_transfer(
                (m.cpu.r[0] - m.cpu.r[0] as int % unit) as u32,
                (m.cpu.r[1] - m.cpu.r[1] as int % unit) as u32,
                word,
                fixed,
            );
            let fast = crate::bios_laws::block_transfer(
                (m.cpu.r[0] - m.cpu.r[0] % 4) as u32,
                (m.cpu.r[1] - m.cpu.r[1] % 4) as u32,
                true,
                fixed,
            );
            &&& crate::memory_laws::is_plain_copy(set, n) ==> crate::memory_laws::is_copied(
                m.bus,
                m.swi(0xB).0.bus,
                set,
                n,
            )
            &&& crate::memory_laws::is_plain_copy(fast, eights) ==> crate::memory_laws::is_copied(
                m.bus,
                m.swi(0xC).0.bus,
                fast,
                eights,
            )
            &&& m.swi(0xB).0.cpu == m.cpu && m.swi(0xC).0.cpu == m.cpu
        }),
{
    reveal(Machine::swi);
    let control = m.cpu.r[2];
    crate::encoding::lemma_word_digits(control);
    crate::encoding::lemma_block_control(control);
    let word = control / 0x400_0000 % 2 == 1;
    let fixed = control / 0x100_0000 % 2 == 1;
    let n = (control % 0x20_0000) as nat;
    let eights = ((control % 0x20_0000 + 7) / 8 * 8) as nat;
    let src = if word {
        crate::cpu::word_aligned(m.cpu.r[0])
    } else {
        crate::cpu::half_aligned(m.cpu.r[0])
    };
    let dst = if word {
        crate::cpu::word_aligned(m.cpu.r[1])
    } else {
        crate::cpu::half_aligned(m.cpu.r[1])
    };
    if crate::memory_laws::is_plain_copy(
        crate::bios_laws::block_transfer(src, dst, word, fixed),
        n,
    ) {
        crate::bios_laws::law_block_set_copies(m.bus, src, dst, word, fixed, n);
    }
    let from = crate::cpu::word_aligned(m.cpu.r[0]);
    let to = crate::cpu::word_aligned(m.cpu.r[1]);
    if crate::memory_laws::is_plain_copy(
        crate::bios_laws::block_transfer(from, to, true, fixed),
        eights,
    ) {
        crate::bios_laws::law_block_set_copies(m.bus, from, to, true, fixed, eights);
    }
}

} // verus!

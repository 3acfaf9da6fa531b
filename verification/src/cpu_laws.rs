//! What the processor promises as a whole: modes, exceptions and calls are
//! undone by what returns from them, privilege is kept, and a run has one
//! outcome.

use vstd::prelude::*;

use crate::arm::Condition;
use crate::bits::{bit, bit16};
use crate::bus::BusState;
use crate::cpu::{CpuState, Halt, Machine, StepResult};
use crate::cpu_arm::{msr_mask, rotated_immediate};
use crate::cpu_run::RunState;
use crate::psr::{CpuMode, MODE_MASK, PSR_VALID};

verus! {

/// Whether the mode bits of a status word name a mode.
pub open spec fn names_mode(psr: u32) -> bool {
    crate::psr::mode_named((psr & MODE_MASK) as u8) is Some
}

proof fn lemma_mode_bits(psr: u32)
    requires
        names_mode(psr),
    ensures
        CpuMode::from_bits((psr & MODE_MASK) as u8) == Some(crate::psr::mode_of(psr)),
        forall|bits: u32|
            bits & !MODE_MASK == psr & !MODE_MASK ==> #[trigger] crate::psr::with_mode(
                bits,
                crate::psr::mode_of(psr),
            ) == psr,
{
    let field = (psr & MODE_MASK) as u8;
    assert(((psr & 0x1Fu32) as u8) & 0x1Fu8 == (psr & 0x1Fu32) as u8) by (bit_vector);
    let m = crate::psr::mode_of(psr).bits();
    assert(m == field);
    assert forall|bits: u32| bits & !MODE_MASK == psr & !MODE_MASK implies #[trigger]
        crate::psr::with_mode(bits, crate::psr::mode_of(psr)) == psr by {
        assert((bits & !0x1Fu32) | (m as u32 & 0x1F) == psr) by (bit_vector)
            requires
                bits & !0x1Fu32 == psr & !0x1Fu32,
                m == (psr & 0x1Fu32) as u8,
        ;
    }
}

/// The conditions mean what their names say after a comparison: equality, the
/// unsigned order and the signed order of the operands.
pub proof fn law_comparison_decides_conditions(c: CpuState, a: u32, b: u32)
    ensures
        ({
            let (result, carry, overflow) = crate::alu::difference(a, b, true);
            let psr = c.with_flags(result, carry, overflow).psr;
            &&& Condition::Eq.holds_in(psr) == (a == b)
            &&& Condition::Ne.holds_in(psr) == (a != b)
            &&& Condition::Cs.holds_in(psr) == (a >= b)
            &&& Condition::Cc.holds_in(psr) == (a < b)
            &&& Condition::Hi.holds_in(psr) == (a > b)
            &&& Condition::Ls.holds_in(psr) == (a <= b)
            &&& Condition::Ge.holds_in(psr) == (crate::alu::signed(a) >= crate::alu::signed(b))
            &&& Condition::Lt.holds_in(psr) == (crate::alu::signed(a) < crate::alu::signed(b))
            &&& Condition::Gt.holds_in(psr) == (crate::alu::signed(a) > crate::alu::signed(b))
            &&& Condition::Le.holds_in(psr) == (crate::alu::signed(a) <= crate::alu::signed(b))
        }),
{
    let (result, carry, overflow) = crate::alu::difference(a, b, true);
    crate::alu::law_compare(a, b);
    crate::psr::law_alu_flags(c.psr, result, carry, overflow);
}

/// Switching to another mode and back restores the visible registers and the
/// status word. On the way `r0` to `r7` and `r15` stay, `r8` to `r12` change
/// for FIQ only, and modes that share a bank see the same registers.
pub proof fn law_mode_switch_is_undone(c: CpuState, mode: CpuMode)
    requires
        c.wf(),
        names_mode(c.psr),
    ensures
        ({
            let there = c.with_mode(mode);
            let back = there.with_mode(c.mode());
            &&& there.wf()
            &&& there.mode() == mode
            &&& back.r == c.r
            &&& back.psr == c.psr
            &&& forall|i: int| 0 <= i < 8 || i == 15 ==> #[trigger] there.r[i] == c.r[i]
            &&& mode != CpuMode::Fiq && c.mode() != CpuMode::Fiq ==> forall|i: int|
                8 <= i < 13 ==> #[trigger] there.r[i] == c.r[i]
            &&& mode.bank_of() == c.mode().bank_of() ==> there.r == c.r
        }),
{
    lemma_mode_bits(c.psr);
    crate::psr::law_with_mode(c.psr, mode);
    let there = c.with_mode(mode);
    let back = there.with_mode(c.mode());
    assert(back.r =~= c.r);
    assert(mode.bank_of() == c.mode().bank_of() ==> there.r =~= c.r);
}

/// After an exception, restoring the saved status word and jumping to the link
/// register goes back: the status word and the mode are those from before, the
/// program counter is the return address, aligned for the state of the
/// interrupted program, and so are all other registers, unless the exception
/// came in its own mode, whose link register it takes.
pub proof fn law_exception_is_undone(c: CpuState, mode: CpuMode, vector: u32, return_addr: u32)
    requires
        c.wf(),
        names_mode(c.psr),
        mode.has_spsr(),
    ensures
        ({
            let inside = c.exception_at(mode, vector, return_addr);
            let back = inside.with_restored_psr().jumped(inside.r[14]);
            &&& inside.mode() == mode
            &&& inside.r[15] == vector
            &&& inside.r[14] == return_addr
            &&& inside.saved_psr() == Some(c.psr)
            &&& !inside.thumb()
            &&& inside.psr & crate::psr::I != 0
            &&& back.psr == c.psr
            &&& back.r[15] == c.jumped(return_addr).r[15]
            &&& forall|i: int|
                0 <= i < 15 && (i != 14 || mode != c.mode()) ==> #[trigger] back.r[i] == c.r[i]
        }),
{
    lemma_mode_bits(c.psr);
    law_mode_switch_is_undone(c, mode);
    let banked = c.with_mode(mode).with_saved_psr(c.psr).with_reg(14, return_addr);
    let inside = c.exception_at(mode, vector, return_addr);
    lemma_exception_bits(banked.psr);
    assert(inside.mode() == mode);
    assert(banked.psr & MODE_MASK == inside.psr & MODE_MASK);
    let restored = inside.with_restored_psr();
    assert(inside.saved_psr() == Some(c.psr));
    assert(CpuMode::from_bits((c.psr & MODE_MASK) as u8) == Some(c.mode()));
    assert(restored == (CpuState { psr: c.psr, ..inside.with_mode(c.mode()) }));
    assert(restored.psr == c.psr);
}

proof fn lemma_exception_bits(psr: u32)
    ensures
        ({
            let after = crate::psr::with_flag(
                crate::psr::with_flag(psr, crate::psr::I, true),
                crate::psr::T,
                false,
            );
            &&& after & crate::psr::I != 0
            &&& after & crate::psr::T == 0
            &&& after & MODE_MASK == psr & MODE_MASK
        }),
{
    assert(((psr | 0x80) & !0x20u32) & 0x80 != 0 && ((psr | 0x80) & !0x20u32) & 0x20 == 0 && ((psr
        | 0x80) & !0x20u32) & 0x1F == psr & 0x1F) by (bit_vector);
}

/// `MOVS pc, lr`.
pub const RETURN_FROM_CALL: u32 = 0xE1B0_F00E;

/// `SUBS pc, lr, #4`.
pub const RETURN_FROM_INTERRUPT: u32 = 0xE25E_F004;

/// `BX lr`.
pub const RETURN_BY_EXCHANGE: u32 = 0xE12F_FF1E;

/// `MOVS pc, lr` restores the saved status word and jumps to the link register.
pub proof fn law_return_from_call(c: CpuState)
    requires
        c.wf(),
    ensures
        c.data_processing(RETURN_FROM_CALL).0 == c.with_restored_psr().jumped(c.r[14]),
{
    assert((0xE1B0_F00Eu32 >> 25) & 1u32 == 0 && (0xE1B0_F00Eu32 >> 4) & 1u32 == 0 && (0xE1B0_F00Eu32
        >> 20) & 1u32 == 1 && (0xE1B0_F00Eu32 >> 21) % 16 == 0xD && (0xE1B0_F00Eu32 >> 12) % 16
        == 15 && (0xE1B0_F00Eu32 >> 0) % 16 == 14 && (0xE1B0_F00Eu32 >> 7) % 32 == 0 && (
    0xE1B0_F00Eu32 >> 5) % 4 == 0 && (0xE1B0_F00Eu32 >> 5) & 3 == 0) by (bit_vector);
}

/// `SUBS pc, lr, #4` restores the saved status word and jumps to four bytes
/// before the link register.
pub proof fn law_return_from_interrupt(c: CpuState)
    requires
        c.wf(),
    ensures
        c.data_processing(RETURN_FROM_INTERRUPT).0 == c.with_restored_psr().jumped(
            c.r[14].wrapping_sub(4),
        ),
{
    assert((0xE25E_F004u32 >> 25) & 1u32 == 1 && (0xE25E_F004u32 >> 20) & 1u32 == 1 && (
    0xE25E_F004u32 >> 21) % 16 == 2 && (0xE25E_F004u32 >> 12) % 16 == 15 && (0xE25E_F004u32 >> 16)
        % 16 == 14 && (0xE25E_F004u32 >> 8) % 16 == 0) by (bit_vector);
    assert(rotated_immediate(RETURN_FROM_INTERRUPT) == 4);
}

/// A program that is interrupted goes on where it was: taking an interrupt and
/// returning with `SUBS pc, lr, #4` restores the status word and all registers.
pub proof fn law_interrupt_is_undone(m: Machine)
    requires
        m.cpu.wf(),
        names_mode(m.cpu.psr),
        m.cpu.mode() != CpuMode::Irq,
        m.cpu.r[15] == m.cpu.jumped(m.cpu.r[15]).r[15],
    ensures
        ({
            let back = m.irq_taken().cpu.data_processing(RETURN_FROM_INTERRUPT).0;
            &&& back.psr == m.cpu.psr
            &&& back.r == m.cpu.r
        }),
{
    let c = m.cpu;
    let vector = crate::cpu::IRQ_VECTOR;
    let inside = c.exception_at(CpuMode::Irq, vector, c.r[15].wrapping_add(4));
    let taken = m.irq_taken().cpu;
    law_exception_is_undone(c, CpuMode::Irq, vector, c.r[15].wrapping_add(4));
    law_mode_switch_is_undone(c, CpuMode::Irq);
    law_return_from_interrupt(taken);
    assert(c.r[15].wrapping_add(4).wrapping_sub(4) == c.r[15]);
    let restored = inside.with_restored_psr();
    let back = taken.data_processing(RETURN_FROM_INTERRUPT).0;
    assert(back.r == restored.jumped(c.r[15]).r);
    assert forall|i: int| 0 <= i < 16 implies back.r[i] == c.r[i] by {
        if i < 15 {
            assert(restored.jumped(inside.r[14]).r[i] == c.r[i]);
        }
    }
    assert(back.r =~= c.r);
}

/// In User mode `MSR` changes the flags of the status word and nothing else.
pub proof fn law_user_mode_keeps_control(c: CpuState, instr: u32)
    requires
        c.mode() == CpuMode::User,
    ensures
        c.msr(instr).psr & 0x0FFF_FFFF == c.psr & 0x0FFF_FFFF,
        c.msr(instr) == (CpuState { psr: c.msr(instr).psr, ..c }),
{
    let (old, value) = (
        c.psr,
        if bit(instr, 25) {
            rotated_immediate(instr)
        } else {
            c.reg(crate::bits::nibble_of(instr, 0) as int)
        },
    );
    let mask = msr_mask(instr, true);
    assert(mask == 0 || mask == 0xF000_0000u32);
    assert(((old & !mask) | (value & mask)) & 0x0FFF_FFFF == old & 0x0FFF_FFFF && ((old & !mask) | (
    value & mask)) & 0x1F == old & 0x1F) by (bit_vector)
        requires
            mask == 0 || mask == 0xF000_0000u32,
    ;
}

/// `MSR` never changes a bit that the processor does not implement.
pub proof fn law_reserved_bits_stay(c: CpuState, instr: u32)
    ensures
        c.msr(instr).psr & !PSR_VALID == c.psr & !PSR_VALID,
{
    let old = c.psr;
    let value = if bit(instr, 25) {
        rotated_immediate(instr)
    } else {
        c.reg(crate::bits::nibble_of(instr, 0) as int)
    };
    let mask = msr_mask(instr, c.mode() == CpuMode::User);
    assert(mask == 0 || mask == 0xFF || mask == 0xF000_0000u32 || mask == 0xF000_00FFu32);
    assert(({
        let new = (old & !mask) | (value & mask);
        &&& new & !0xF000_00FFu32 == old & !0xF000_00FFu32
        &&& ((new & !0x1Fu32) | (old & 0x1F)) & !0xF000_00FFu32 == old & !0xF000_00FFu32
    })) by (bit_vector)
        requires
            mask == 0 || mask == 0xFF || mask == 0xF000_0000u32 || mask == 0xF000_00FFu32,
    ;
}

/// A call with `BL` leaves the address behind it in the link register, and
/// `BX lr` goes back there.
pub proof fn law_branch_with_link_returns(c: CpuState, instr: u32)
    requires
        c.wf(),
        !c.thumb(),
        c.r[15] % 4 == 0,
    ensures
        ({
            let inside = c.branch(instr, true);
            let back = inside.branch_exchange(RETURN_BY_EXCHANGE);
            &&& inside.r[14] == c.r[15].wrapping_add(4)
            &&& back.r[15] == c.r[15].wrapping_add(4)
            &&& back.psr == c.psr
            &&& forall|i: int| 0 <= i < 14 ==> #[trigger] back.r[i] == c.r[i]
        }),
{
    assert((0xE12F_FF1Eu32 >> 0) % 16 == 14) by (bit_vector);
    let psr = c.psr;
    assert(psr & 0x20 == 0 ==> psr & !0x20u32 == psr) by (bit_vector);
    let back = c.r[15].wrapping_add(4);
    assert(back % 4 == 0);
}

/// A long THUMB call leaves the address behind its second half in the link
/// register, marked as THUMB, and reaches any address within 4 MiB; `BX` to
/// the link register goes back.
#[verifier::spinoff_prover]
#[verifier::rlimit(60)]
pub proof fn law_thumb_long_call_returns(c: CpuState, high: u16, low: u16)
    requires
        c.wf(),
        c.thumb(),
        c.r[15] % 2 == 0,
        !bit16(high, 11),
        bit16(low, 11),
    ensures
        ({
            let first = c.thumb_long_branch_with_link(high).0;
            let second = first.with_pc(c.r[15].wrapping_add(2)).thumb_long_branch_with_link(low).0;
            let back = second.exchanged(second.r[14]);
            &&& second.r[15] == crate::cpu::half_aligned(
                c.r[15].wrapping_add(4).wrapping_add_signed(
                    crate::alu::thumb_long_branch_high(high),
                ).wrapping_add((low % 0x800 * 2) as u32),
            )
            &&& second.thumb()
            &&& back.thumb()
            &&& back.r[15] == c.r[15].wrapping_add(4)
        }),
{
    let first = c.thumb_long_branch_with_link(high).0;
    let next = c.r[15].wrapping_add(2);
    let second = first.with_pc(next).thumb_long_branch_with_link(low).0;
    let link = next.wrapping_add(2);
    assert(link % 2 == 0);
    assert(link | 1u32 == link + 1) by (bit_vector)
        requires
            link % 2 == 0,
    ;
    assert(second.r[14] == link | 1u32);
    let psr = c.psr;
    assert((psr | 0x20) & 0x20 != 0) by (bit_vector);
}

/// Wherever a jump leads, the program counter is aligned for the state.
pub proof fn law_jumps_align(c: CpuState, target: u32)
    requires
        c.wf(),
    ensures
        c.jumped(target).r[15] % 2 == 0,
        !c.thumb() ==> c.jumped(target).r[15] % 4 == 0,
        c.exchanged(target).r[15] % 2 == 0,
        target % 2 == 0 ==> c.exchanged(target).r[15] % 4 == 0,
        c.exchanged(target).thumb() == (target % 2 == 1),
{
    let psr = c.psr;
    assert((psr | 0x20) & 0x20 != 0 && (psr & !0x20u32) & 0x20 == 0) by (bit_vector);
}

/// A long multiplication without accumulation leaves the product in its two
/// result registers.
pub proof fn law_long_multiplication(c: CpuState, instr: u32)
    requires
        c.wf(),
        !bit(instr, 21),
        crate::bits::nibble_of(instr, 16) != crate::bits::nibble_of(instr, 12),
    ensures
        ({
            let after = c.multiply_long(instr).0;
            let hi = after.r[crate::bits::nibble_of(instr, 16) as int];
            let lo = after.r[crate::bits::nibble_of(instr, 12) as int];
            hi * 0x1_0000_0000 + lo == crate::cpu_arm::long_product(
                c.reg(crate::bits::nibble_of(instr, 0) as int),
                c.reg(crate::bits::nibble_of(instr, 8) as int),
                bit(instr, 22),
            )
        }),
{
}

/// A sleeping processor does nothing until an interrupt is raised, and does not
/// sleep on once one is.
pub proof fn law_sleep_until_raised(m: Machine)
    requires
        m.cpu.halted,
    ensures
        !m.bus.irq.raised() ==> m.stepped() == (
            m,
            StepResult::Halted(Halt::WaitingForInterrupt),
        ),
        m.bus.irq.raised() ==> m.stepped() == (Machine {
            cpu: CpuState { halted: false, ..m.cpu },
            ..m
        }).stepped(),
{
}

/// A run has one outcome.
pub proof fn law_run_has_one_outcome(start: RunState, max_steps: u64, x: RunState, y: RunState)
    requires
        start.ends_as(max_steps, x),
        start.ends_as(max_steps, y),
    ensures
        x == y,
{
    let m = choose|n: nat| x.stop is Some && x == #[trigger] start.turns(max_steps, n);
    let n = choose|n: nat| y.stop is Some && y == #[trigger] start.turns(max_steps, n);
    if m <= n {
        lemma_ended_run_stays(start, max_steps, m, n);
    } else {
        lemma_ended_run_stays(start, max_steps, n, m);
    }
}

proof fn lemma_ended_run_stays(start: RunState, max_steps: u64, m: nat, n: nat)
    requires
        m <= n,
        start.turns(max_steps, m).stop is Some,
    ensures
        start.turns(max_steps, n) == start.turns(max_steps, m),
    decreases n,
{
    if m < n {
        lemma_ended_run_stays(start, max_steps, m, (n - 1) as nat);
    }
}

/// A run executes at most the given number of instructions, and exactly that
/// number if and only if it ends at the limit.
pub proof fn law_run_keeps_the_limit(machine: Machine, max_steps: u64, end: RunState)
    requires
        crate::cpu_run::run_from(machine).ends_as(max_steps, end),
    ensures
        end.steps <= max_steps,
        end.stop == Some(crate::cpu::RunStop::StepLimit) <==> end.steps == max_steps,
{
    let start = crate::cpu_run::run_from(machine);
    let n = choose|n: nat| end.stop is Some && end == #[trigger] start.turns(max_steps, n);
    lemma_steps_within(start, max_steps, n);
}

proof fn lemma_steps_within(start: RunState, max_steps: u64, n: nat)
    requires
        start.steps == 0,
        start.stop is None,
    ensures
        ({
            let after = start.turns(max_steps, n);
            &&& after.steps <= max_steps
            &&& after.stop == Some(crate::cpu::RunStop::StepLimit) ==> after.steps == max_steps
            &&& after.steps == max_steps && after.stop is Some ==> after.stop == Some(
                crate::cpu::RunStop::StepLimit,
            )
        }),
    decreases n,
{
    if n > 0 {
        lemma_steps_within(start, max_steps, (n - 1) as nat);
    }
}

/// Whether the registers of a list fit into RAM at `base`, without overlap.
pub open spec fn block_fits(list: u32, base: u32) -> bool {
    &&& forall|i: int|
        0 <= i < 16 && bit(list, i as u32) ==> crate::memory_laws::is_ram(
            #[trigger] crate::cpu_arm::block_addr(list, base, i as nat),
        ) && crate::cpu_arm::block_addr(list, base, i as nat) % 4 == 0
    &&& forall|i: int, j: int|
        0 <= i < 16 && 0 <= j < 16 && i != j && bit(list, i as u32) && bit(list, j as u32)
            ==> #[trigger] crate::memory_laws::apart(
            true,
            crate::cpu_arm::block_addr(list, base, i as nat),
            crate::cpu_arm::block_addr(list, base, j as nat),
        )
}

/// Registers that are stored to a block in RAM come back when the block is
/// loaded, whatever the registers hold by then; the others stay.
pub proof fn law_block_round_trip(m: Machine, list: u32, base: u32, rn: int, r: Seq<u32>)
    requires
        m.bus.wf(),
        block_fits(list, base),
        !bit(list, 15),
        r.len() == 16,
    ensures
        ({
            let bus = m.block_stored(list, base, rn, None, 16);
            let loaded = crate::cpu_arm::block_loaded(r, bus, list, base);
            forall|i: int|
                0 <= i < 16 ==> #[trigger] loaded[i] == if bit(list, i as u32) {
                    m.cpu.r[i]
                } else {
                    r[i]
                }
        }),
{
    lemma_block_stored(m, list, base, rn, 16);
}

proof fn lemma_block_stored(m: Machine, list: u32, base: u32, rn: int, n: nat)
    requires
        m.bus.wf(),
        block_fits(list, base),
        n <= 16,
    ensures
        m.block_stored(list, base, rn, None, n).wf(),
        forall|i: int|
            0 <= i < n && bit(list, i as u32) ==> m.block_stored(
                list,
                base,
                rn,
                None,
                n,
            ).read32(#[trigger] crate::cpu_arm::block_addr(list, base, i as nat))
                == m.cpu.store_value(i),
    decreases n,
{
    if n > 0 {
        let k = (n - 1) as nat;
        lemma_block_stored(m, list, base, rn, k);
        let before = m.block_stored(list, base, rn, None, k);
        let after = m.block_stored(list, base, rn, None, n);
        if bit(list, k as u32) {
            let at = crate::cpu_arm::block_addr(list, base, k);
            let value = m.cpu.store_value(k as int);
            assert(crate::memory_laws::is_ram(at));
            crate::memory_laws::law_ram_keeps_words(before, at, value, at);
            assert forall|i: int| 0 <= i < n && bit(list, i as u32) implies after.read32(
                #[trigger] crate::cpu_arm::block_addr(list, base, i as nat),
            ) == m.cpu.store_value(i) by {
                if i < k {
                    let a = crate::cpu_arm::block_addr(list, base, i as nat);
                    assert(crate::memory_laws::apart(true, at, a));
                    lemma_word_survives(before, at, value, a);
                }
            }
        }
    }
}

proof fn lemma_word_survives(bus: BusState, at: u32, value: u32, a: u32)
    requires
        bus.wf(),
        crate::memory_laws::is_ram(at),
        at % 4 == 0,
        a % 4 == 0,
        crate::memory_laws::apart(true, at, a),
    ensures
        bus.write32(at, value).read32(a) == bus.read32(a),
{
    crate::memory_laws::law_ram_keeps_words(bus, at, value, a);
    crate::memory_laws::law_ram_keeps_words(bus, at, value, (a + 1) as u32);
    crate::memory_laws::law_ram_keeps_words(bus, at, value, (a + 2) as u32);
    crate::memory_laws::law_ram_keeps_words(bus, at, value, (a + 3) as u32);
}

/// What THUMB code pushes it pops: the low registers of the list come back, and
/// the stack pointer is where it was.
pub proof fn law_thumb_push_pop(m: Machine, low: u16, r: Seq<u32>)
    requires
        m.cpu.wf(),
        m.bus.wf(),
        low < 0x100,
        block_fits(
            low as u32,
            m.cpu.r[13].wrapping_sub((4 * crate::bits::ones(low as u32, 16)) as u32),
        ),
        r.len() == 16,
        r[13] == m.thumb_push_pop((0xB400 + low) as u16).0.cpu.r[13],
    ensures
        ({
            let pushed = m.thumb_push_pop((0xB400 + low) as u16).0;
            let later = Machine { cpu: CpuState { r, ..pushed.cpu }, ..pushed };
            let popped = later.thumb_push_pop((0xBC00 + low) as u16).0;
            &&& popped.cpu.r[13] == m.cpu.r[13]
            &&& forall|i: int|
                0 <= i < 8 ==> #[trigger] popped.cpu.r[i] == if bit(low as u32, i as u32) {
                    m.cpu.r[i]
                } else {
                    r[i]
                }
        }),
{
    let push = (0xB400 + low) as u16;
    let pop = (0xBC00 + low) as u16;
    assert(!bit16(push, 11) && !bit16(push, 8) && bit16(pop, 11) && !bit16(pop, 8)) by {
        assert((push >> 11) & 1u16 == 0 && (push >> 8) & 1u16 == 0 && (pop >> 11) & 1u16 == 1 && (
        pop >> 8) & 1u16 == 0) by (bit_vector)
            requires
                push == 0xB400 + low,
                pop == 0xBC00 + low,
                low < 0x100,
        ;
    }
    let list = low as u32;
    assert(push % 0x100 == low && pop % 0x100 == low);
    assert(!bit(list, 15)) by {
        assert((list >> 15) & 1u32 == 0) by (bit_vector)
            requires
                list < 0x100,
        ;
    }
    crate::bits::lemma_ones_bound(list, 16);
    let bytes = (4 * crate::bits::ones(list, 16)) as u32;
    let base = m.cpu.r[13].wrapping_sub(bytes);
    law_block_round_trip(m, list, base, 13, r);
    let pushed = m.thumb_push_pop(push).0;
    assert(pushed.bus == m.block_stored(list, base, 13, None, 16));
    assert(pushed.cpu.r[13] == base);
}

/// A THUMB routine that pushes the link register on entry returns by popping the
/// program counter: the low registers of the list come back, the stack pointer
/// is where it was, and execution goes on at the address in the link register.
pub proof fn law_thumb_push_pop_returns(m: Machine, low: u16, r: Seq<u32>)
    requires
        m.cpu.wf(),
        m.bus.wf(),
        low < 0x100,
        block_fits(
            (low + 0x4000) as u32,
            m.cpu.r[13].wrapping_sub((4 * crate::bits::ones((low + 0x4000) as u32, 16)) as u32),
        ),
        r.len() == 16,
        r[13] == m.thumb_push_pop((0xB500 + low) as u16).0.cpu.r[13],
    ensures
        ({
            let pushed = m.thumb_push_pop((0xB500 + low) as u16).0;
            let later = Machine { cpu: CpuState { r, ..pushed.cpu }, ..pushed };
            let popped = later.thumb_push_pop((0xBD00 + low) as u16).0;
            &&& popped.cpu.r[13] == m.cpu.r[13]
            &&& popped.cpu.r[15] == crate::cpu::half_aligned(m.cpu.r[14])
            &&& popped.cpu.psr == m.cpu.psr
            &&& forall|i: int|
                0 <= i < 8 ==> #[trigger] popped.cpu.r[i] == if bit(low as u32, i as u32) {
                    m.cpu.r[i]
                } else {
                    r[i]
                }
        }),
{
    let push = (0xB500 + low) as u16;
    let pop = (0xBD00 + low) as u16;
    assert(!bit16(push, 11) && bit16(push, 8) && bit16(pop, 11) && bit16(pop, 8)) by {
        assert((push >> 11) & 1u16 == 0 && (push >> 8) & 1u16 == 1 && (pop >> 11) & 1u16 == 1 && (
        pop >> 8) & 1u16 == 1) by (bit_vector)
            requires
                push == 0xB500 + low,
                pop == 0xBD00 + low,
                low < 0x100,
        ;
    }
    assert(push % 0x100 == low && pop % 0x100 == low);
    let stored = (low + 0x4000) as u32;
    let loaded = (low + 0x8000) as u32;
    lemma_link_lists(low as u32, stored, loaded);
    let n = crate::bits::ones(stored, 16);
    crate::bits::lemma_ones_bound(stored, 16);
    let base = m.cpu.r[13].wrapping_sub((4 * n) as u32);
    lemma_block_stored(m, stored, base, 13, 16);
    let pushed = m.thumb_push_pop(push).0;
    assert(pushed.bus == m.block_stored(stored, base, 13, None, 16));
    assert(pushed.cpu.r[13] == base);
    assert(crate::cpu_arm::block_addr(loaded, base, 15) == crate::cpu_arm::block_addr(
        stored,
        base,
        14,
    ));
    assert(pushed.bus.read32(crate::cpu_arm::block_addr(stored, base, 14)) == m.cpu.r[14]);
    let later = Machine { cpu: CpuState { r, ..pushed.cpu }, ..pushed };
    let popped = later.thumb_push_pop(pop).0;
    assert forall|i: int| 0 <= i < 8 implies #[trigger] popped.cpu.r[i] == if bit(
        low as u32,
        i as u32,
    ) {
        m.cpu.r[i]
    } else {
        r[i]
    } by {
        assert(crate::cpu_arm::block_addr(loaded, base, i as nat) == crate::cpu_arm::block_addr(
            stored,
            base,
            i as nat,
        ));
    }
}

/// The lists that `PUSH` with the link register and `POP` with the program
/// counter go by: they share the low registers, and the extra one is the last
/// of each.
proof fn lemma_link_lists(low: u32, stored: u32, loaded: u32)
    requires
        low < 0x100,
        stored == low + 0x4000,
        loaded == low + 0x8000,
    ensures
        bit(stored, 14),
        !bit(stored, 15),
        !bit(loaded, 14),
        bit(loaded, 15),
        forall|i: int|
            0 <= i < 14 ==> bit(stored, i as u32) == #[trigger] bit(low, i as u32) && bit(
                loaded,
                i as u32,
            ) == bit(low, i as u32),
        forall|i: nat|
            i <= 14 ==> #[trigger] crate::bits::ones(stored, i) == crate::bits::ones(loaded, i),
        crate::bits::ones(loaded, 15) == crate::bits::ones(stored, 14),
        crate::bits::ones(loaded, 16) == crate::bits::ones(stored, 16),
{
    assert((stored >> 14) & 1u32 == 1 && (stored >> 15) & 1u32 == 0 && (loaded >> 14) & 1u32 == 0
        && (loaded >> 15) & 1u32 == 1) by (bit_vector)
        requires
            low < 0x100,
            stored == low + 0x4000,
            loaded == low + 0x8000,
    ;
    assert forall|i: int| 0 <= i < 14 implies bit(stored, i as u32) == #[trigger] bit(
        low,
        i as u32,
    ) && bit(loaded, i as u32) == bit(low, i as u32) by {
        let k = i as u32;
        assert((stored >> k) & 1u32 == (low >> k) & 1u32 && (loaded >> k) & 1u32 == (low >> k)
            & 1u32) by (bit_vector)
            requires
                low < 0x100,
                stored == low + 0x4000,
                loaded == low + 0x8000,
                k < 14,
        ;
    }
    assert forall|i: nat| i <= 14 implies #[trigger] crate::bits::ones(stored, i)
        == crate::bits::ones(loaded, i) by {
        lemma_same_bits_same_count(stored, loaded, low, i);
    }
    reveal_with_fuel(crate::bits::ones, 3);
}

proof fn lemma_same_bits_same_count(a: u32, b: u32, low: u32, n: nat)
    requires
        n <= 14,
        forall|i: int|
            0 <= i < 14 ==> bit(a, i as u32) == #[trigger] bit(low, i as u32) && bit(b, i as u32)
                == bit(low, i as u32),
    ensures
        crate::bits::ones(a, n) == crate::bits::ones(b, n),
    decreases n,
{
    if n > 0 {
        lemma_same_bits_same_count(a, b, low, (n - 1) as nat);
        assert(bit(a, (n - 1) as u32) == bit(low, (n - 1) as u32));
    }
}

/// `SWP` exchanges a register with a word of RAM.
pub proof fn law_swap_exchanges(m: Machine, instr: u32)
    requires
        m.cpu.wf(),
        m.bus.wf(),
        !bit(instr, 22),
        m.cpu.reg(crate::bits::nibble_of(instr, 16) as int) % 4 == 0,
        crate::memory_laws::is_ram(m.cpu.reg(crate::bits::nibble_of(instr, 16) as int)),
    ensures
        ({
            let after = m.single_data_swap(instr).0;
            let address = m.cpu.reg(crate::bits::nibble_of(instr, 16) as int);
            &&& after.cpu.r[crate::bits::nibble_of(instr, 12) as int] == m.bus.read32(address)
            &&& after.bus.read32(address) == m.cpu.reg(crate::bits::nibble_of(instr, 0) as int)
        }),
{
    let address = m.cpu.reg(crate::bits::nibble_of(instr, 16) as int);
    let source = m.cpu.reg(crate::bits::nibble_of(instr, 0) as int);
    crate::memory_laws::law_ram_keeps_words(m.bus, address, source, address);
}

} // verus!

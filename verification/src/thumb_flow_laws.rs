//! Where the THUMB branches lead, and what the block transfers move.

use vstd::prelude::*;

use crate::arm::Condition;
use crate::bus::BusState;
use crate::cpu::{CpuState, Halt, Machine, StepResult};
use crate::thumb::ThumbInstruction;

verus! {

/// The condition with a code holds as the code says.
proof fn lemma_code(code: u32, psr: u32)
    requires
        code < 16,
    ensures
        Condition::with_code(code).holds_in(psr) == crate::encoding::condition_met(
            code as int,
            psr,
        ),
{
    crate::encoding::lemma_status_digits(psr);
}

/// A field of `bits` values as a number in two's complement.
pub open spec fn signed_field(field: int, values: int) -> int {
    if 2 * field >= values {
        field - values
    } else {
        field
    }
}

/// `base` moved by a signed distance.
pub(crate) proof fn lemma_wrapping_signed(base: u32, by: i32)
    ensures
        base.wrapping_add_signed(by) == (base + by) % 0x1_0000_0000,
{
}

proof fn lemma_branch_fields(instr: u16)
    requires
        instr / 0x1000 == 13 || instr / 0x800 == 0x1C || instr / 0x800 >= 0x1E,
    ensures
        instr / 0x1000 == 13 && instr / 0x100 % 16 < 14 ==> ThumbInstruction::format(
            instr,
        ) is ConditionalBranch,
        instr / 0x1000 == 13 && instr / 0x100 % 16 == 14 ==> ThumbInstruction::format(
            instr,
        ) is Undefined,
        instr / 0x1000 == 13 && instr / 0x100 % 16 == 15 ==> ThumbInstruction::format(
            instr,
        ) is SoftwareInterrupt,
        instr / 0x800 == 0x1C ==> ThumbInstruction::format(instr) is UnconditionalBranch,
        instr / 0x800 >= 0x1E ==> ThumbInstruction::format(instr) is LongBranchWithLink,
        (instr >> 8) % 16 == instr / 0x100 % 16,
        crate::bits::bit16(instr, 11) == (instr / 0x800 % 2 == 1),
{
    crate::encoding::lemma_half_digits(instr);
    assert(instr / 0x1000 == 13 ==> instr / 0x2000 == 6 && instr / 0x1000 % 2 == 1);
    assert(instr / 0x800 >= 0x1C ==> instr / 0x2000 == 7);
    assert(instr / 0x800 == 0x1C ==> instr / 0x800 % 4 == 0);
    assert(instr / 0x800 >= 0x1E ==> instr / 0x800 % 4 >= 2);
}

/// `B<cond>` jumps, when its condition is met, to the program counter four bytes
/// ahead plus twice eight signed bits of the instruction; otherwise it goes on.
pub proof fn law_thumb_conditional_branch(m: Machine, instr: u16)
    requires
        crate::thumb_laws::runs_thumb(m, instr),
        instr / 0x1000 == 13,
        instr / 0x100 % 16 < 14,
    ensures
        ({
            let after = m.stepped().0;
            let target = ((m.cpu.r[15] + 4) % 0x1_0000_0000 + 2 * signed_field(
                (instr % 0x100) as int,
                0x100,
            )) % 0x1_0000_0000;
            if crate::encoding::condition_met((instr / 0x100 % 16) as int, m.cpu.psr) {
                crate::thumb_laws::jumps(m, after, target - target % 2)
            } else {
                &&& crate::thumb_laws::changes_only(m, after, 15)
                &&& after.cpu.psr == m.cpu.psr
            }
        }),
{
    lemma_branch_fields(instr);
    crate::thumb_laws::lemma_thumb_step(m, instr);
    lemma_code((instr / 0x100 % 16) as u32, m.cpu.psr);
    assert(crate::thumb_laws::effect(m, instr) == m.on_cpu(m.cpu.thumb_conditional_branch(instr)))
        by {
        reveal(Machine::thumb_executed);
    }
    crate::encoding::lemma_wrapping(m.cpu.r[15], 4);
    lemma_wrapping_signed(m.cpu.reg(15), crate::alu::thumb_branch_offset8(instr));
    if crate::encoding::condition_met((instr / 0x100 % 16) as int, m.cpu.psr) {
        crate::thumb_laws::lemma_thumb_jumps(m, instr);
    } else {
        crate::thumb_laws::lemma_thumb_continues(m, instr);
    }
}

/// `B` jumps to the program counter four bytes ahead plus twice eleven signed
/// bits of the instruction. A branch to itself ends the run.
pub proof fn law_thumb_branch(m: Machine, instr: u16)
    requires
        crate::thumb_laws::runs_thumb(m, instr),
        instr / 0x800 == 0x1C,
    ensures
        ({
            let (after, result) = m.stepped();
            let pc = m.cpu.r[15];
            let target = ((pc + 4) % 0x1_0000_0000 + 2 * signed_field(
                (instr % 0x800) as int,
                0x800,
            )) % 0x1_0000_0000;
            if target == pc {
                &&& after == m
                &&& result == StepResult::Halted(Halt::InfiniteLoop { pc, instr: instr as u32 })
            } else {
                &&& crate::thumb_laws::jumps(m, after, target - target % 2)
                &&& result == StepResult::Stepped
            }
        }),
{
    lemma_branch_fields(instr);
    crate::encoding::lemma_status_digits(m.cpu.psr);
    assert(CpuState { halted: false, ..m.cpu } == m.cpu);
    assert(Machine { cpu: CpuState { halted: false, ..m.cpu }, ..m } == m);
    assert(crate::thumb_laws::effect(m, instr) == m.on_cpu(
        m.cpu.thumb_unconditional_branch(instr),
    )) by {
        reveal(Machine::thumb_executed);
    }
    crate::encoding::lemma_wrapping(m.cpu.r[15], 4);
    lemma_wrapping_signed(m.cpu.reg(15), crate::alu::thumb_branch_offset11(instr));
}

/// `BL` in two halves: the first leaves in the link register the program counter
/// four bytes ahead plus 4096 times eleven signed bits; the second jumps to the
/// link register plus twice eleven bits, and leaves there the address behind
/// itself with bit 0 set.
pub proof fn law_thumb_long_branch(m: Machine, instr: u16)
    requires
        crate::thumb_laws::runs_thumb(m, instr),
        instr / 0x800 >= 0x1E,
    ensures
        ({
            let after = m.stepped().0;
            let ahead = (m.cpu.r[15] + 4) % 0x1_0000_0000;
            let next = (m.cpu.r[15] + 2) % 0x1_0000_0000;
            let target = (m.cpu.r[14] + instr % 0x800 * 2) % 0x1_0000_0000;
            &&& after.bus == m.bus
            &&& after.cpu.psr == m.cpu.psr
            &&& forall|j: int| 0 <= j < 14 ==> #[trigger] after.cpu.r[j] == m.cpu.r[j]
            &&& instr / 0x800 == 0x1E ==> {
                &&& after.cpu.r[14] == (ahead + 0x1000 * signed_field(
                    (instr % 0x800) as int,
                    0x800,
                )) % 0x1_0000_0000
                &&& after.cpu.r[15] == next
            }
            &&& instr / 0x800 == 0x1F ==> {
                &&& after.cpu.r[14] == next - next % 2 + 1
                &&& after.cpu.r[15] == target - target % 2
            }
        }),
{
    lemma_branch_fields(instr);
    crate::thumb_laws::lemma_thumb_step(m, instr);
    assert(crate::thumb_laws::effect(m, instr) == m.on_cpu(
        m.cpu.thumb_long_branch_with_link(instr),
    )) by {
        reveal(Machine::thumb_executed);
    }
    crate::encoding::lemma_wrapping(m.cpu.r[15], 4);
    crate::encoding::lemma_wrapping(m.cpu.r[15], 2);
    crate::encoding::lemma_wrapping(m.cpu.r[14], (instr % 0x800 * 2) as u32);
    lemma_wrapping_signed(m.cpu.reg(15), crate::alu::thumb_long_branch_high(instr));
    crate::encoding::lemma_status_digits(m.cpu.r[15].wrapping_add(2));
    if instr / 0x800 == 0x1F {
        assert(instr / 0x800 % 2 == 1);
        crate::thumb_laws::lemma_thumb_jumps(m, instr);
    } else {
        assert(instr / 0x800 % 2 == 0);
        crate::thumb_laws::lemma_thumb_continues(m, instr);
    }
}

/// How many of the lowest `i` registers are in a list.
pub open spec fn listed_below(list: u32, i: nat) -> nat
    decreases i,
{
    if i == 0 {
        0
    } else {
        listed_below(list, (i - 1) as nat) + if crate::encoding::has_bit(list, (i - 1) as u32) {
            1nat
        } else {
            0nat
        }
    }
}

/// Where register `i` of a block lies: the registers of the list stand in order,
/// the lowest at the lowest address, four bytes each.
pub open spec fn place(list: u32, base: u32, i: nat) -> u32 {
    ((base + 4 * listed_below(list, i)) % 0x1_0000_0000) as u32
}

pub(crate) proof fn lemma_place(list: u32, base: u32, i: nat)
    requires
        i <= 16,
    ensures
        crate::bits::ones(list, i) == listed_below(list, i),
        listed_below(list, i) <= i,
        crate::cpu_arm::block_addr(list, base, i) == place(list, base, i),
    decreases i,
{
    if i > 0 {
        lemma_place(list, base, (i - 1) as nat);
        crate::encoding::lemma_bitwise(list, list, (i - 1) as u32);
        lemma_one_bit(list, (i - 1) as u32);
    }
    crate::encoding::lemma_wrapping(base, (4 * listed_below(list, i)) as u32);
}

pub(crate) proof fn lemma_one_bit(list: u32, i: u32)
    requires
        i < 32,
    ensures
        crate::bits::bit(list, i) == crate::encoding::has_bit(list, i),
{
    crate::encoding::lemma_shifted_bits(list, if i == 0 {
        1
    } else {
        i
    }, 0);
}

/// Whether the registers `after` are those before, but for the registers of the
/// list below 15, which hold the words of the block at `base`.
pub open spec fn block_read(
    bus: BusState,
    before: Seq<u32>,
    after: Seq<u32>,
    list: u32,
    base: u32,
) -> bool {
    &&& after.len() == 16
    &&& forall|i: int|
        0 <= i < 16 ==> #[trigger] after[i] == if i < 15 && crate::encoding::has_bit(
            list,
            i as u32,
        ) {
            bus.read32(place(list, base, i as nat))
        } else {
            before[i]
        }
}

/// Loading a block reads the words in order.
pub proof fn law_block_is_read(r: Seq<u32>, bus: BusState, list: u32, base: u32)
    ensures
        block_read(bus, r, crate::cpu_arm::block_loaded(r, bus, list, base), list, base),
{
    assert forall|i: int| 0 <= i < 16 implies #[trigger] crate::cpu_arm::block_loaded(
        r,
        bus,
        list,
        base,
    )[i] == if i < 15 && crate::encoding::has_bit(list, i as u32) {
        bus.read32(place(list, base, i as nat))
    } else {
        r[i]
    } by {
        lemma_place(list, base, i as nat);
        lemma_one_bit(list, i as u32);
    }
}

/// Memory after storing the registers of the list below `n`, the lowest first,
/// where register `i` holds `values[i]`.
pub open spec fn block_written(
    bus: BusState,
    values: Seq<u32>,
    list: u32,
    base: u32,
    n: nat,
) -> BusState
    decreases n,
{
    if n == 0 {
        bus
    } else {
        let before = block_written(bus, values, list, base, (n - 1) as nat);
        if crate::encoding::has_bit(list, (n - 1) as u32) {
            before.write32(place(list, base, (n - 1) as nat), values[n - 1])
        } else {
            before
        }
    }
}

/// What registers are stored as: the base register as its new value where one
/// is given, the program counter four bytes further ahead than it is read.
pub open spec fn stored_values(c: CpuState, rn: int, base_value: Option<u32>) -> Seq<u32> {
    let ahead = if c.thumb() {
        8int
    } else {
        12int
    };
    Seq::new(
        16,
        |i: int|
            if i == rn && base_value is Some {
                base_value->0
            } else if i == 15 {
                ((c.r[15] + ahead) % 0x1_0000_0000) as u32
            } else {
                c.r[i]
            },
    )
}

/// Storing a block writes the words in order.
pub proof fn law_block_is_written(
    m: Machine,
    list: u32,
    base: u32,
    rn: int,
    base_value: Option<u32>,
    n: nat,
)
    requires
        n <= 16,
    ensures
        m.block_stored(list, base, rn, base_value, n) == block_written(
            m.bus,
            stored_values(m.cpu, rn, base_value),
            list,
            base,
            n,
        ),
    decreases n,
{
    if n > 0 {
        let i = (n - 1) as nat;
        law_block_is_written(m, list, base, rn, base_value, i);
        lemma_place(list, base, i);
        lemma_one_bit(list, i as u32);
        crate::encoding::lemma_wrapping(m.cpu.r[15], m.cpu.pipeline_offset());
        crate::encoding::lemma_wrapping(m.cpu.reg(15), 4);
        let ahead = m.cpu.pipeline_offset();
        assert(((m.cpu.r[15] + ahead) % 0x1_0000_0000 + 4) % 0x1_0000_0000 == (m.cpu.r[15] + ahead
            + 4) % 0x1_0000_0000);
    }
}

proof fn lemma_block_fields(instr: u16)
    requires
        instr / 0x1000 == 12 || instr / 0x200 == 0x5A || instr / 0x200 == 0x5E,
    ensures
        instr / 0x1000 == 12 ==> ThumbInstruction::format(instr) is MultipleLoadStore,
        instr / 0x1000 == 11 ==> ThumbInstruction::format(instr) is PushPop,
        crate::bits::bit16(instr, 11) == (instr / 0x800 % 2 == 1),
        crate::bits::bit16(instr, 8) == (instr / 0x100 % 2 == 1),
        crate::bits::octal_of(instr, 8) == instr / 0x100 % 8,
{
    crate::encoding::lemma_half_digits(instr);
    assert(instr / 0x1000 == 12 ==> instr / 0x2000 == 6 && instr / 0x1000 % 2 == 0);
    assert(instr / 0x1000 != 12 ==> instr / 0x2000 == 5 && instr / 0x1000 % 2 == 1 && instr / 0x200
        % 4 == 2 && instr / 0x100 % 16 != 0);
}

/// `PUSH` moves the stack pointer down by four bytes per register and stores the
/// listed low registers there in order, and the link register after them with
/// bit 8.
pub proof fn law_thumb_push(m: Machine, instr: u16)
    requires
        crate::thumb_laws::runs_thumb(m, instr),
        instr / 0x200 == 0x5A,
    ensures
        ({
            let after = m.stepped().0;
            let list = (instr % 0x100 + instr / 0x100 % 2 * 0x4000) as u32;
            let base = ((m.cpu.r[13] - 4 * listed_below(list, 16)) % 0x1_0000_0000) as u32;
            &&& after.bus == block_written(
                m.bus,
                stored_values(m.cpu, 13, None),
                list,
                base,
                16,
            )
            &&& crate::arm_laws::moves_on(m.cpu, after.cpu, 13, 2)
            &&& after.cpu.r[13] == base
            &&& after.cpu.psr == m.cpu.psr
        }),
{
    lemma_block_fields(instr);
    assert(instr / 0x1000 == 11 && instr / 0x800 % 2 == 0);
    crate::thumb_laws::lemma_thumb_step(m, instr);
    assert(crate::thumb_laws::effect(m, instr) == m.thumb_push_pop(instr)) by {
        reveal(Machine::thumb_executed);
    }
    let list = (instr % 0x100 + instr / 0x100 % 2 * 0x4000) as u32;
    lemma_place(list, 0, 16);
    crate::encoding::lemma_wrapping(m.cpu.r[13], (4 * listed_below(list, 16)) as u32);
    let base = ((m.cpu.r[13] - 4 * listed_below(list, 16)) % 0x1_0000_0000) as u32;
    law_block_is_written(m, list, base, 13, None, 16);
    crate::thumb_laws::lemma_thumb_continues(m, instr);
}

/// `POP` loads the listed low registers in order from the stack pointer up, and
/// with bit 8 the program counter after them, and leaves the stack pointer
/// behind the last word. It stays in THUMB state.
pub proof fn law_thumb_pop(m: Machine, instr: u16)
    requires
        crate::thumb_laws::runs_thumb(m, instr),
        instr / 0x200 == 0x5E,
    ensures
        ({
            let after = m.stepped().0;
            let sp = m.cpu.r[13];
            let list = (instr % 0x100 + instr / 0x100 % 2 * 0x8000) as u32;
            let target = m.bus.read32(place(list, sp, 15));
            &&& after.bus == m.bus
            &&& after.cpu.psr == m.cpu.psr
            &&& after.cpu.r[13] == place(list, sp, 16)
            &&& forall|i: int|
                0 <= i < 15 && i != 13 ==> #[trigger] after.cpu.r[i]
                    == if crate::encoding::has_bit(list, i as u32) {
                    m.bus.read32(place(list, sp, i as nat))
                } else {
                    m.cpu.r[i]
                }
            &&& after.cpu.r[15] == if instr / 0x100 % 2 == 1 {
                target - target % 2
            } else {
                (m.cpu.r[15] + 2) % 0x1_0000_0000
            }
        }),
{
    lemma_block_fields(instr);
    assert(instr / 0x1000 == 11 && instr / 0x800 % 2 == 1);
    crate::thumb_laws::lemma_thumb_step(m, instr);
    assert(crate::thumb_laws::effect(m, instr) == m.thumb_push_pop(instr)) by {
        reveal(Machine::thumb_executed);
    }
    let sp = m.cpu.r[13];
    let list = (instr % 0x100 + instr / 0x100 % 2 * 0x8000) as u32;
    lemma_place(list, sp, 15);
    lemma_place(list, sp, 16);
    law_block_is_read(m.cpu.r, m.bus, list, sp);
    if instr / 0x100 % 2 == 1 {
        crate::thumb_laws::lemma_thumb_jumps(m, instr);
    } else {
        crate::thumb_laws::lemma_thumb_continues(m, instr);
    }
}

/// `LDMIA` and `STMIA` move the listed low registers from or to the words at the
/// base register in order, and leave the base behind the last word.
pub proof fn law_thumb_multiple(m: Machine, instr: u16)
    requires
        crate::thumb_laws::runs_thumb(m, instr),
        instr / 0x1000 == 12,
    ensures
        ({
            let after = m.stepped().0;
            let rb = (instr / 0x100 % 8) as int;
            let base = m.cpu.r[rb];
            let list = (instr % 0x100) as u32;
            &&& after.cpu.psr == m.cpu.psr
            &&& after.cpu.r[rb] == place(list, base, 16)
            &&& after.cpu.r[15] == (m.cpu.r[15] + 2) % 0x1_0000_0000
            &&& instr / 0x800 % 2 == 1 ==> {
                &&& after.bus == m.bus
                &&& forall|i: int|
                    0 <= i < 15 && i != rb ==> #[trigger] after.cpu.r[i]
                        == if crate::encoding::has_bit(list, i as u32) {
                        m.bus.read32(place(list, base, i as nat))
                    } else {
                        m.cpu.r[i]
                    }
            }
            &&& instr / 0x800 % 2 == 0 ==> {
                &&& after.bus == block_written(
                    m.bus,
                    stored_values(m.cpu, rb, None),
                    list,
                    base,
                    16,
                )
                &&& forall|i: int|
                    0 <= i < 15 && i != rb ==> #[trigger] after.cpu.r[i] == m.cpu.r[i]
            }
        }),
{
    lemma_block_fields(instr);
    crate::thumb_laws::lemma_thumb_step(m, instr);
    assert(crate::thumb_laws::effect(m, instr) == m.thumb_multiple_load_store(instr)) by {
        reveal(Machine::thumb_executed);
    }
    let rb = (instr / 0x100 % 8) as int;
    let base = m.cpu.r[rb];
    let list = (instr % 0x100) as u32;
    lemma_place(list, base, 16);
    law_block_is_read(m.cpu.r, m.bus, list, base);
    law_block_is_written(m, list, base, rb, None, 16);
    crate::thumb_laws::lemma_thumb_continues(m, instr);
}

} // verus!

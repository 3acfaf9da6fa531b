//! What the ARM loads and stores move.

use vstd::prelude::*;

use crate::arm::ArmInstruction;
use crate::bits::bit;
use crate::bus::{AccessWidth, BusState};
use crate::cpu::{CpuState, Halt, Machine, StepResult};

verus! {

/// After an instruction that accesses memory or goes on, the registers and the
/// memory are those that it left.
pub(crate) proof fn lemma_arm_continues(m: Machine, instr: u32)
    requires
        crate::arm_laws::runs_arm(m, instr),
        !(ArmInstruction::category(instr) is Branch),
        ({
            let (after, executed) = m.arm_executed(ArmInstruction::category(instr), instr);
            &&& executed is Continue || executed is Accessed
            &&& after.cpu.wf()
            &&& !after.cpu.thumb()
        }),
    ensures
        ({
            let (after, executed) = m.arm_executed(ArmInstruction::category(instr), instr);
            let end = m.stepped().0;
            &&& end.bus == after.bus
            &&& end.cpu.psr == after.cpu.psr
            &&& end.cpu.r == after.cpu.r.update(
                15,
                ((after.cpu.r[15] + 4) % 0x1_0000_0000) as u32,
            )
            &&& end.cpu.spsr == after.cpu.spsr
            &&& end.cpu.wf()
            &&& m.stepped().1 == StepResult::Stepped
        }),
{
    crate::arm_laws::lemma_arm_step(m, instr);
    let kind = ArmInstruction::category(instr);
    let (after, executed) = m.arm_executed(kind, instr);
    let pc = m.cpu.r[15];
    crate::arm_laws::lemma_continues(
        after,
        executed,
        pc,
        crate::bus::cycles_of_access(pc, AccessWidth::Word, m.cpu.next_seq == Some(pc)),
        4,
        Halt::Unimplemented { pc, instr, kind },
    );
    crate::encoding::lemma_wrapping(after.cpu.r[15], 4);
}

/// After an instruction that jumps, the registers and the memory are those that
/// it left.
pub(crate) proof fn lemma_arm_jumps(m: Machine, instr: u32)
    requires
        crate::arm_laws::runs_arm(m, instr),
        !(ArmInstruction::category(instr) is Branch),
        m.arm_executed(ArmInstruction::category(instr), instr).1 is Branched,
    ensures
        ({
            let after = m.arm_executed(ArmInstruction::category(instr), instr).0;
            let end = m.stepped().0;
            &&& end.bus == after.bus
            &&& end.cpu.psr == after.cpu.psr
            &&& end.cpu.r == after.cpu.r
            &&& end.cpu.spsr == after.cpu.spsr
            &&& m.stepped().1 == StepResult::Stepped
        }),
{
    crate::arm_laws::lemma_arm_step(m, instr);
}

/// Register `i` as an ARM instruction reads it.
pub open spec fn arm_register(c: CpuState, i: int) -> u32 {
    crate::arm_laws::read_register(c, i, 8) as u32
}

/// Register `i` as an ARM instruction stores it.
pub open spec fn arm_stored(c: CpuState, i: int) -> u32 {
    crate::arm_laws::read_register(c, i, 12) as u32
}

pub(crate) proof fn lemma_arm_register(c: CpuState, i: int)
    requires
        !c.thumb(),
    ensures
        c.reg(i) == arm_register(c, i),
        c.store_value(i) == arm_stored(c, i),
{
    crate::encoding::lemma_wrapping(c.r[15], 8);
    crate::encoding::lemma_wrapping(c.reg(15), 4);
    if i == 15 {
        assert(((c.r[15] + 8) % 0x1_0000_0000 + 4) % 0x1_0000_0000 == (c.r[15] + 12)
            % 0x1_0000_0000);
    }
}

/// Whether `instr` is `LDR`, `STR`, `LDRB` or `STRB`.
pub open spec fn is_transfer(instr: u32) -> bool {
    &&& instr / 0x400_0000 % 4 == 1
    &&& instr / 0x200_0000 % 2 == 0 || instr / 0x10 % 2 == 0
}

/// The offset of a load or store: twelve bits of the instruction, or a register
/// shifted by five bits of it.
pub open spec fn transfer_offset(c: CpuState, instr: u32) -> u32 {
    if instr / 0x200_0000 % 2 == 0 {
        instr % 0x1000
    } else {
        crate::alu::shifted_by_immediate(
            crate::alu::ShiftType::from_bits(instr / 0x20 % 4),
            instr / 0x80 % 32,
            arm_register(c, (instr % 16) as int),
            crate::encoding::carried(c.psr),
        ).0
    }
}

/// The base moved up (bit 23) or down by the offset.
pub open spec fn moved_base(base: u32, offset: u32, instr: u32) -> u32 {
    let moved = if instr / 0x80_0000 % 2 == 1 {
        base + offset
    } else {
        base - offset
    };
    (moved % 0x1_0000_0000) as u32
}

proof fn lemma_moved_base(base: u32, offset: u32, instr: u32)
    ensures
        crate::cpu_arm::displaced(base, offset, bit(instr, 23)) == moved_base(base, offset, instr),
{
    crate::encoding::lemma_word_digits(instr);
    crate::encoding::lemma_wrapping(base, offset);
}

/// Whether a load or store moves its base: always when the offset is added after
/// the access (bit 24 clear), else on request (bit 21).
pub open spec fn moves_base(instr: u32) -> bool {
    instr / 0x100_0000 % 2 == 0 || instr / 0x20_0000 % 2 == 1
}

/// Whether the registers after a load or store are those before, but for the
/// base, which may have moved, and a register `rd` that may have been loaded.
pub open spec fn registers_after(
    before: CpuState,
    after: CpuState,
    instr: u32,
    moved: u32,
    loaded: Option<(int, int)>,
) -> bool {
    let rn = (instr / 0x1_0000 % 16) as int;
    &&& after.wf()
    &&& after.psr == before.psr
    &&& after.r[15] == (before.r[15] + 4) % 0x1_0000_0000
    &&& forall|i: int|
        0 <= i < 15 ==> #[trigger] after.r[i] == match loaded {
            Some((rd, value)) if i == rd => value,
            _ => if i == rn && moves_base(instr) {
                moved as int
            } else {
                before.r[i] as int
            },
        }
}

#[verifier::spinoff_prover]
proof fn lemma_transfer(m: Machine, instr: u32)
    requires
        crate::arm_laws::runs_arm(m, instr),
        is_transfer(instr),
    ensures
        ArmInstruction::category(instr) is SingleDataTransfer,
        m.arm_executed(ArmInstruction::category(instr), instr) == m.single_data_transfer(instr),
        !m.cpu.thumb(),
        m.cpu.carry() == crate::encoding::carried(m.cpu.psr),
{
    crate::encoding::lemma_word_digits(instr);
    crate::encoding::lemma_word_patterns(instr);
    crate::encoding::lemma_status_digits(m.cpu.psr);
    assert(instr / 0x200_0000 % 8 == 2 || instr / 0x200_0000 % 8 == 3 && instr / 0x10 % 2 == 0);
    reveal(Machine::arm_executed);
}

/// The fields of a load or store.
proof fn lemma_transfer_fields(c: CpuState, instr: u32)
    requires
        !c.thumb(),
        c.carry() == crate::encoding::carried(c.psr),
    ensures
        bit(instr, 24) == (instr / 0x100_0000 % 2 == 1),
        bit(instr, 22) == (instr / 0x40_0000 % 2 == 1),
        bit(instr, 21) == (instr / 0x20_0000 % 2 == 1),
        bit(instr, 20) == (instr / 0x10_0000 % 2 == 1),
        crate::bits::nibble_of(instr, 16) == instr / 0x1_0000 % 16,
        crate::bits::nibble_of(instr, 12) == instr / 0x1000 % 16,
        crate::bits::nibble_of(instr, 8) == instr / 0x100 % 16,
        crate::bits::nibble_of(instr, 0) == instr % 16,
        (instr >> 5) % 4 == instr / 0x20 % 4,
        (if bit(instr, 25) {
            crate::alu::shifted_by_immediate(
                crate::alu::ShiftType::from_bits(instr >> 5),
                (instr >> 7) % 32,
                c.reg(crate::bits::nibble_of(instr, 0) as int),
                c.carry(),
            ).0
        } else {
            instr % 0x1000
        }) == transfer_offset(c, instr),
{
    crate::encoding::lemma_word_digits(instr);
    lemma_arm_register(c, (instr % 16) as int);
}

/// `LDR` and `LDRB` bring the word or byte at the base register, moved by the
/// offset first when bit 24 is set; `STR` and `STRB` put the register, or its
/// lowest byte, there. The program counter is stored twelve bytes ahead.
#[verifier::spinoff_prover]
#[verifier::rlimit(40)]
pub proof fn law_arm_transfers(m: Machine, instr: u32)
    requires
        crate::arm_laws::runs_arm(m, instr),
        is_transfer(instr),
        instr / 0x1_0000 % 16 < 15 || !moves_base(instr),
        instr / 0x1000 % 16 < 15 || instr / 0x10_0000 % 2 == 0,
    ensures
        ({
            let after = m.stepped().0;
            let base = arm_register(m.cpu, (instr / 0x1_0000 % 16) as int);
            let moved = moved_base(base, transfer_offset(m.cpu, instr), instr);
            let address = if instr / 0x100_0000 % 2 == 1 {
                moved
            } else {
                base
            };
            let rd = (instr / 0x1000 % 16) as int;
            let byte = instr / 0x40_0000 % 2 == 1;
            if instr / 0x10_0000 % 2 == 1 {
                &&& after.bus == m.bus
                &&& registers_after(
                    m.cpu,
                    after.cpu,
                    instr,
                    moved,
                    Some(
                        (
                            rd,
                            if byte {
                                m.bus.read8(address) as int
                            } else {
                                m.bus.read32(address) as int
                            },
                        ),
                    ),
                )
            } else {
                let value = arm_stored(m.cpu, rd);
                &&& after.bus == if byte {
                    m.bus.write8(address, (value % 0x100) as u8)
                } else {
                    m.bus.write32(address, value)
                }
                &&& registers_after(m.cpu, after.cpu, instr, moved, None)
            }
        }),
{
    lemma_transfer(m, instr);
    lemma_transfer_fields(m.cpu, instr);
    let rn = (instr / 0x1_0000 % 16) as int;
    let rd = (instr / 0x1000 % 16) as int;
    lemma_arm_register(m.cpu, rn);
    lemma_arm_register(m.cpu, rd);
    lemma_moved_base(m.cpu.reg(rn), transfer_offset(m.cpu, instr), instr);
    lemma_arm_continues(m, instr);
}

/// `LDR pc` jumps to the word that it brings, rounded down to a multiple of four.
pub proof fn law_arm_load_jumps(m: Machine, instr: u32)
    requires
        crate::arm_laws::runs_arm(m, instr),
        is_transfer(instr),
        instr / 0x1000 % 16 == 15,
        instr / 0x10_0000 % 2 == 1,
        instr / 0x40_0000 % 2 == 0,
    ensures
        ({
            let after = m.stepped().0;
            let base = arm_register(m.cpu, (instr / 0x1_0000 % 16) as int);
            let moved = moved_base(base, transfer_offset(m.cpu, instr), instr);
            let address = if instr / 0x100_0000 % 2 == 1 {
                moved
            } else {
                base
            };
            let target = m.bus.read32(address);
            &&& after.cpu.r[15] == target - target % 4
            &&& after.bus == m.bus
            &&& after.cpu.psr == m.cpu.psr
        }),
{
    lemma_transfer(m, instr);
    lemma_transfer_fields(m.cpu, instr);
    let rn = (instr / 0x1_0000 % 16) as int;
    lemma_arm_register(m.cpu, rn);
    lemma_moved_base(m.cpu.reg(rn), transfer_offset(m.cpu, instr), instr);
    lemma_arm_jumps(m, instr);
}

/// Whether `instr` is `STRH` (kind 1), `LDRH` (1), `LDRSB` (2) or `LDRSH` (3).
pub open spec fn is_half_transfer(instr: u32) -> bool {
    &&& instr / 0x200_0000 % 8 == 0
    &&& instr / 0x80 % 2 == 1
    &&& instr / 0x10 % 2 == 1
    &&& instr / 0x20 % 4 != 0
}

#[verifier::spinoff_prover]
proof fn lemma_half_transfer(m: Machine, instr: u32)
    requires
        crate::arm_laws::runs_arm(m, instr),
        is_half_transfer(instr),
    ensures
        ArmInstruction::category(instr) is HalfwordTransfer,
        m.arm_executed(ArmInstruction::category(instr), instr) == m.halfword_transfer(instr),
        !m.cpu.thumb(),
        m.cpu.carry() == crate::encoding::carried(m.cpu.psr),
{
    crate::encoding::lemma_word_digits(instr);
    crate::encoding::lemma_word_patterns(instr);
    crate::encoding::lemma_status_digits(m.cpu.psr);
    reveal(Machine::arm_executed);
}

/// The halfword transfers: the offset is eight bits of the instruction or a
/// register. `STRH` puts the low halfword of a register, `LDRH` brings a
/// halfword, `LDRSB` a byte with its sign and `LDRSH` a halfword with its sign.
#[verifier::spinoff_prover]
#[verifier::rlimit(40)]
pub proof fn law_arm_halfword_transfers(m: Machine, instr: u32)
    requires
        crate::arm_laws::runs_arm(m, instr),
        is_half_transfer(instr),
        instr / 0x1_0000 % 16 < 15 || !moves_base(instr),
        instr / 0x1000 % 16 < 15,
    ensures
        ({
            let after = m.stepped().0;
            let base = arm_register(m.cpu, (instr / 0x1_0000 % 16) as int);
            let offset = if instr / 0x40_0000 % 2 == 1 {
                (instr / 0x100 % 16 * 16 + instr % 16) as u32
            } else {
                arm_register(m.cpu, (instr % 16) as int)
            };
            let moved = moved_base(base, offset, instr);
            let address = if instr / 0x100_0000 % 2 == 1 {
                moved
            } else {
                base
            };
            let rd = (instr / 0x1000 % 16) as int;
            let kind = instr / 0x20 % 4;
            if instr / 0x10_0000 % 2 == 1 {
                let value = if kind == 1 {
                    crate::thumb_laws::half_loaded(m.bus, address as int)
                } else if kind == 2 {
                    crate::thumb_laws::signed_byte(m.bus.read8(address) as int)
                } else {
                    crate::thumb_laws::signed_half_loaded(m.bus, address as int)
                };
                &&& after.bus == m.bus
                &&& registers_after(m.cpu, after.cpu, instr, moved, Some((rd, value)))
            } else {
                &&& after.bus == m.bus.write16(address, (m.cpu.r[rd] % 0x1_0000) as u16)
                &&& registers_after(m.cpu, after.cpu, instr, moved, None)
            }
        }),
{
    lemma_half_transfer(m, instr);
    lemma_transfer_fields(m.cpu, instr);
    let rn = (instr / 0x1_0000 % 16) as int;
    let rd = (instr / 0x1000 % 16) as int;
    lemma_arm_register(m.cpu, rn);
    lemma_arm_register(m.cpu, rd);
    lemma_arm_register(m.cpu, (instr % 16) as int);
    let offset = if instr / 0x40_0000 % 2 == 1 {
        (instr / 0x100 % 16 * 16 + instr % 16) as u32
    } else {
        m.cpu.reg((instr % 16) as int)
    };
    let base = m.cpu.reg(rn);
    lemma_moved_base(base, offset, instr);
    crate::thumb_laws::lemma_halfword_loads(m.bus, base);
    crate::thumb_laws::lemma_halfword_loads(m.bus, moved_base(base, offset, instr));
    lemma_arm_continues(m, instr);
}

/// `SWP` and `SWPB` bring the word or byte at the base register and put another
/// register, or its lowest byte, in its place.
#[verifier::spinoff_prover]
pub proof fn law_arm_swap(m: Machine, instr: u32)
    requires
        crate::arm_laws::runs_arm(m, instr),
        instr / 0x80_0000 % 32 == 2,
        instr / 0x10_0000 % 4 == 0,
        instr / 0x10 % 256 == 9,
        instr / 0x1000 % 16 < 15,
    ensures
        ({
            let after = m.stepped().0;
            let address = arm_register(m.cpu, (instr / 0x1_0000 % 16) as int);
            let value = arm_register(m.cpu, (instr % 16) as int);
            let rd = (instr / 0x1000 % 16) as int;
            let byte = instr / 0x40_0000 % 2 == 1;
            &&& after.bus == if byte {
                m.bus.write8(address, (value % 0x100) as u8)
            } else {
                m.bus.write32(address, value)
            }
            &&& after.cpu.r[rd] == if byte {
                m.bus.read8(address) as int
            } else {
                m.bus.read32(address) as int
            }
            &&& crate::arm_laws::moves_on(m.cpu, after.cpu, rd, 4)
            &&& after.cpu.psr == m.cpu.psr
        }),
{
    crate::encoding::lemma_word_digits(instr);
    crate::encoding::lemma_word_patterns(instr);
    crate::encoding::lemma_status_digits(m.cpu.psr);
    assert(ArmInstruction::category(instr) is SingleDataSwap) by {
        assert(instr / 0x10 % 0x100_0000 == 0x12_FFF1 ==> instr / 0x80 % 2 == 0);
        assert(instr / 0x40_0000 % 64 == 0 ==> instr / 0x80_0000 % 32 == 0);
    }
    assert(m.arm_executed(ArmInstruction::category(instr), instr) == m.single_data_swap(instr)) by {
        reveal(Machine::arm_executed);
    }
    lemma_arm_register(m.cpu, (instr / 0x1_0000 % 16) as int);
    lemma_arm_register(m.cpu, (instr % 16) as int);
    lemma_arm_continues(m, instr);
}

/// The lowest address of a block: with `n` registers, from the base up, or from
/// four bytes above it (bit 24), or, going down (bit 23 clear), `4 n` bytes below
/// it, or four bytes more where the base itself is the highest word. Rounded
/// down to a multiple of four.
pub open spec fn block_start(base: u32, n: nat, instr: u32) -> u32 {
    let up = instr / 0x80_0000 % 2 == 1;
    let before = instr / 0x100_0000 % 2 == 1;
    let exact = if up && before {
        base + 4
    } else if up {
        base as int
    } else if before {
        base - 4 * n
    } else {
        base - 4 * n + 4
    };
    let lowest = exact % 0x1_0000_0000;
    (lowest - lowest % 4) as u32
}

/// The base after a block: `4 n` bytes further in the direction of the block.
pub open spec fn block_end(base: u32, n: nat, instr: u32) -> u32 {
    ((if instr / 0x80_0000 % 2 == 1 {
        base + 4 * n
    } else {
        base - 4 * n
    }) % 0x1_0000_0000) as u32
}

proof fn lemma_block_ends(base: u32, n: nat, instr: u32)
    requires
        n <= 16,
    ensures
        ({
            let up = bit(instr, 23);
            let end = crate::cpu_arm::displaced(base, (4 * n) as u32, up);
            let low = if up {
                base
            } else {
                end
            };
            &&& end == block_end(base, n, instr)
            &&& crate::cpu::word_aligned(
                if bit(instr, 24) == up {
                    low.wrapping_add(4)
                } else {
                    low
                },
            ) == block_start(base, n, instr)
        }),
{
    crate::encoding::lemma_word_digits(instr);
    crate::encoding::lemma_wrapping(base, (4 * n) as u32);
    crate::encoding::lemma_wrapping(base, 4);
    let end = crate::cpu_arm::displaced(base, (4 * n) as u32, bit(instr, 23));
    crate::encoding::lemma_wrapping(end, 4);
    assert(((base - 4 * n) % 0x1_0000_0000 + 4) % 0x1_0000_0000 == (base - 4 * n + 4)
        % 0x1_0000_0000);
}

#[verifier::spinoff_prover]
proof fn lemma_block(m: Machine, instr: u32)
    requires
        crate::arm_laws::runs_arm(m, instr),
        instr / 0x200_0000 % 8 == 4,
    ensures
        ArmInstruction::category(instr) is BlockDataTransfer,
        m.arm_executed(ArmInstruction::category(instr), instr) == m.block_data_transfer(instr),
        !m.cpu.thumb(),
        bit(instr, 22) == (instr / 0x40_0000 % 2 == 1),
        bit(instr, 21) == (instr / 0x20_0000 % 2 == 1),
        bit(instr, 20) == (instr / 0x10_0000 % 2 == 1),
        crate::bits::nibble_of(instr, 16) == instr / 0x1_0000 % 16,
{
    crate::encoding::lemma_word_digits(instr);
    crate::encoding::lemma_word_patterns(instr);
    crate::encoding::lemma_status_digits(m.cpu.psr);
    reveal(Machine::arm_executed);
}

/// `LDM` brings the listed registers from the words of the block, the lowest
/// register from the lowest address. A base that is not in the list moves behind
/// the block on request (bit 21).
#[verifier::spinoff_prover]
#[verifier::rlimit(40)]
pub proof fn law_arm_load_multiple(m: Machine, instr: u32)
    requires
        crate::arm_laws::runs_arm(m, instr),
        instr / 0x200_0000 % 8 == 4,
        instr / 0x10_0000 % 2 == 1,
        instr / 0x1_0000 % 16 < 15,
        instr / 0x40_0000 % 2 == 0,
    ensures
        ({
            let after = m.stepped().0;
            let list = instr % 0x1_0000;
            let rn = (instr / 0x1_0000 % 16) as int;
            let n = crate::thumb_flow_laws::listed_below(list, 16);
            let start = block_start(m.cpu.r[rn], n, instr);
            let target = m.bus.read32(crate::thumb_flow_laws::place(list, start, 15));
            &&& after.bus == m.bus
            &&& after.cpu.psr == m.cpu.psr
            &&& forall|i: int|
                0 <= i < 15 ==> #[trigger] after.cpu.r[i] == if crate::encoding::has_bit(
                    list,
                    i as u32,
                ) {
                    m.bus.read32(crate::thumb_flow_laws::place(list, start, i as nat))
                } else if i == rn && instr / 0x20_0000 % 2 == 1 {
                    block_end(m.cpu.r[rn], n, instr)
                } else {
                    m.cpu.r[i]
                }
            &&& after.cpu.r[15] == if crate::encoding::has_bit(list, 15) {
                target - target % 4
            } else {
                (m.cpu.r[15] + 4) % 0x1_0000_0000
            }
        }),
{
    lemma_block(m, instr);
    let list = instr % 0x1_0000;
    let rn = (instr / 0x1_0000 % 16) as int;
    let n = crate::thumb_flow_laws::listed_below(list, 16);
    crate::thumb_flow_laws::lemma_place(list, 0, 16);
    lemma_block_ends(m.cpu.r[rn], n, instr);
    let start = block_start(m.cpu.r[rn], n, instr);
    crate::thumb_flow_laws::lemma_place(list, start, 15);
    crate::thumb_flow_laws::lemma_one_bit(list, 15);
    crate::thumb_flow_laws::lemma_one_bit(list, rn as u32);
    crate::thumb_flow_laws::law_block_is_read(m.cpu.r, m.bus, list, start);
    if crate::encoding::has_bit(list, 15) {
        lemma_arm_jumps(m, instr);
    } else {
        lemma_arm_continues(m, instr);
    }
}

/// `STM` puts the listed registers into the words of the block, the lowest
/// register at the lowest address. On request (bit 21) the base moves behind the
/// block, and is stored moved unless it is the lowest register of the list.
#[verifier::spinoff_prover]
#[verifier::rlimit(40)]
pub proof fn law_arm_store_multiple(m: Machine, instr: u32)
    requires
        crate::arm_laws::runs_arm(m, instr),
        instr / 0x200_0000 % 8 == 4,
        instr / 0x10_0000 % 2 == 0,
        instr / 0x1_0000 % 16 < 15,
    ensures
        ({
            let after = m.stepped().0;
            let list = instr % 0x1_0000;
            let rn = (instr / 0x1_0000 % 16) as int;
            let n = crate::thumb_flow_laws::listed_below(list, 16);
            let start = block_start(m.cpu.r[rn], n, instr);
            let end = block_end(m.cpu.r[rn], n, instr);
            let moves = instr / 0x20_0000 % 2 == 1;
            let lowest = crate::encoding::has_bit(list, rn as u32)
                && crate::thumb_flow_laws::listed_below(list, rn as nat) == 0;
            let stored = if moves && !lowest {
                Some(end)
            } else {
                None
            };
            &&& after.bus == crate::thumb_flow_laws::block_written(
                m.bus,
                crate::thumb_flow_laws::stored_values(m.cpu, rn, stored),
                list,
                start,
                16,
            )
            &&& crate::arm_laws::moves_on(m.cpu, after.cpu, rn, 4)
            &&& after.cpu.r[rn] == if moves {
                end
            } else {
                m.cpu.r[rn]
            }
            &&& after.cpu.psr == m.cpu.psr
        }),
{
    lemma_block(m, instr);
    let list = instr % 0x1_0000;
    let rn = (instr / 0x1_0000 % 16) as int;
    let n = crate::thumb_flow_laws::listed_below(list, 16);
    crate::thumb_flow_laws::lemma_place(list, 0, 16);
    crate::thumb_flow_laws::lemma_place(list, 0, rn as nat);
    lemma_block_ends(m.cpu.r[rn], n, instr);
    let start = block_start(m.cpu.r[rn], n, instr);
    let end = block_end(m.cpu.r[rn], n, instr);
    crate::thumb_flow_laws::lemma_one_bit(list, rn as u32);
    let moves = instr / 0x20_0000 % 2 == 1;
    let lowest = crate::encoding::has_bit(list, rn as u32) && crate::thumb_flow_laws::listed_below(
        list,
        rn as nat,
    ) == 0;
    let stored = if moves && !lowest {
        Some(end)
    } else {
        None
    };
    crate::thumb_flow_laws::law_block_is_written(m, list, start, rn, stored, 16);
    lemma_arm_continues(m, instr);
}

} // verus!

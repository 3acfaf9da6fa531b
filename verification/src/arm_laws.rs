//! What the ARM instructions do, from the encoding in memory to the registers
//! and the memory after the step.

use vstd::prelude::*;

use crate::arm::{ArmInstruction, Condition};
use crate::bits::bit;
use crate::bus::AccessWidth;
use crate::cpu::{CpuState, Halt, Machine, StepResult};

verus! {

/// Whether the next step of the machine executes the ARM instruction `instr`:
/// the processor is awake and in ARM state, no interrupt comes first, the
/// instruction stands at the program counter and its condition is met.
pub open spec fn runs_arm(m: Machine, instr: u32) -> bool {
    &&& m.cpu.wf()
    &&& !m.cpu.halted
    &&& m.cpu.psr / 0x80 % 2 == 1 || !m.bus.irq.pending()
    &&& m.cpu.psr / 0x20 % 2 == 0
    &&& m.bus.read32(m.cpu.r[15]) == instr
    &&& crate::encoding::condition_met((instr / 0x1000_0000) as int, m.cpu.psr)
}

/// Register `i` as an ARM instruction reads it: the program counter is
/// `ahead` bytes further.
pub open spec fn read_register(c: CpuState, i: int, ahead: int) -> int {
    if i == 15 {
        (c.r[15] + ahead) % 0x1_0000_0000
    } else {
        c.r[i] as int
    }
}

/// Whether the registers but `i` and the program counter are as before, and the
/// program counter is `size` bytes further.
pub open spec fn moves_on(before: CpuState, after: CpuState, i: int, size: int) -> bool {
    &&& after.wf()
    &&& after.r[15] == (before.r[15] + size) % 0x1_0000_0000
    &&& forall|j: int| 0 <= j < 15 && j != i ==> #[trigger] after.r[j] == before.r[j]
}

/// Whether the flags N and Z are those of `result`, and what lies below the
/// flags is as before.
pub open spec fn flags_show(before: CpuState, after: CpuState, result: int) -> bool {
    &&& crate::encoding::negative(after.psr) == (result >= 0x8000_0000)
    &&& crate::encoding::zero(after.psr) == (result == 0)
    &&& after.psr % 0x1000_0000 == before.psr % 0x1000_0000
}

/// A condition holds as its code says.
pub(crate) proof fn lemma_condition(instr: u32, psr: u32)
    ensures
        Condition::from_instr(instr).holds_in(psr) == crate::encoding::condition_met(
            (instr / 0x1000_0000) as int,
            psr,
        ),
{
    crate::encoding::lemma_word_digits(instr);
    crate::encoding::lemma_status_digits(psr);
}

/// An instruction that runs is executed, and its cycles are counted.
pub(crate) proof fn lemma_arm_step(m: Machine, instr: u32)
    requires
        runs_arm(m, instr),
        !(ArmInstruction::category(instr) is Branch),
    ensures
        ({
            let kind = ArmInstruction::category(instr);
            let pc = m.cpu.r[15];
            let (after, executed) = m.arm_executed(kind, instr);
            &&& m.stepped() == after.step_finished(
                executed,
                pc,
                crate::bus::cycles_of_access(pc, AccessWidth::Word, m.cpu.next_seq == Some(pc)),
                4,
                Halt::Unimplemented { pc, instr, kind },
            )
            &&& !m.cpu.thumb()
        }),
{
    crate::encoding::lemma_status_digits(m.cpu.psr);
    lemma_condition(instr, m.cpu.psr);
    assert(CpuState { halted: false, ..m.cpu } == m.cpu);
    assert(Machine { cpu: CpuState { halted: false, ..m.cpu }, ..m } == m);
}

/// An instruction whose condition is not met only lets time pass.
pub proof fn law_failed_condition_skips(m: Machine, instr: u32)
    requires
        m.cpu.wf(),
        !m.cpu.halted,
        m.cpu.psr / 0x80 % 2 == 1 || !m.bus.irq.pending(),
        m.cpu.psr / 0x20 % 2 == 0,
        m.bus.read32(m.cpu.r[15]) == instr,
        !crate::encoding::condition_met((instr / 0x1000_0000) as int, m.cpu.psr),
    ensures
        m.stepped().0.bus == m.bus,
        m.stepped().0.cpu.psr == m.cpu.psr,
        moves_on(m.cpu, m.stepped().0.cpu, 15, 4),
        m.stepped().1 == StepResult::Stepped,
{
    crate::encoding::lemma_status_digits(m.cpu.psr);
    lemma_condition(instr, m.cpu.psr);
}

/// Whether `instr` is one of the sixteen data-processing instructions: bits 27
/// and 26 are clear, it is not a multiplication or a halfword transfer, and a
/// comparison sets flags.
pub open spec fn is_data_processing(instr: u32) -> bool {
    &&& instr / 0x400_0000 % 4 == 0
    &&& instr / 0x200_0000 % 2 == 1 || instr / 0x10 % 2 == 0 || instr / 0x80 % 2 == 0
    &&& instr / 0x10_0000 % 2 == 1 || !(8 <= instr / 0x20_0000 % 16 <= 11)
}

pub(crate) proof fn lemma_data_processing(instr: u32)
    requires
        is_data_processing(instr),
    ensures
        ArmInstruction::category(instr) == ArmInstruction::DataProcessing,
{
    crate::encoding::lemma_word_digits(instr);
    crate::encoding::lemma_word_patterns(instr);
}

/// How far ahead a data-processing instruction reads the program counter: 12
/// bytes next to a shift by register, else 8.
pub open spec fn ahead_of(instr: u32) -> int {
    if instr / 0x200_0000 % 2 == 0 && instr / 0x10 % 2 == 1 {
        12
    } else {
        8
    }
}

/// The first operand of a data-processing instruction.
pub open spec fn first_operand(c: CpuState, instr: u32) -> u32 {
    read_register(c, (instr / 0x1_0000 % 16) as int, ahead_of(instr)) as u32
}

/// The first operand, as the processor reads it.
pub(crate) proof fn lemma_first_operand(c: CpuState, instr: u32)
    requires
        !c.thumb(),
    ensures
        c.operand(
            (instr / 0x1_0000 % 16) as int,
            instr / 0x200_0000 % 2 == 0 && instr / 0x10 % 2 == 1,
        ) == first_operand(c, instr),
{
}

/// What a data-processing instruction does to the processor, but for the flags.
#[verifier::spinoff_prover]
#[verifier::rlimit(40)]
proof fn lemma_data_processing_result(c: CpuState, instr: u32)
    requires
        c.wf(),
        !c.thumb(),
        instr / 0x1000 % 16 != 15 || 8 <= instr / 0x20_0000 % 16 <= 11,
    ensures
        ({
            let op = instr / 0x20_0000 % 16;
            let rd = (instr / 0x1000 % 16) as int;
            let (b, shifted_out) = c.shifter_operand(instr);
            let (result, carry, overflow) = crate::cpu_arm::alu_operation(
                op,
                first_operand(c, instr),
                b,
                c.carry(),
                shifted_out,
            );
            let (after, executed) = c.data_processing(instr);
            &&& executed is Continue
            &&& after.r == if 8 <= op <= 11 {
                c.r
            } else {
                c.r.update(rd, result)
            }
            &&& after.psr == if instr / 0x10_0000 % 2 == 1 || 8 <= op <= 11 {
                crate::psr::with_alu_flags(c.psr, result, carry, overflow)
            } else {
                c.psr
            }
            &&& after.wf()
        }),
{
    crate::encoding::lemma_word_digits(instr);
    let rn = (instr / 0x1_0000 % 16) as int;
    let register_shift = !bit(instr, 25) && bit(instr, 4);
    assert(c.operand(rn, register_shift) == first_operand(c, instr));
}

/// After an instruction that goes on to the next one.
pub(crate) proof fn lemma_continues(
    m: Machine,
    executed: crate::cpu::Executed,
    pc: u32,
    fetch: u32,
    size: u32,
    halt: Halt,
)
    requires
        m.cpu.wf(),
        executed is Continue || executed is Accessed,
    ensures
        ({
            let (after, result) = m.step_finished(executed, pc, fetch, size, halt);
            &&& after.bus == m.bus
            &&& after.cpu.psr == m.cpu.psr
            &&& after.cpu.r == m.cpu.r.update(
                15,
                m.cpu.r[15].wrapping_add(m.cpu.instruction_size()),
            )
            &&& after.cpu.wf()
            &&& result == StepResult::Stepped
        }),
{
}

/// The flags that an instruction writes, as digits.
pub(crate) proof fn lemma_flags(psr: u32, result: u32, carry: bool, overflow: Option<bool>)
    ensures
        ({
            let after = crate::psr::with_alu_flags(psr, result, carry, overflow);
            &&& crate::encoding::negative(after) == (result >= 0x8000_0000)
            &&& crate::encoding::zero(after) == (result == 0)
            &&& crate::encoding::carried(after) == carry
            &&& crate::encoding::overflowed(after) == match overflow {
                Some(v) => v,
                None => crate::encoding::overflowed(psr),
            }
            &&& after % 0x1000_0000 == psr % 0x1000_0000
            &&& (after & crate::psr::T != 0) == (psr & crate::psr::T != 0)
        }),
{
    crate::psr::law_alu_flags(psr, result, carry, overflow);
    let after = crate::psr::with_alu_flags(psr, result, carry, overflow);
    crate::encoding::lemma_status_digits(psr);
    crate::encoding::lemma_status_digits(result);
    crate::encoding::lemma_status_digits(after);
}

proof fn lemma_data_processing_step(m: Machine, instr: u32)
    requires
        runs_arm(m, instr),
        is_data_processing(instr),
        instr / 0x1000 % 16 != 15 || 8 <= instr / 0x20_0000 % 16 <= 11,
    ensures
        ({
            let op = instr / 0x20_0000 % 16;
            let rd = (instr / 0x1000 % 16) as int;
            let (b, shifted_out) = m.cpu.shifter_operand(instr);
            let (result, carry, overflow) = crate::cpu_arm::alu_operation(
                op,
                first_operand(m.cpu, instr),
                b,
                crate::encoding::carried(m.cpu.psr),
                shifted_out,
            );
            let after = m.stepped().0.cpu;
            &&& m.stepped().0.bus == m.bus
            &&& m.stepped().1 == StepResult::Stepped
            &&& moves_on(m.cpu, after, rd, 4)
            &&& rd < 15 ==> after.r[rd] == if 8 <= op <= 11 {
                m.cpu.r[rd]
            } else {
                result
            }
            &&& instr / 0x10_0000 % 2 == 0 ==> after.psr == m.cpu.psr
            &&& instr / 0x10_0000 % 2 == 1 ==> {
                &&& flags_show(m.cpu, after, result as int)
                &&& crate::encoding::carried(after.psr) == carry
                &&& crate::encoding::overflowed(after.psr) == match overflow {
                    Some(v) => v,
                    None => crate::encoding::overflowed(m.cpu.psr),
                }
            }
        }),
{
    lemma_data_processing(instr);
    lemma_arm_step(m, instr);
    crate::encoding::lemma_status_digits(m.cpu.psr);
    let (b, shifted_out) = m.cpu.shifter_operand(instr);
    let (result, carry, overflow) = crate::cpu_arm::alu_operation(
        instr / 0x20_0000 % 16,
        first_operand(m.cpu, instr),
        b,
        m.cpu.carry(),
        shifted_out,
    );
    let kind = ArmInstruction::DataProcessing;
    let (after, executed) = m.arm_executed(kind, instr);
    assert(after.cpu == m.cpu.data_processing(instr).0 && executed == m.cpu.data_processing(instr).1
        && after.bus == m.bus) by {
        reveal(Machine::arm_executed);
    }
    lemma_data_processing_result(m.cpu, instr);
    lemma_flags(m.cpu.psr, result, carry, overflow);
    let pc = m.cpu.r[15];
    lemma_continues(
        after,
        executed,
        pc,
        crate::bus::cycles_of_access(pc, AccessWidth::Word, m.cpu.next_seq == Some(pc)),
        4,
        Halt::Unimplemented { pc, instr, kind },
    );
    assert(after.cpu.r[15] == m.cpu.r[15]);
    assert(after.cpu.instruction_size() == 4);
}

/// The logical instructions work on each bit by itself: bit `k` of the
/// destination is set exactly when bit `k` of both operands is (`AND`), of one
/// of them and not the other (`EOR`), of one or both (`ORR`), of the first and
/// not the second (`BIC`), of the second (`MOV`), or not of the second
/// (`MVN`). Nothing else changes but the flags, and these only on request: N
/// and Z tell about the result, C is the bit that the shifter pushed out, and V
/// stays.
pub proof fn law_logical_instructions(m: Machine, instr: u32, k: u32)
    requires
        runs_arm(m, instr),
        is_data_processing(instr),
        instr / 0x1000 % 16 < 15,
        instr / 0x20_0000 % 16 <= 1 || instr / 0x20_0000 % 16 >= 12,
        k < 32,
    ensures
        ({
            let op = instr / 0x20_0000 % 16;
            let rd = (instr / 0x1000 % 16) as int;
            let first = crate::encoding::has_bit(first_operand(m.cpu, instr), k);
            let second = crate::encoding::has_bit(m.cpu.shifter_operand(instr).0, k);
            let after = m.stepped().0.cpu;
            let bit_after = crate::encoding::has_bit(after.r[rd], k);
            &&& op == 0 ==> bit_after == (first && second)
            &&& op == 1 ==> bit_after == (first != second)
            &&& op == 12 ==> bit_after == (first || second)
            &&& op == 13 ==> bit_after == second
            &&& op == 14 ==> bit_after == (first && !second)
            &&& op == 15 ==> bit_after == !second
            &&& op == 13 ==> after.r[rd] == m.cpu.shifter_operand(instr).0
            &&& moves_on(m.cpu, after, rd, 4)
            &&& m.stepped().0.bus == m.bus
            &&& instr / 0x10_0000 % 2 == 0 ==> after.psr == m.cpu.psr
            &&& instr / 0x10_0000 % 2 == 1 ==> {
                &&& flags_show(m.cpu, after, after.r[rd] as int)
                &&& crate::encoding::carried(after.psr) == m.cpu.shifter_operand(instr).1
                &&& crate::encoding::overflowed(after.psr) == crate::encoding::overflowed(
                    m.cpu.psr,
                )
            }
        }),
{
    lemma_data_processing_step(m, instr);
    crate::encoding::lemma_bitwise(
        first_operand(m.cpu, instr),
        m.cpu.shifter_operand(instr).0,
        k,
    );
}

/// `TST` clears Z as soon as the operands have one set bit in common, and `TEQ`
/// as soon as they differ in one; N tells the same of bit 31. Neither changes a
/// register.
pub proof fn law_logical_tests(m: Machine, instr: u32, k: u32)
    requires
        runs_arm(m, instr),
        is_data_processing(instr),
        instr / 0x20_0000 % 16 == 8 || instr / 0x20_0000 % 16 == 9,
        k < 32,
    ensures
        ({
            let test = instr / 0x20_0000 % 16 == 8;
            let a = first_operand(m.cpu, instr);
            let b = m.cpu.shifter_operand(instr).0;
            let after = m.stepped().0.cpu;
            let common = crate::encoding::has_bit(a, k) && crate::encoding::has_bit(b, k);
            &&& test && common ==> !crate::encoding::zero(after.psr)
            &&& test && a & b == 0 ==> crate::encoding::zero(after.psr)
            &&& test ==> crate::encoding::negative(after.psr) == (a >= 0x8000_0000 && b
                >= 0x8000_0000)
            &&& !test ==> crate::encoding::zero(after.psr) == (a == b)
            &&& !test ==> crate::encoding::negative(after.psr) == ((a >= 0x8000_0000) != (b
                >= 0x8000_0000))
            &&& crate::encoding::carried(after.psr) == m.cpu.shifter_operand(instr).1
            &&& crate::encoding::overflowed(after.psr) == crate::encoding::overflowed(m.cpu.psr)
            &&& after.psr % 0x1000_0000 == m.cpu.psr % 0x1000_0000
            &&& moves_on(m.cpu, after, 15, 4)
            &&& m.stepped().0.bus == m.bus
        }),
{
    lemma_data_processing_step(m, instr);
    let a = first_operand(m.cpu, instr);
    let b = m.cpu.shifter_operand(instr).0;
    crate::encoding::lemma_bitwise(a, b, k);
    crate::encoding::lemma_bitwise(a, b, 31);
    crate::encoding::lemma_bitwise(b, a, 31);
    crate::encoding::lemma_bitwise(a & b, a, 31);
    crate::encoding::lemma_bitwise(a ^ b, a, 31);
}

/// The arithmetic instructions compute modulo 2^32: `SUB` and `CMP` take the
/// second operand from the first, `RSB` the first from the second, `ADD` and
/// `CMN` add them; `ADC` adds the carry as well, and `SBC` and `RSC` take away
/// one more where the carry is clear. On request C says that an addition left
/// 32 bits, or that a subtraction borrowed nothing, and V that the signed
/// result has no 32 bits.
pub proof fn law_arithmetic_instructions(m: Machine, instr: u32)
    requires
        runs_arm(m, instr),
        is_data_processing(instr),
        2 <= instr / 0x20_0000 % 16 <= 7 || instr / 0x20_0000 % 16 == 10 || instr / 0x20_0000 % 16
            == 11,
        instr / 0x1000 % 16 < 15 || instr / 0x20_0000 % 16 >= 10,
    ensures
        ({
            let op = instr / 0x20_0000 % 16;
            let rd = (instr / 0x1000 % 16) as int;
            let a = first_operand(m.cpu, instr);
            let b = m.cpu.shifter_operand(instr).0;
            let x = crate::encoding::number(a);
            let y = crate::encoding::number(b);
            let c = if crate::encoding::carried(m.cpu.psr) {
                1int
            } else {
                0int
            };
            // The sum or difference of the unsigned and of the signed operands.
            let (exact, signed) = if op == 2 || op == 10 {
                (a - b, x - y)
            } else if op == 3 {
                (b - a, y - x)
            } else if op == 4 || op == 11 {
                (a + b, x + y)
            } else if op == 5 {
                (a + b + c, x + y + c)
            } else if op == 6 {
                (a - b - 1 + c, x - y - 1 + c)
            } else {
                (b - a - 1 + c, y - x - 1 + c)
            };
            let adds = op == 4 || op == 5 || op == 11;
            let after = m.stepped().0.cpu;
            &&& op <= 7 ==> after.r[rd] == exact % 0x1_0000_0000
            &&& op > 7 && rd < 15 ==> after.r[rd] == m.cpu.r[rd]
            &&& moves_on(m.cpu, after, rd, 4)
            &&& m.stepped().0.bus == m.bus
            &&& instr / 0x10_0000 % 2 == 0 ==> after.psr == m.cpu.psr
            &&& instr / 0x10_0000 % 2 == 1 ==> {
                &&& flags_show(m.cpu, after, exact % 0x1_0000_0000)
                &&& crate::encoding::carried(after.psr) == (if adds {
                    exact >= 0x1_0000_0000
                } else {
                    exact >= 0
                })
                &&& crate::encoding::overflowed(after.psr) == crate::encoding::overflows(signed)
            }
        }),
{
    lemma_data_processing_step(m, instr);
}

/// Whether `word` is `value` with its bits moved by `distance` places: up and
/// out at the top for kind 0 (`LSL`), down and out at the bottom for kind 1
/// (`LSR`), down with copies of the top bit for kind 2 (`ASR`), and round for
/// kind 3 (`ROR`). The statement is about bit `k` of `word`.
pub open spec fn bit_is_moved(word: u32, value: u32, kind: int, distance: int, k: int) -> bool {
    crate::encoding::has_bit(word, k as u32) == if kind == 0 {
        k >= distance && crate::encoding::has_bit(value, (k - distance) as u32)
    } else if kind == 1 {
        k + distance < 32 && crate::encoding::has_bit(value, (k + distance) as u32)
    } else if kind == 2 {
        crate::encoding::has_bit(
            value,
            if k + distance < 31 {
                (k + distance) as u32
            } else {
                31u32
            },
        )
    } else {
        crate::encoding::has_bit(value, ((k + distance) % 32) as u32)
    }
}

/// The last bit that leaves `value` when it is moved by `distance` places; the
/// carry when it is not moved.
pub open spec fn last_bit_out(value: u32, kind: int, distance: int, carry: bool) -> bool {
    if distance == 0 {
        carry
    } else if kind == 0 {
        distance <= 32 && crate::encoding::has_bit(value, (32 - distance) as u32)
    } else if kind == 1 {
        distance <= 32 && crate::encoding::has_bit(value, (distance - 1) as u32)
    } else if kind == 2 {
        crate::encoding::has_bit(
            value,
            if distance <= 32 {
                (distance - 1) as u32
            } else {
                31u32
            },
        )
    } else {
        crate::encoding::has_bit(value, ((distance - 1) % 32) as u32)
    }
}

/// The barrel shifter with an amount from a register moves every bit by that
/// many places and leaves the last bit that went out as the carry.
pub proof fn law_register_shifts(kind: u32, amount: u32, value: u32, carry: bool, k: u32)
    requires
        kind < 4,
        amount < 0x100,
        k < 32,
    ensures
        ({
            let (word, out) = crate::alu::shifted_by_register(
                crate::alu::ShiftType::from_bits(kind),
                amount,
                value,
                carry,
            );
            &&& bit_is_moved(word, value, kind as int, amount as int, k as int)
            &&& out == last_bit_out(value, kind as int, amount as int, carry)
        }),
{
    crate::encoding::lemma_shifted_bits(value, 31, k);
    crate::encoding::lemma_shifted_bits(value, 1, k);
    let turn = amount % 32;
    if turn != 0 {
        crate::encoding::lemma_shifted_bits(value, turn, k);
        crate::encoding::lemma_shifted_bits(value, (32 - turn) as u32, k);
        if turn != 1 {
            crate::encoding::lemma_shifted_bits(value, (turn - 1) as u32, k);
        }
    }
    assert((amount - 1) % 32 == if turn == 0 {
        31int
    } else {
        turn - 1
    });
    assert((k + amount) % 32 == if k + turn < 32 {
        k + turn
    } else {
        k + turn - 32
    });
}

/// The barrel shifter with an amount in the instruction does the same, where
/// zero means 32 for `LSR` and `ASR`, and for `ROR` one place through the
/// carry.
pub proof fn law_immediate_shifts(kind: u32, amount: u32, value: u32, carry: bool, k: u32)
    requires
        kind < 4,
        amount < 32,
        k < 32,
    ensures
        ({
            let (word, out) = crate::alu::shifted_by_immediate(
                crate::alu::ShiftType::from_bits(kind),
                amount,
                value,
                carry,
            );
            let distance = if amount == 0 && (kind == 1 || kind == 2) {
                32int
            } else {
                amount as int
            };
            if kind == 3 && amount == 0 {
                &&& out == crate::encoding::has_bit(value, 0)
                &&& crate::encoding::has_bit(word, k) == if k == 31 {
                    carry
                } else {
                    crate::encoding::has_bit(value, (k + 1) as u32)
                }
            } else {
                &&& bit_is_moved(word, value, kind as int, distance, k as int)
                &&& out == last_bit_out(value, kind as int, distance, carry)
            }
        }),
{
    crate::encoding::lemma_shifted_bits(value, 31, k);
    crate::encoding::lemma_shifted_bits(value, 1, k);
    if amount != 0 {
        law_register_shifts(kind, amount, value, carry, k);
    }
}

/// The second operand of a data-processing instruction: eight bits of the
/// instruction turned right by twice four others, or a register, shifted by
/// five bits of the instruction or by the lowest byte of another register.
#[verifier::spinoff_prover]
#[verifier::rlimit(40)]
pub proof fn law_second_operand(c: CpuState, instr: u32, k: u32)
    requires
        c.wf(),
        c.psr / 0x20 % 2 == 0,
        k < 32,
    ensures
        ({
            let (word, out) = c.shifter_operand(instr);
            let turn = 2 * (instr / 0x100 % 16);
            let kind = instr / 0x20 % 4;
            let rm = (instr % 16) as int;
            let rs = (instr / 0x100 % 16) as int;
            let carry = crate::encoding::carried(c.psr);
            &&& instr / 0x200_0000 % 2 == 1 ==> {
                &&& bit_is_moved(word, instr % 0x100, 3, turn as int, k as int)
                &&& out == (if turn == 0 {
                    carry
                } else {
                    word >= 0x8000_0000
                })
            }
            &&& instr / 0x200_0000 % 2 == 0 && instr / 0x10 % 2 == 0 ==> (word, out)
                == crate::alu::shifted_by_immediate(
                crate::alu::ShiftType::from_bits(kind),
                instr / 0x80 % 32,
                read_register(c, rm, 8) as u32,
                carry,
            )
            &&& instr / 0x200_0000 % 2 == 0 && instr / 0x10 % 2 == 1 ==> (word, out)
                == crate::alu::shifted_by_register(
                crate::alu::ShiftType::from_bits(kind),
                (read_register(c, rs, 8) % 0x100) as u32,
                read_register(c, rm, 12) as u32,
                carry,
            )
        }),
{
    crate::encoding::lemma_word_digits(instr);
    crate::encoding::lemma_status_digits(c.psr);
    crate::encoding::lemma_shifted_bits(instr, 1, k);
    let field = instr / 0x100 % 16;
    let turn = (2 * field) as u32;
    let low = instr % 0x100;
    let word = crate::bits::rotate_right(low, turn);
    lemma_turned(low, turn, k);
    crate::encoding::lemma_status_digits(word);
}

proof fn lemma_turned(value: u32, turn: u32, k: u32)
    requires
        turn < 32,
        k < 32,
    ensures
        bit_is_moved(crate::bits::rotate_right(value, turn), value, 3, turn as int, k as int),
{
    if turn != 0 {
        crate::encoding::lemma_shifted_bits(value, turn, k);
    }
}

} // verus!

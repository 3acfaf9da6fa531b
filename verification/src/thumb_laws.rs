//! What the THUMB instructions do, from the encoding in memory to the registers
//! and the memory after the step.

use vstd::prelude::*;

use crate::alu::ShiftType;
use crate::bus::{AccessWidth, BusState};
use crate::cpu::{CpuState, Executed, Halt, Machine, StepResult};
use crate::thumb::ThumbInstruction;

verus! {

/// Whether the next step of the machine executes the THUMB instruction `instr`:
/// the processor is awake and in THUMB state, no interrupt comes first, and the
/// instruction stands at the program counter.
pub open spec fn runs_thumb(m: Machine, instr: u16) -> bool {
    &&& m.cpu.wf()
    &&& !m.cpu.halted
    &&& m.cpu.psr / 0x80 % 2 == 1 || !m.bus.irq.pending()
    &&& m.cpu.psr / 0x20 % 2 == 1
    &&& m.bus.read16(m.cpu.r[15]) == instr
}

/// Whether a step left the memory alone, went on to the next instruction and
/// changed no register but `i`.
pub open spec fn changes_only(m: Machine, after: Machine, i: int) -> bool {
    &&& after.bus == m.bus
    &&& crate::arm_laws::moves_on(m.cpu, after.cpu, i, 2)
}

/// Whether the flags are those of a result, with C as given and V as before.
pub open spec fn logical_flags(before: CpuState, after: CpuState, result: u32, carry: bool) -> bool {
    &&& crate::arm_laws::flags_show(before, after, result as int)
    &&& crate::encoding::carried(after.psr) == carry
    &&& crate::encoding::overflowed(after.psr) == crate::encoding::overflowed(before.psr)
}

/// Whether the flags are those of `a + b`, plus one if `one` is set.
pub open spec fn sum_flags(before: CpuState, after: CpuState, a: u32, b: u32, one: bool) -> bool {
    let c = if one {
        1int
    } else {
        0int
    };
    &&& crate::arm_laws::flags_show(before, after, (a + b + c) % 0x1_0000_0000)
    &&& crate::encoding::carried(after.psr) == (a + b + c >= 0x1_0000_0000)
    &&& crate::encoding::overflowed(after.psr) == crate::encoding::overflows(
        crate::encoding::number(a) + crate::encoding::number(b) + c,
    )
}

/// Whether the flags are those of `a - b`, less one unless `all` is set.
pub open spec fn difference_flags(
    before: CpuState,
    after: CpuState,
    a: u32,
    b: u32,
    all: bool,
) -> bool {
    let c = if all {
        0int
    } else {
        1int
    };
    &&& crate::arm_laws::flags_show(before, after, (a - b - c) % 0x1_0000_0000)
    &&& crate::encoding::carried(after.psr) == (a - b - c >= 0)
    &&& crate::encoding::overflowed(after.psr) == crate::encoding::overflows(
        crate::encoding::number(a) - crate::encoding::number(b) - c,
    )
}

/// What an instruction of a format leaves, before the cycles are counted.
pub open spec fn effect(m: Machine, instr: u16) -> (Machine, Executed) {
    m.thumb_executed(ThumbInstruction::format(instr), instr)
}

pub(crate) proof fn lemma_thumb_step(m: Machine, instr: u16)
    requires
        runs_thumb(m, instr),
        !(ThumbInstruction::format(instr) is UnconditionalBranch),
    ensures
        ({
            let pc = m.cpu.r[15];
            let (after, executed) = effect(m, instr);
            &&& m.stepped() == after.step_finished(
                executed,
                pc,
                crate::bus::cycles_of_access(pc, AccessWidth::Half, m.cpu.next_seq == Some(pc)),
                2,
                Halt::ThumbNotImplemented { pc },
            )
            &&& m.cpu.thumb()
            &&& m.cpu.carry() == crate::encoding::carried(m.cpu.psr)
        }),
{
    crate::encoding::lemma_status_digits(m.cpu.psr);
    assert(CpuState { halted: false, ..m.cpu } == m.cpu);
    assert(Machine { cpu: CpuState { halted: false, ..m.cpu }, ..m } == m);
}

/// After an instruction that goes on to the next one, the registers and the
/// memory are those that it left.
pub(crate) proof fn lemma_thumb_continues(m: Machine, instr: u16)
    requires
        runs_thumb(m, instr),
        !(ThumbInstruction::format(instr) is UnconditionalBranch),
        effect(m, instr).1 is Continue || effect(m, instr).1 is Accessed,
        effect(m, instr).0.cpu.wf(),
        effect(m, instr).0.cpu.thumb(),
        effect(m, instr).0.cpu.r[15] == m.cpu.r[15],
    ensures
        m.stepped().0.bus == effect(m, instr).0.bus,
        m.stepped().0.cpu.psr == effect(m, instr).0.cpu.psr,
        m.stepped().0.cpu.r == effect(m, instr).0.cpu.r.update(
            15,
            ((m.cpu.r[15] + 2) % 0x1_0000_0000) as u32,
        ),
        m.stepped().0.cpu.wf(),
        m.stepped().1 == StepResult::Stepped,
{
    lemma_thumb_step(m, instr);
    let pc = m.cpu.r[15];
    let (after, executed) = effect(m, instr);
    crate::arm_laws::lemma_continues(
        after,
        executed,
        pc,
        crate::bus::cycles_of_access(pc, AccessWidth::Half, m.cpu.next_seq == Some(pc)),
        2,
        Halt::ThumbNotImplemented { pc },
    );
}

/// An operation with flags that goes on to the next instruction.
proof fn lemma_thumb_operation(
    m: Machine,
    instr: u16,
    rd: Option<int>,
    result: u32,
    carry: bool,
    overflow: Option<bool>,
)
    requires
        runs_thumb(m, instr),
        !(ThumbInstruction::format(instr) is UnconditionalBranch),
        effect(m, instr).1 is Continue,
        effect(m, instr).0.bus == m.bus,
        rd matches Some(i) ==> 0 <= i < 15,
        effect(m, instr).0.cpu == (match rd {
            Some(i) => m.cpu.with_reg(i, result),
            None => m.cpu,
        }).with_flags(result, carry, overflow),
    ensures
        changes_only(
            m,
            m.stepped().0,
            match rd {
                Some(i) => i,
                None => 15,
            },
        ),
        rd matches Some(i) ==> m.stepped().0.cpu.r[i] == result,
        crate::arm_laws::flags_show(m.cpu, m.stepped().0.cpu, result as int),
        crate::encoding::carried(m.stepped().0.cpu.psr) == carry,
        crate::encoding::overflowed(m.stepped().0.cpu.psr) == match overflow {
            Some(v) => v,
            None => crate::encoding::overflowed(m.cpu.psr),
        },
{
    lemma_thumb_step(m, instr);
    crate::arm_laws::lemma_flags(m.cpu.psr, result, carry, overflow);
    lemma_thumb_continues(m, instr);
}

/// What an instruction with an 8-bit immediate leaves.
pub open spec fn immediate_done(m: Machine, after: Machine, op: int, rd: int, n: int) -> bool {
    let old = m.cpu.r[rd];
    &&& op == 0 ==> {
        &&& after.cpu.r[rd] == n
        &&& logical_flags(m.cpu, after.cpu, n as u32, crate::encoding::carried(m.cpu.psr))
    }
    &&& op == 1 ==> {
        &&& after.cpu.r[rd] == old
        &&& difference_flags(m.cpu, after.cpu, old, n as u32, true)
    }
    &&& op == 2 ==> {
        &&& after.cpu.r[rd] == (old + n) % 0x1_0000_0000
        &&& sum_flags(m.cpu, after.cpu, old, n as u32, false)
    }
    &&& op == 3 ==> {
        &&& after.cpu.r[rd] == (old - n) % 0x1_0000_0000
        &&& difference_flags(m.cpu, after.cpu, old, n as u32, true)
    }
    &&& changes_only(m, after, rd)
}

#[verifier::spinoff_prover]
proof fn lemma_thumb_immediates(m: Machine, instr: u16, op: int, rd: int, n: int)
    requires
        runs_thumb(m, instr),
        ThumbInstruction::format(instr) is MoveCompareAddSubImm,
        (instr >> 11) % 4 == op,
        crate::bits::octal_of(instr, 8) == rd,
        instr % 0x100 == n,
    ensures
        immediate_done(m, m.stepped().0, op, rd, n),
{
    assert(effect(m, instr) == m.on_cpu(m.cpu.thumb_immediate_op(instr))) by {
        reveal(Machine::thumb_executed);
    }
    lemma_thumb_step(m, instr);
    let a = m.cpu.r[rd];
    let imm = n as u32;
    if op == 0 {
        lemma_thumb_operation(m, instr, Some(rd), imm, m.cpu.carry(), None);
    } else if op == 2 {
        let (result, carry, overflow) = crate::alu::sum(a, imm, false);
        lemma_thumb_operation(m, instr, Some(rd), result, carry, overflow);
    } else {
        let (result, carry, overflow) = crate::alu::difference(a, imm, true);
        let to = if op == 1 {
            None
        } else {
            Some(rd)
        };
        lemma_thumb_operation(m, instr, to, result, carry, overflow);
    }
}

/// `MOV`, `CMP`, `ADD` and `SUB` with an 8-bit immediate `n`: the register gets
/// `n` (`0x2000`), its old value plus `n` modulo 2^32 (`0x3000`), or its old
/// value minus `n` modulo 2^32 (`0x3800`); the comparison (`0x2800`) only sets
/// the flags of the difference.
pub proof fn law_thumb_immediates(m: Machine, instr: u16, op: int, rd: int, n: int)
    requires
        runs_thumb(m, instr),
        0 <= op < 4,
        0 <= rd < 8,
        0 <= n < 0x100,
        instr == 0x2000 + op * 0x800 + rd * 0x100 + n,
    ensures
        immediate_done(m, m.stepped().0, op, rd, n),
{
    assert(instr / 0x2000 == 1);
    assert(instr / 0x800 % 4 == op);
    assert(instr / 0x100 % 8 == rd);
    assert(instr % 0x100 == n);
    lemma_immediate_fields(instr);
    lemma_thumb_immediates(m, instr, op, rd, n);
}

proof fn lemma_immediate_fields(instr: u16)
    requires
        instr / 0x2000 == 1,
    ensures
        ThumbInstruction::format(instr) is MoveCompareAddSubImm,
        (instr >> 11) % 4 == instr / 0x800 % 4,
        crate::bits::octal_of(instr, 8) == instr / 0x100 % 8,
{
    crate::encoding::lemma_half_digits(instr);
}

/// `LSL`, `LSR` and `ASR` of a register by five bits of the instruction: every
/// bit moves by that many places, where zero means 32 for the right shifts, and
/// the last bit that leaves becomes C.
pub proof fn law_thumb_immediate_shifts(m: Machine, instr: u16, k: u32)
    requires
        runs_thumb(m, instr),
        instr / 0x800 < 3,
        k < 32,
    ensures
        ({
            let kind = (instr / 0x800) as int;
            let value = m.cpu.r[(instr / 8 % 8) as int];
            let rd = (instr % 8) as int;
            let amount = (instr / 0x40 % 32) as int;
            let distance = if amount == 0 && kind != 0 {
                32
            } else {
                amount
            };
            let after = m.stepped().0;
            &&& crate::arm_laws::bit_is_moved(after.cpu.r[rd], value, kind, distance, k as int)
            &&& logical_flags(
                m.cpu,
                after.cpu,
                after.cpu.r[rd],
                crate::arm_laws::last_bit_out(
                    value,
                    kind,
                    distance,
                    crate::encoding::carried(m.cpu.psr),
                ),
            )
            &&& changes_only(m, after, rd)
        }),
{
    lemma_shift_fields(instr);
    assert(effect(m, instr) == m.on_cpu(m.cpu.thumb_move_shifted(instr))) by {
        reveal(Machine::thumb_executed);
    }
    lemma_thumb_step(m, instr);
    let kind = (instr / 0x800) as u32;
    let value = m.cpu.r[(instr / 8 % 8) as int];
    let amount = (instr / 0x40 % 32) as u32;
    let (result, carry) = crate::alu::shifted_by_immediate(
        ShiftType::from_bits(kind),
        amount,
        value,
        m.cpu.carry(),
    );
    crate::arm_laws::law_immediate_shifts(kind, amount, value, m.cpu.carry(), k);
    lemma_thumb_operation(m, instr, Some((instr % 8) as int), result, carry, None);
}

proof fn lemma_shift_fields(instr: u16)
    requires
        instr / 0x800 < 3,
    ensures
        ThumbInstruction::format(instr) is MoveShifted,
        (instr >> 11) % 4 == instr / 0x800,
        (instr >> 6) % 32 == instr / 0x40 % 32,
        crate::bits::octal_of(instr, 3) == instr / 8 % 8,
        crate::bits::octal_of(instr, 0) == instr % 8,
{
    crate::encoding::lemma_half_digits(instr);
    assert(instr / 0x2000 == 0);
}

/// `ADD` and `SUB` of three operands: a register plus or minus another register
/// or three bits of the instruction, modulo 2^32.
pub proof fn law_thumb_three_operands(m: Machine, instr: u16)
    requires
        runs_thumb(m, instr),
        instr / 0x800 == 3,
    ensures
        ({
            let rd = (instr % 8) as int;
            let a = m.cpu.r[(instr / 8 % 8) as int];
            let field = instr / 0x40 % 8;
            let b = if instr / 0x400 == 7 {
                field as u32
            } else {
                m.cpu.r[field as int]
            };
            let after = m.stepped().0;
            &&& instr / 0x200 % 2 == 0 ==> {
                &&& after.cpu.r[rd] == (a + b) % 0x1_0000_0000
                &&& sum_flags(m.cpu, after.cpu, a, b, false)
            }
            &&& instr / 0x200 % 2 == 1 ==> {
                &&& after.cpu.r[rd] == (a - b) % 0x1_0000_0000
                &&& difference_flags(m.cpu, after.cpu, a, b, true)
            }
            &&& changes_only(m, after, rd)
        }),
{
    lemma_three_operand_fields(instr);
    assert(effect(m, instr) == m.on_cpu(m.cpu.thumb_add_subtract(instr))) by {
        reveal(Machine::thumb_executed);
    }
    lemma_thumb_step(m, instr);
    let a = m.cpu.r[(instr / 8 % 8) as int];
    let field = instr / 0x40 % 8;
    let b = if instr / 0x400 == 7 {
        field as u32
    } else {
        m.cpu.r[field as int]
    };
    let rd = (instr % 8) as int;
    if instr / 0x200 % 2 == 0 {
        let (result, carry, overflow) = crate::alu::sum(a, b, false);
        lemma_thumb_operation(m, instr, Some(rd), result, carry, overflow);
    } else {
        let (result, carry, overflow) = crate::alu::difference(a, b, true);
        lemma_thumb_operation(m, instr, Some(rd), result, carry, overflow);
    }
}

proof fn lemma_three_operand_fields(instr: u16)
    requires
        instr / 0x800 == 3,
    ensures
        ThumbInstruction::format(instr) is AddSubtract,
        crate::bits::bit16(instr, 10) == (instr / 0x400 == 7),
        crate::bits::bit16(instr, 9) == (instr / 0x200 % 2 == 1),
        crate::bits::octal_of(instr, 6) == instr / 0x40 % 8,
        crate::bits::octal_of(instr, 3) == instr / 8 % 8,
        crate::bits::octal_of(instr, 0) == instr % 8,
{
    crate::encoding::lemma_half_digits(instr);
    assert(instr / 0x2000 == 0);
    assert(instr / 0x400 == 6 + instr / 0x400 % 2);
}

/// The digits of a register-to-register instruction.
proof fn lemma_alu_fields(instr: u16)
    requires
        instr / 0x400 == 0x10,
    ensures
        ThumbInstruction::format(instr) is AluOperation,
        (instr >> 6) % 16 == instr / 0x40 % 16,
        crate::bits::octal_of(instr, 3) == instr / 8 % 8,
        crate::bits::octal_of(instr, 0) == instr % 8,
{
    crate::encoding::lemma_half_digits(instr);
    assert(instr / 0x2000 == 2 && instr / 0x1000 % 2 == 0 && instr / 0x800 % 2 == 0 && instr / 0x400
        % 2 == 0);
}

proof fn lemma_thumb_alu(m: Machine, instr: u16)
    requires
        runs_thumb(m, instr),
        instr / 0x400 == 0x10,
    ensures
        ({
            let op = instr / 0x40 % 16;
            let rd = (instr % 8) as int;
            let (result, carry, overflow) = crate::cpu_thumb::thumb_alu_output(
                op,
                m.cpu.r[rd],
                m.cpu.r[(instr / 8 % 8) as int],
                crate::encoding::carried(m.cpu.psr),
            );
            let after = m.stepped().0;
            &&& changes_only(m, after, rd)
            &&& after.cpu.r[rd] == if op == 8 || op == 10 || op == 11 {
                m.cpu.r[rd]
            } else {
                result
            }
            &&& crate::arm_laws::flags_show(m.cpu, after.cpu, result as int)
            &&& crate::encoding::carried(after.cpu.psr) == carry
            &&& crate::encoding::overflowed(after.cpu.psr) == match overflow {
                Some(v) => v,
                None => crate::encoding::overflowed(m.cpu.psr),
            }
        }),
{
    lemma_alu_fields(instr);
    assert(effect(m, instr) == m.on_cpu(m.cpu.thumb_alu(instr))) by {
        reveal(Machine::thumb_executed);
    }
    lemma_thumb_step(m, instr);
    let op = instr / 0x40 % 16;
    let rd = (instr % 8) as int;
    let (result, carry, overflow) = crate::cpu_thumb::thumb_alu_output(
        op,
        m.cpu.r[rd],
        m.cpu.r[(instr / 8 % 8) as int],
        m.cpu.carry(),
    );
    let to = if op == 8 || op == 10 || op == 11 {
        None
    } else {
        Some(rd)
    };
    lemma_thumb_operation(m, instr, to, result, carry, overflow);
}

/// The logical register-to-register instructions work on each bit by itself:
/// `AND`, `EOR`, `ORR`, `BIC` and `MVN`. C and V stay.
pub proof fn law_thumb_logical(m: Machine, instr: u16, k: u32)
    requires
        runs_thumb(m, instr),
        instr / 0x400 == 0x10,
        instr / 0x40 % 16 == 0 || instr / 0x40 % 16 == 1 || instr / 0x40 % 16 == 12 || instr / 0x40
            % 16 == 14 || instr / 0x40 % 16 == 15,
        k < 32,
    ensures
        ({
            let op = instr / 0x40 % 16;
            let rd = (instr % 8) as int;
            let first = crate::encoding::has_bit(m.cpu.r[rd], k);
            let second = crate::encoding::has_bit(m.cpu.r[(instr / 8 % 8) as int], k);
            let after = m.stepped().0;
            let bit_after = crate::encoding::has_bit(after.cpu.r[rd], k);
            &&& op == 0 ==> bit_after == (first && second)
            &&& op == 1 ==> bit_after == (first != second)
            &&& op == 12 ==> bit_after == (first || second)
            &&& op == 14 ==> bit_after == (first && !second)
            &&& op == 15 ==> bit_after == !second
            &&& logical_flags(
                m.cpu,
                after.cpu,
                after.cpu.r[rd],
                crate::encoding::carried(m.cpu.psr),
            )
            &&& changes_only(m, after, rd)
        }),
{
    lemma_thumb_alu(m, instr);
    crate::encoding::lemma_bitwise(
        m.cpu.r[(instr % 8) as int],
        m.cpu.r[(instr / 8 % 8) as int],
        k,
    );
}

/// `TST` clears Z as soon as the registers have one set bit in common; N tells
/// the same of bit 31. It changes no register.
pub proof fn law_thumb_test(m: Machine, instr: u16, k: u32)
    requires
        runs_thumb(m, instr),
        instr / 0x40 == 0x108,
        k < 32,
    ensures
        ({
            let a = m.cpu.r[(instr % 8) as int];
            let b = m.cpu.r[(instr / 8 % 8) as int];
            let after = m.stepped().0;
            &&& crate::encoding::has_bit(a, k) && crate::encoding::has_bit(b, k)
                ==> !crate::encoding::zero(after.cpu.psr)
            &&& a & b == 0 ==> crate::encoding::zero(after.cpu.psr)
            &&& crate::encoding::negative(after.cpu.psr) == (a >= 0x8000_0000 && b >= 0x8000_0000)
            &&& crate::encoding::carried(after.cpu.psr) == crate::encoding::carried(m.cpu.psr)
            &&& crate::encoding::overflowed(after.cpu.psr) == crate::encoding::overflowed(
                m.cpu.psr,
            )
            &&& changes_only(m, after, 15)
        }),
{
    lemma_thumb_alu(m, instr);
    let a = m.cpu.r[(instr % 8) as int];
    let b = m.cpu.r[(instr / 8 % 8) as int];
    crate::encoding::lemma_bitwise(a, b, k);
    crate::encoding::lemma_bitwise(a, b, 31);
    crate::encoding::lemma_bitwise(b, a, 31);
    crate::encoding::lemma_bitwise(a & b, a, 31);
}

/// The register-to-register shifts move every bit by the lowest byte of the
/// second register, `ROR` round; the last bit that leaves becomes C.
pub proof fn law_thumb_register_shifts(m: Machine, instr: u16, k: u32)
    requires
        runs_thumb(m, instr),
        instr / 0x400 == 0x10,
        2 <= instr / 0x40 % 16 <= 4 || instr / 0x40 % 16 == 7,
        k < 32,
    ensures
        ({
            let op = instr / 0x40 % 16;
            let kind = if op == 7 {
                3int
            } else {
                op - 2
            };
            let rd = (instr % 8) as int;
            let value = m.cpu.r[rd];
            let distance = m.cpu.r[(instr / 8 % 8) as int] % 0x100;
            let after = m.stepped().0;
            &&& crate::arm_laws::bit_is_moved(
                after.cpu.r[rd],
                value,
                kind,
                distance as int,
                k as int,
            )
            &&& logical_flags(
                m.cpu,
                after.cpu,
                after.cpu.r[rd],
                crate::arm_laws::last_bit_out(
                    value,
                    kind,
                    distance as int,
                    crate::encoding::carried(m.cpu.psr),
                ),
            )
            &&& changes_only(m, after, rd)
        }),
{
    lemma_thumb_alu(m, instr);
    let op = instr / 0x40 % 16;
    let kind = if op == 7 {
        3u32
    } else {
        (op - 2) as u32
    };
    crate::arm_laws::law_register_shifts(
        kind,
        m.cpu.r[(instr / 8 % 8) as int] % 0x100,
        m.cpu.r[(instr % 8) as int],
        crate::encoding::carried(m.cpu.psr),
        k,
    );
}

/// The arithmetic register-to-register instructions: `ADC` and `SBC` with the
/// carry, `NEG`, the comparisons `CMP` and `CMN`, and `MUL`, which leaves C and
/// V alone; all modulo 2^32.
pub proof fn law_thumb_arithmetic(m: Machine, instr: u16)
    requires
        runs_thumb(m, instr),
        instr / 0x400 == 0x10,
        instr / 0x40 % 16 == 5 || instr / 0x40 % 16 == 6 || 9 <= instr / 0x40 % 16 <= 11 || instr
            / 0x40 % 16 == 13,
    ensures
        ({
            let op = instr / 0x40 % 16;
            let rd = (instr % 8) as int;
            let a = m.cpu.r[rd];
            let b = m.cpu.r[(instr / 8 % 8) as int];
            let carry = crate::encoding::carried(m.cpu.psr);
            let after = m.stepped().0;
            let result = after.cpu.r[rd];
            &&& op == 5 ==> {
                &&& result == (a + b + if carry {
                    1int
                } else {
                    0int
                }) % 0x1_0000_0000
                &&& sum_flags(m.cpu, after.cpu, a, b, carry)
            }
            &&& op == 6 ==> {
                &&& result == (a - b - if carry {
                    0int
                } else {
                    1int
                }) % 0x1_0000_0000
                &&& difference_flags(m.cpu, after.cpu, a, b, carry)
            }
            &&& op == 9 ==> {
                &&& result == (0 - b) % 0x1_0000_0000
                &&& difference_flags(m.cpu, after.cpu, 0, b, true)
            }
            &&& op == 10 ==> result == a && difference_flags(m.cpu, after.cpu, a, b, true)
            &&& op == 11 ==> result == a && sum_flags(m.cpu, after.cpu, a, b, false)
            &&& op == 13 ==> {
                &&& result == (a * b) % 0x1_0000_0000
                &&& logical_flags(m.cpu, after.cpu, result, carry)
            }
            &&& changes_only(m, after, rd)
        }),
{
    lemma_thumb_alu(m, instr);
}

/// Whether a step left the memory and the status alone and changed no register
/// but the program counter, which is `target`.
pub open spec fn jumps(m: Machine, after: Machine, target: int) -> bool {
    &&& after.bus == m.bus
    &&& after.cpu.psr == m.cpu.psr
    &&& after.cpu.r[15] == target
    &&& forall|j: int| 0 <= j < 15 ==> #[trigger] after.cpu.r[j] == m.cpu.r[j]
}

/// After an instruction that jumps, the registers and the memory are those that
/// it left.
pub(crate) proof fn lemma_thumb_jumps(m: Machine, instr: u16)
    requires
        runs_thumb(m, instr),
        !(ThumbInstruction::format(instr) is UnconditionalBranch),
        effect(m, instr).1 is Branched,
    ensures
        m.stepped().0.bus == effect(m, instr).0.bus,
        m.stepped().0.cpu.psr == effect(m, instr).0.cpu.psr,
        m.stepped().0.cpu.r == effect(m, instr).0.cpu.r,
{
    lemma_thumb_step(m, instr);
}

proof fn lemma_high_fields(instr: u16)
    requires
        instr / 0x400 == 0x11,
    ensures
        ThumbInstruction::format(instr) is HiRegisterOpBx,
        (instr >> 8) % 4 == instr / 0x100 % 4,
        crate::bits::octal_of(instr, 3) + (if crate::bits::bit16(instr, 6) {
            8int
        } else {
            0int
        }) == instr / 8 % 16,
        crate::bits::octal_of(instr, 0) + (if crate::bits::bit16(instr, 7) {
            8int
        } else {
            0int
        }) == instr % 8 + instr / 0x80 % 2 * 8,
{
    crate::encoding::lemma_half_digits(instr);
    assert(instr / 0x2000 == 2 && instr / 0x1000 % 2 == 0 && instr / 0x800 % 2 == 0 && instr / 0x400
        % 2 == 1);
}

#[verifier::spinoff_prover]
#[verifier::rlimit(40)]
proof fn lemma_high_effect(m: Machine, instr: u16)
    requires
        runs_thumb(m, instr),
        instr / 0x400 == 0x11,
    ensures
        ({
            let op = instr / 0x100 % 4;
            let rd = instr % 8 + instr / 0x80 % 2 * 8;
            let a = high_register(m.cpu, rd);
            let b = high_register(m.cpu, (instr / 8 % 16) as int);
            let (result, carry, overflow) = crate::alu::difference(a, b, true);
            let moved = if op == 0 {
                a.wrapping_add(b)
            } else {
                b
            };
            let go = Executed::Continue { extra_cycles: 0 };
            let jump = Executed::Branched { extra_cycles: 0 };
            &&& effect(m, instr) == m.on_cpu(
                if op == 1 {
                    (m.cpu.with_flags(result, carry, overflow), go)
                } else if op == 3 {
                    (m.cpu.exchanged(b), jump)
                } else if rd == 15 {
                    (m.cpu.with_pc(crate::cpu::half_aligned(moved)), jump)
                } else {
                    (m.cpu.with_reg(rd, moved), go)
                },
            )
            &&& ThumbInstruction::format(instr) is HiRegisterOpBx
            &&& m.cpu.thumb()
        }),
{
    lemma_high_fields(instr);
    lemma_thumb_step(m, instr);
    let c = m.cpu;
    let rd = instr % 8 + instr / 0x80 % 2 * 8;
    let rs = (instr / 8 % 16) as int;
    crate::encoding::lemma_wrapping(c.r[15], 4);
    assert(c.reg(rd) == high_register(c, rd));
    assert(c.reg(rs) == high_register(c, rs));
    assert(effect(m, instr) == m.on_cpu(c.thumb_hi_reg_op(instr))) by {
        reveal(Machine::thumb_executed);
    }
}

/// Register `i` as a THUMB instruction reads it.
pub open spec fn high_register(c: CpuState, i: int) -> u32 {
    crate::arm_laws::read_register(c, i, 4) as u32
}

/// The operations on all sixteen registers: `ADD` and `MOV` set no flags, and
/// jump when they write the program counter.
pub proof fn law_thumb_high_registers(m: Machine, instr: u16)
    requires
        runs_thumb(m, instr),
        instr / 0x400 == 0x11,
        instr / 0x100 % 4 == 0 || instr / 0x100 % 4 == 2,
    ensures
        ({
            let rd = instr % 8 + instr / 0x80 % 2 * 8;
            let b = high_register(m.cpu, (instr / 8 % 16) as int);
            let result = if instr / 0x100 % 4 == 0 {
                (high_register(m.cpu, rd) + b) % 0x1_0000_0000
            } else {
                b as int
            };
            let after = m.stepped().0;
            if rd == 15 {
                jumps(m, after, result - result % 2)
            } else {
                &&& changes_only(m, after, rd)
                &&& after.cpu.r[rd] == result
                &&& after.cpu.psr == m.cpu.psr
            }
        }),
{
    lemma_high_effect(m, instr);
    let rd = instr % 8 + instr / 0x80 % 2 * 8;
    crate::encoding::lemma_wrapping(
        high_register(m.cpu, rd),
        high_register(m.cpu, (instr / 8 % 16) as int),
    );
    if rd == 15 {
        lemma_thumb_jumps(m, instr);
    } else {
        lemma_thumb_continues(m, instr);
    }
}

/// `CMP` of any two registers sets the flags of their difference and changes no
/// register.
pub proof fn law_thumb_high_compare(m: Machine, instr: u16)
    requires
        runs_thumb(m, instr),
        instr / 0x100 == 0x45,
    ensures
        ({
            let a = high_register(m.cpu, instr % 8 + instr / 0x80 % 2 * 8);
            let b = high_register(m.cpu, (instr / 8 % 16) as int);
            let after = m.stepped().0;
            &&& changes_only(m, after, 15)
            &&& difference_flags(m.cpu, after.cpu, a, b, true)
        }),
{
    assert(instr / 0x400 == 0x11 && instr / 0x100 % 4 == 1);
    lemma_high_effect(m, instr);
    let a = high_register(m.cpu, instr % 8 + instr / 0x80 % 2 * 8);
    let b = high_register(m.cpu, (instr / 8 % 16) as int);
    let (result, carry, overflow) = crate::alu::difference(a, b, true);
    lemma_thumb_operation(m, instr, None, result, carry, overflow);
}

/// `BX` jumps to a register and lets bit 0 of it choose the state: to the even
/// address below in THUMB state, to the multiple of four below in ARM state.
pub proof fn law_thumb_exchange(m: Machine, instr: u16)
    requires
        runs_thumb(m, instr),
        instr / 0x100 == 0x47,
    ensures
        ({
            let b = high_register(m.cpu, (instr / 8 % 16) as int);
            let after = m.stepped().0;
            &&& after.bus == m.bus
            &&& after.cpu.r[15] == if b % 2 == 1 {
                b - 1
            } else {
                b - b % 4
            }
            &&& after.cpu.psr == if b % 2 == 1 {
                m.cpu.psr as int
            } else {
                m.cpu.psr - 0x20
            }
            &&& forall|j: int| 0 <= j < 15 ==> #[trigger] after.cpu.r[j] == m.cpu.r[j]
        }),
{
    assert(instr / 0x400 == 0x11 && instr / 0x100 % 4 == 3);
    lemma_high_effect(m, instr);
    crate::encoding::lemma_status_digits(m.cpu.psr);
    lemma_thumb_jumps(m, instr);
}

proof fn lemma_address_fields(instr: u16)
    requires
        instr / 0x1000 == 10 || instr / 0x100 == 0xB0,
    ensures
        instr / 0x1000 == 10 ==> ThumbInstruction::format(instr) is LoadAddress,
        instr / 0x100 == 0xB0 ==> ThumbInstruction::format(instr) is AddOffsetToSp,
        crate::bits::bit16(instr, 11) == (instr / 0x800 % 2 == 1),
        crate::bits::bit16(instr, 7) == (instr / 0x80 % 2 == 1),
        crate::bits::octal_of(instr, 8) == instr / 0x100 % 8,
{
    crate::encoding::lemma_half_digits(instr);
    assert(instr / 0x2000 == 5);
}

/// The program counter as a base: four bytes ahead, with bit 1 cleared.
pub open spec fn near_pc(c: CpuState) -> int {
    let pc = (c.r[15] + 4) % 0x1_0000_0000;
    pc - pc / 2 % 2 * 2
}

proof fn lemma_near_pc(c: CpuState)
    requires
        c.thumb(),
    ensures
        c.thumb_pc_base() == near_pc(c),
{
    crate::encoding::lemma_status_digits(c.reg(15));
    crate::encoding::lemma_wrapping(c.r[15], 4);
}

/// `ADD rd, pc, #n` and `ADD rd, sp, #n`: the program counter as a base, or the
/// stack pointer, plus four times eight bits of the instruction.
pub proof fn law_thumb_addresses(m: Machine, instr: u16)
    requires
        runs_thumb(m, instr),
        instr / 0x1000 == 10,
    ensures
        ({
            let after = m.stepped().0;
            let rd = (instr / 0x100 % 8) as int;
            let base = if instr / 0x800 % 2 == 1 {
                m.cpu.r[13] as int
            } else {
                near_pc(m.cpu)
            };
            loads(m, after, rd, (base + instr % 0x100 * 4) % 0x1_0000_0000)
        }),
{
    lemma_address_fields(instr);
    assert(effect(m, instr) == m.on_cpu(m.cpu.thumb_load_address(instr))) by {
        reveal(Machine::thumb_executed);
    }
    lemma_thumb_step(m, instr);
    lemma_near_pc(m.cpu);
    crate::encoding::lemma_wrapping(m.cpu.r[13], (instr % 0x100 * 4) as u32);
    crate::encoding::lemma_wrapping(m.cpu.thumb_pc_base(), (instr % 0x100 * 4) as u32);
    lemma_thumb_continues(m, instr);
}

/// `ADD sp, #n` moves the stack pointer up, or down with bit 7, by four times
/// seven bits of the instruction.
pub proof fn law_thumb_stack_moves(m: Machine, instr: u16)
    requires
        runs_thumb(m, instr),
        instr / 0x100 == 0xB0,
    ensures
        loads(
            m,
            m.stepped().0,
            13,
            (if instr / 0x80 % 2 == 1 {
                m.cpu.r[13] - instr % 0x80 * 4
            } else {
                m.cpu.r[13] + instr % 0x80 * 4
            }) % 0x1_0000_0000,
        ),
{
    lemma_address_fields(instr);
    assert(effect(m, instr) == m.on_cpu(m.cpu.thumb_add_offset_to_sp(instr))) by {
        reveal(Machine::thumb_executed);
    }
    lemma_thumb_step(m, instr);
    crate::encoding::lemma_wrapping(m.cpu.r[13], (instr % 0x80 * 4) as u32);
    lemma_thumb_continues(m, instr);
}

/// What `LDRH` brings from an address: the halfword there, and from an odd
/// address the halfword below it turned by eight bits.
pub open spec fn half_loaded(bus: BusState, address: int) -> int {
    let low = bus.read8((address - address % 2) as u32);
    let high = bus.read8((address - address % 2 + 1) as u32);
    if address % 2 == 0 {
        low + 0x100 * high
    } else {
        high + 0x100_0000 * low
    }
}

/// A byte as a word with its sign.
pub open spec fn signed_byte(byte: int) -> int {
    if byte >= 0x80 {
        0xFFFF_FF00 + byte
    } else {
        byte
    }
}

/// A halfword as a word with its sign.
pub open spec fn signed_word(half: int) -> int {
    if half >= 0x8000 {
        0xFFFF_0000 + half
    } else {
        half
    }
}

/// What `LDRSH` brings from an address: the halfword with its sign, and from an
/// odd address the byte there with its sign.
pub open spec fn signed_half_loaded(bus: BusState, address: int) -> int {
    if address % 2 == 0 {
        signed_word(half_loaded(bus, address))
    } else {
        signed_byte(bus.read8(address as u32) as int)
    }
}

/// The loads of halfwords, as numbers.
pub(crate) proof fn lemma_halfword_loads(bus: BusState, address: u32)
    ensures
        crate::cpu_arm::unsigned_half(bus, address) == half_loaded(bus, address as int),
        crate::cpu_arm::signed_half(bus, address) == signed_half_loaded(bus, address as int),
        crate::bits::sign_extend_8(bus.read8(address)) == signed_byte(bus.read8(address) as int),
{
    let base = (address - address % 2) as u32;
    let half = crate::bits::half_from_bytes(bus.read8(base), bus.read8((base + 1) as u32));
    if address % 2 == 1 {
        crate::encoding::lemma_half_turned(half);
        assert((8 * (address % 2)) as u32 == 8);
        assert(half % 0x100 == bus.read8(base));
        assert(half / 0x100 == bus.read8((base + 1) as u32));
    }
}

/// Whether a step loaded `value` into register `rd` and did nothing else.
pub open spec fn loads(m: Machine, after: Machine, rd: int, value: int) -> bool {
    &&& changes_only(m, after, rd)
    &&& after.cpu.r[rd] == value
    &&& after.cpu.psr == m.cpu.psr
}

/// Whether a step left this memory and changed no register.
pub open spec fn stores(m: Machine, after: Machine, bus: BusState) -> bool {
    &&& after.bus == bus
    &&& crate::arm_laws::moves_on(m.cpu, after.cpu, 15, 2)
    &&& after.cpu.psr == m.cpu.psr
}

proof fn lemma_transfer_fields(instr: u16)
    requires
        instr / 0x800 == 9 || 5 <= instr / 0x1000 <= 9,
    ensures
        instr / 0x800 == 9 ==> ThumbInstruction::format(instr) is PcRelativeLoad,
        instr / 0x1000 == 5 && instr / 0x200 % 2 == 0 ==> ThumbInstruction::format(
            instr,
        ) is LoadStoreRegOffset,
        instr / 0x1000 == 5 && instr / 0x200 % 2 == 1 ==> ThumbInstruction::format(
            instr,
        ) is LoadStoreSignExtended,
        instr / 0x2000 == 3 ==> ThumbInstruction::format(instr) is LoadStoreImmOffset,
        instr / 0x1000 == 8 ==> ThumbInstruction::format(instr) is LoadStoreHalfword,
        instr / 0x1000 == 9 ==> ThumbInstruction::format(instr) is SpRelativeLoadStore,
        crate::bits::bit16(instr, 10) == (instr / 0x400 % 2 == 1),
        crate::bits::bit16(instr, 11) == (instr / 0x800 % 2 == 1),
        crate::bits::bit16(instr, 12) == (instr / 0x1000 % 2 == 1),
        (instr >> 10) % 4 == instr / 0x400 % 4,
        (instr >> 6) % 32 == instr / 0x40 % 32,
        crate::bits::octal_of(instr, 8) == instr / 0x100 % 8,
        crate::bits::octal_of(instr, 6) == instr / 0x40 % 8,
        crate::bits::octal_of(instr, 3) == instr / 8 % 8,
        crate::bits::octal_of(instr, 0) == instr % 8,
{
    crate::encoding::lemma_half_digits(instr);
    assert(instr / 0x2000 == instr / 0x1000 / 2);
    assert(instr / 0x800 == 9 ==> instr / 0x1000 == 4);
}

proof fn lemma_transfer_continues(m: Machine, instr: u16)
    requires
        runs_thumb(m, instr),
        !(ThumbInstruction::format(instr) is UnconditionalBranch),
        effect(m, instr).1 is Accessed,
        effect(m, instr).0.cpu.r.len() == 16,
        effect(m, instr).0.cpu.r[15] == m.cpu.r[15],
        effect(m, instr).0.cpu == (CpuState { r: effect(m, instr).0.cpu.r, ..m.cpu }),
    ensures
        m.stepped().0.bus == effect(m, instr).0.bus,
        m.stepped().0.cpu.psr == m.cpu.psr,
        m.stepped().0.cpu.r == effect(m, instr).0.cpu.r.update(
            15,
            ((m.cpu.r[15] + 2) % 0x1_0000_0000) as u32,
        ),
        m.stepped().0.cpu.wf(),
{
    lemma_thumb_step(m, instr);
    lemma_thumb_continues(m, instr);
}

/// A word or byte load or store.
proof fn lemma_load_store(m: Machine, instr: u16, load: bool, byte: bool, rd: int, address: u32)
    requires
        runs_thumb(m, instr),
        !(ThumbInstruction::format(instr) is UnconditionalBranch),
        0 <= rd < 8,
        effect(m, instr) == m.thumb_load_store(load, byte, rd, address),
    ensures
        ({
            let after = m.stepped().0;
            let value = m.cpu.r[rd];
            &&& load && byte ==> loads(m, after, rd, m.bus.read8(address) as int)
            &&& load && !byte ==> loads(m, after, rd, m.bus.read32(address) as int)
            &&& !load && byte ==> stores(
                m,
                after,
                m.bus.write8(address, (value % 0x100) as u8),
            )
            &&& !load && !byte ==> stores(m, after, m.bus.write32(address, value))
        }),
{
    lemma_transfer_continues(m, instr);
}

/// `LDR rd, [pc, #n]` brings the word at the program counter as a base plus four
/// times eight bits of the instruction.
pub proof fn law_thumb_literal_load(m: Machine, instr: u16)
    requires
        runs_thumb(m, instr),
        instr / 0x800 == 9,
    ensures
        ({
            let address = ((near_pc(m.cpu) + instr % 0x100 * 4) % 0x1_0000_0000) as u32;
            loads(m, m.stepped().0, (instr / 0x100 % 8) as int, m.bus.read32(address) as int)
        }),
{
    lemma_transfer_fields(instr);
    lemma_thumb_step(m, instr);
    lemma_near_pc(m.cpu);
    let shift = (instr % 0x100 * 4) as u32;
    let address = m.cpu.thumb_pc_base().wrapping_add(shift);
    crate::encoding::lemma_wrapping(m.cpu.thumb_pc_base(), shift);
    let rd = (instr / 0x100 % 8) as int;
    assert(effect(m, instr) == m.thumb_load_store(true, false, rd, address)) by {
        reveal(Machine::thumb_executed);
    }
    lemma_load_store(m, instr, true, false, rd, address);
}

/// `LDR` and `STR` relative to the stack pointer, four times eight bits of the
/// instruction above it.
pub proof fn law_thumb_stack_transfers(m: Machine, instr: u16)
    requires
        runs_thumb(m, instr),
        instr / 0x1000 == 9,
    ensures
        ({
            let rd = (instr / 0x100 % 8) as int;
            let address = ((m.cpu.r[13] + instr % 0x100 * 4) % 0x1_0000_0000) as u32;
            if instr / 0x800 % 2 == 1 {
                loads(m, m.stepped().0, rd, m.bus.read32(address) as int)
            } else {
                stores(m, m.stepped().0, m.bus.write32(address, m.cpu.r[rd]))
            }
        }),
{
    lemma_transfer_fields(instr);
    let shift = (instr % 0x100 * 4) as u32;
    let address = m.cpu.r[13].wrapping_add(shift);
    crate::encoding::lemma_wrapping(m.cpu.r[13], shift);
    let rd = (instr / 0x100 % 8) as int;
    let load = instr / 0x800 % 2 == 1;
    assert(effect(m, instr) == m.thumb_load_store(load, false, rd, address)) by {
        reveal(Machine::thumb_executed);
    }
    lemma_load_store(m, instr, load, false, rd, address);
}

/// What a word or byte load or store does.
pub open spec fn transfers(
    m: Machine,
    after: Machine,
    load: bool,
    byte: bool,
    rd: int,
    address: u32,
) -> bool {
    let value = m.cpu.r[rd];
    if load && byte {
        loads(m, after, rd, m.bus.read8(address) as int)
    } else if load {
        loads(m, after, rd, m.bus.read32(address) as int)
    } else if byte {
        stores(m, after, m.bus.write8(address, (value % 0x100) as u8))
    } else {
        stores(m, after, m.bus.write32(address, value))
    }
}

/// `LDR`, `STR`, `LDRB` and `STRB` at the sum of two registers.
pub proof fn law_thumb_register_transfers(m: Machine, instr: u16)
    requires
        runs_thumb(m, instr),
        instr / 0x1000 == 5,
        instr / 0x200 % 2 == 0,
    ensures
        transfers(
            m,
            m.stepped().0,
            instr / 0x800 % 2 == 1,
            instr / 0x400 % 2 == 1,
            (instr % 8) as int,
            ((m.cpu.r[(instr / 8 % 8) as int] + m.cpu.r[(instr / 0x40 % 8) as int])
                % 0x1_0000_0000) as u32,
        ),
{
    lemma_transfer_fields(instr);
    let base = m.cpu.r[(instr / 8 % 8) as int];
    let offset = m.cpu.r[(instr / 0x40 % 8) as int];
    let address = base.wrapping_add(offset);
    crate::encoding::lemma_wrapping(base, offset);
    let load = instr / 0x800 % 2 == 1;
    let byte = instr / 0x400 % 2 == 1;
    let rd = (instr % 8) as int;
    assert(effect(m, instr) == m.thumb_load_store(load, byte, rd, address)) by {
        reveal(Machine::thumb_executed);
    }
    lemma_load_store(m, instr, load, byte, rd, address);
}

/// `LDR`, `STR`, `LDRB` and `STRB` at a register plus five bits of the
/// instruction, in words for words and in bytes for bytes.
pub proof fn law_thumb_immediate_transfers(m: Machine, instr: u16)
    requires
        runs_thumb(m, instr),
        instr / 0x1000 == 6 || instr / 0x1000 == 7,
    ensures
        ({
            let byte = instr / 0x1000 == 7;
            let offset = if byte {
                (instr / 0x40 % 32) as int
            } else {
                instr / 0x40 % 32 * 4
            };
            transfers(
                m,
                m.stepped().0,
                instr / 0x800 % 2 == 1,
                byte,
                (instr % 8) as int,
                ((m.cpu.r[(instr / 8 % 8) as int] + offset) % 0x1_0000_0000) as u32,
            )
        }),
{
    assert(instr / 0x2000 == 3);
    lemma_transfer_fields(instr);
    let base = m.cpu.r[(instr / 8 % 8) as int];
    let byte = instr / 0x1000 == 7;
    let offset = if byte {
        (instr / 0x40 % 32) as u32
    } else {
        (instr / 0x40 % 32 * 4) as u32
    };
    let address = base.wrapping_add(offset);
    crate::encoding::lemma_wrapping(base, offset);
    let load = instr / 0x800 % 2 == 1;
    let rd = (instr % 8) as int;
    assert(effect(m, instr) == m.thumb_load_store(load, byte, rd, address)) by {
        reveal(Machine::thumb_executed);
    }
    lemma_load_store(m, instr, load, byte, rd, address);
}

/// What `STRH` (0), `LDRSB` (1), `LDRH` (2) and `LDRSH` (3) do.
pub open spec fn half_transfers(m: Machine, after: Machine, op: int, rd: int, address: int) -> bool {
    if op == 0 {
        stores(m, after, m.bus.write16(address as u32, (m.cpu.r[rd] % 0x1_0000) as u16))
    } else if op == 1 {
        loads(m, after, rd, signed_byte(m.bus.read8(address as u32) as int))
    } else if op == 2 {
        loads(m, after, rd, half_loaded(m.bus, address))
    } else {
        loads(m, after, rd, signed_half_loaded(m.bus, address))
    }
}

/// `STRH`, `LDRSB`, `LDRH` and `LDRSH` at the sum of two registers.
pub proof fn law_thumb_register_halfwords(m: Machine, instr: u16)
    requires
        runs_thumb(m, instr),
        instr / 0x1000 == 5,
        instr / 0x200 % 2 == 1,
    ensures
        half_transfers(
            m,
            m.stepped().0,
            (instr / 0x400 % 4) as int,
            (instr % 8) as int,
            (m.cpu.r[(instr / 8 % 8) as int] + m.cpu.r[(instr / 0x40 % 8) as int]) % 0x1_0000_0000,
        ),
{
    lemma_transfer_fields(instr);
    let base = m.cpu.r[(instr / 8 % 8) as int];
    let offset = m.cpu.r[(instr / 0x40 % 8) as int];
    assert(effect(m, instr) == m.thumb_load_store_sign_extended(instr)) by {
        reveal(Machine::thumb_executed);
    }
    crate::encoding::lemma_wrapping(base, offset);
    lemma_halfword_loads(m.bus, base.wrapping_add(offset));
    lemma_transfer_continues(m, instr);
}

/// `STRH` and `LDRH` at a register plus five bits of the instruction, in
/// halfwords.
pub proof fn law_thumb_immediate_halfwords(m: Machine, instr: u16)
    requires
        runs_thumb(m, instr),
        instr / 0x1000 == 8,
    ensures
        half_transfers(
            m,
            m.stepped().0,
            if instr / 0x800 % 2 == 1 {
                2int
            } else {
                0int
            },
            (instr % 8) as int,
            (m.cpu.r[(instr / 8 % 8) as int] + instr / 0x40 % 32 * 2) % 0x1_0000_0000,
        ),
{
    lemma_transfer_fields(instr);
    let base = m.cpu.r[(instr / 8 % 8) as int];
    let offset = (instr / 0x40 % 32 * 2) as u32;
    assert(effect(m, instr) == m.thumb_load_store_halfword(instr)) by {
        reveal(Machine::thumb_executed);
    }
    crate::encoding::lemma_wrapping(base, offset);
    lemma_halfword_loads(m.bus, base.wrapping_add(offset));
    lemma_transfer_continues(m, instr);
}

} // verus!

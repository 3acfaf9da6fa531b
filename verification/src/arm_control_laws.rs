//! What the ARM multiplications, branches, status transfers and exceptions do.

use vstd::prelude::*;

use crate::arm::ArmInstruction;
use crate::bits::bit;
use crate::cpu::{CpuState, Halt, Machine, StepResult};
use crate::psr::CpuMode;

verus! {

/// A multiplication that leaves its flags.
proof fn lemma_n_and_z(c: CpuState, n: bool, z: bool)
    ensures
        ({
            let after = c.with_n_and_z(n, z).psr;
            &&& crate::encoding::negative(after) == n
            &&& crate::encoding::zero(after) == z
            &&& after % 0x4000_0000 == c.psr % 0x4000_0000
            &&& (after & crate::psr::T != 0) == (c.psr & crate::psr::T != 0)
        }),
{
    crate::encoding::lemma_two_flags(c.psr, n, z);
}

/// The digits of a multiplication.
proof fn lemma_multiply_fields(instr: u32)
    ensures
        bit(instr, 20) == (instr / 0x10_0000 % 2 == 1),
        bit(instr, 21) == (instr / 0x20_0000 % 2 == 1),
        bit(instr, 22) == (instr / 0x40_0000 % 2 == 1),
        crate::bits::nibble_of(instr, 0) == instr % 16,
        crate::bits::nibble_of(instr, 8) == instr / 0x100 % 16,
        crate::bits::nibble_of(instr, 12) == instr / 0x1000 % 16,
        crate::bits::nibble_of(instr, 16) == instr / 0x1_0000 % 16,
{
    crate::encoding::lemma_word_digits(instr);
}

#[verifier::spinoff_prover]
proof fn lemma_multiply(m: Machine, instr: u32)
    requires
        crate::arm_laws::runs_arm(m, instr),
        instr / 0x40_0000 % 64 == 0,
        instr / 0x10 % 16 == 9,
    ensures
        ArmInstruction::category(instr) is Multiply,
        m.arm_executed(ArmInstruction::category(instr), instr) == m.on_cpu(m.cpu.multiply(instr)),
        !m.cpu.thumb(),
{
    crate::encoding::lemma_word_patterns(instr);
    crate::encoding::lemma_status_digits(m.cpu.psr);
    reveal(Machine::arm_executed);
}

/// `MUL` leaves the product of two registers modulo 2^32, `MLA` the product plus
/// a third register. On request N and Z tell about the result; C and V stay.
pub proof fn law_multiply(m: Machine, instr: u32)
    requires
        crate::arm_laws::runs_arm(m, instr),
        instr / 0x40_0000 % 64 == 0,
        instr / 0x10 % 16 == 9,
        instr / 0x1_0000 % 16 < 15,
    ensures
        ({
            let after = m.stepped().0;
            let rd = (instr / 0x1_0000 % 16) as int;
            let a = crate::arm_memory_laws::arm_register(m.cpu, (instr % 16) as int);
            let b = crate::arm_memory_laws::arm_register(m.cpu, (instr / 0x100 % 16) as int);
            let c = crate::arm_memory_laws::arm_register(m.cpu, (instr / 0x1000 % 16) as int);
            let result = if instr / 0x20_0000 % 2 == 1 {
                (a * b % 0x1_0000_0000 + c) % 0x1_0000_0000
            } else {
                a * b % 0x1_0000_0000
            };
            &&& after.cpu.r[rd] == result
            &&& crate::arm_laws::moves_on(m.cpu, after.cpu, rd, 4)
            &&& after.bus == m.bus
            &&& instr / 0x10_0000 % 2 == 0 ==> after.cpu.psr == m.cpu.psr
            &&& instr / 0x10_0000 % 2 == 1 ==> {
                &&& crate::encoding::negative(after.cpu.psr) == (result >= 0x8000_0000)
                &&& crate::encoding::zero(after.cpu.psr) == (result == 0)
                &&& after.cpu.psr % 0x4000_0000 == m.cpu.psr % 0x4000_0000
            }
        }),
{
    lemma_multiply(m, instr);
    lemma_multiply_fields(instr);
    let c = m.cpu;
    crate::arm_memory_laws::lemma_arm_register(c, (instr % 16) as int);
    crate::arm_memory_laws::lemma_arm_register(c, (instr / 0x100 % 16) as int);
    crate::arm_memory_laws::lemma_arm_register(c, (instr / 0x1000 % 16) as int);
    let product = c.reg((instr % 16) as int).wrapping_mul(c.reg((instr / 0x100 % 16) as int));
    crate::encoding::lemma_wrapping(product, c.reg((instr / 0x1000 % 16) as int));
    let result = if instr / 0x20_0000 % 2 == 1 {
        product.wrapping_add(c.reg((instr / 0x1000 % 16) as int))
    } else {
        product
    };
    let written = c.with_reg((instr / 0x1_0000 % 16) as int, result);
    lemma_n_and_z(written, bit(result, 31), result == 0);
    crate::encoding::lemma_status_digits(result);
    crate::arm_memory_laws::lemma_arm_continues(m, instr);
}

#[verifier::spinoff_prover]
proof fn lemma_multiply_long(m: Machine, instr: u32)
    requires
        crate::arm_laws::runs_arm(m, instr),
        instr / 0x80_0000 % 32 == 1,
        instr / 0x10 % 16 == 9,
    ensures
        ArmInstruction::category(instr) is MultiplyLong,
        m.arm_executed(ArmInstruction::category(instr), instr) == m.on_cpu(
            m.cpu.multiply_long(instr),
        ),
        !m.cpu.thumb(),
{
    crate::encoding::lemma_word_patterns(instr);
    crate::encoding::lemma_status_digits(m.cpu.psr);
    reveal(Machine::arm_executed);
}

/// The long multiplications leave the 64-bit product of two registers in two
/// registers, high word and low word, as numbers without sign (`UMULL`) or with
/// (`SMULL`, bit 22), and with bit 21 plus what the two held before, modulo 2^64.
pub proof fn law_multiply_long(m: Machine, instr: u32)
    requires
        crate::arm_laws::runs_arm(m, instr),
        instr / 0x80_0000 % 32 == 1,
        instr / 0x10 % 16 == 9,
        instr / 0x1_0000 % 16 < 15,
        instr / 0x1000 % 16 < 15,
        instr / 0x1_0000 % 16 != instr / 0x1000 % 16,
    ensures
        ({
            let after = m.stepped().0;
            let hi = (instr / 0x1_0000 % 16) as int;
            let lo = (instr / 0x1000 % 16) as int;
            let a = crate::arm_memory_laws::arm_register(m.cpu, (instr % 16) as int);
            let b = crate::arm_memory_laws::arm_register(m.cpu, (instr / 0x100 % 16) as int);
            let exact = if instr / 0x40_0000 % 2 == 1 {
                crate::encoding::number(a) * crate::encoding::number(b)
            } else {
                a * b
            };
            let product = exact % 0x1_0000_0000_0000_0000;
            let result = if instr / 0x20_0000 % 2 == 1 {
                (product + m.cpu.r[hi] * 0x1_0000_0000 + m.cpu.r[lo]) % 0x1_0000_0000_0000_0000
            } else {
                product
            };
            &&& after.cpu.r[hi] * 0x1_0000_0000 + after.cpu.r[lo] == result
            &&& after.bus == m.bus
            &&& after.cpu.r[15] == (m.cpu.r[15] + 4) % 0x1_0000_0000
            &&& forall|j: int|
                0 <= j < 15 && j != hi && j != lo ==> #[trigger] after.cpu.r[j] == m.cpu.r[j]
            &&& instr / 0x10_0000 % 2 == 0 ==> after.cpu.psr == m.cpu.psr
            &&& instr / 0x10_0000 % 2 == 1 ==> {
                &&& crate::encoding::negative(after.cpu.psr) == (result >= 0x8000_0000_0000_0000)
                &&& crate::encoding::zero(after.cpu.psr) == (result == 0)
                &&& after.cpu.psr % 0x4000_0000 == m.cpu.psr % 0x4000_0000
            }
        }),
{
    lemma_multiply_long(m, instr);
    lemma_multiply_fields(instr);
    let c = m.cpu;
    let hi = (instr / 0x1_0000 % 16) as int;
    let lo = (instr / 0x1000 % 16) as int;
    crate::arm_memory_laws::lemma_arm_register(c, (instr % 16) as int);
    crate::arm_memory_laws::lemma_arm_register(c, (instr / 0x100 % 16) as int);
    let a = c.reg((instr % 16) as int);
    let b = c.reg((instr / 0x100 % 16) as int);
    let signed = instr / 0x40_0000 % 2 == 1;
    let product = crate::cpu_arm::long_product(a, b, signed);
    lemma_long_product(a, b, signed);
    let sum = (c.r[hi] * 0x1_0000_0000 + c.r[lo]) as u64;
    lemma_wrapping_64(product, sum);
    let result = if instr / 0x20_0000 % 2 == 1 {
        product.wrapping_add(sum)
    } else {
        product
    };
    let written = c.with_reg(lo, (result % 0x1_0000_0000) as u32).with_reg(
        hi,
        (result / 0x1_0000_0000) as u32,
    );
    lemma_n_and_z(written, result >= 0x8000_0000_0000_0000, result == 0);
    crate::arm_memory_laws::lemma_arm_continues(m, instr);
}

proof fn lemma_wrapping_64(a: u64, b: u64)
    ensures
        a.wrapping_add(b) == (a + b) % 0x1_0000_0000_0000_0000,
{
}

proof fn lemma_long_product(a: u32, b: u32, signed: bool)
    ensures
        crate::cpu_arm::long_product(a, b, signed) == (if signed {
            crate::encoding::number(a) * crate::encoding::number(b)
        } else {
            a * b
        }) % 0x1_0000_0000_0000_0000,
{
    assert(0 <= a * b <= 0xFFFF_FFFF * 0xFFFF_FFFF) by (nonlinear_arith)
        requires
            0 <= a <= 0xFFFF_FFFF,
            0 <= b <= 0xFFFF_FFFF,
    ;
}

/// `B` jumps to the program counter eight bytes ahead plus four times 24 signed
/// bits of the instruction; `BL` leaves the address behind itself in the link
/// register. A branch to itself ends the run.
pub proof fn law_arm_branch(m: Machine, instr: u32)
    requires
        crate::arm_laws::runs_arm(m, instr),
        instr / 0x200_0000 % 8 == 5,
    ensures
        ({
            let (after, result) = m.stepped();
            let pc = m.cpu.r[15];
            let target = ((pc + 8) % 0x1_0000_0000 + 4 * crate::thumb_flow_laws::signed_field(
                (instr % 0x100_0000) as int,
                0x100_0000,
            )) % 0x1_0000_0000;
            if target == pc {
                &&& after == m
                &&& result == StepResult::Halted(Halt::InfiniteLoop { pc, instr })
            } else {
                &&& result == StepResult::Stepped
                &&& after.bus == m.bus
                &&& after.cpu.psr == m.cpu.psr
                &&& after.cpu.r[15] == target
                &&& after.cpu.r[14] == if instr / 0x100_0000 % 2 == 1 {
                    (pc + 4) % 0x1_0000_0000
                } else {
                    m.cpu.r[14] as int
                }
                &&& forall|j: int| 0 <= j < 14 ==> #[trigger] after.cpu.r[j] == m.cpu.r[j]
            }
        }),
{
    let kind = ArmInstruction::category(instr);
    assert(kind is Branch && bit(instr, 24) == (instr / 0x100_0000 % 2 == 1)) by {
        crate::encoding::lemma_word_digits(instr);
        crate::encoding::lemma_word_patterns(instr);
    }
    crate::arm_laws::lemma_condition(instr, m.cpu.psr);
    crate::encoding::lemma_status_digits(m.cpu.psr);
    assert(CpuState { halted: false, ..m.cpu } == m.cpu);
    assert(Machine { cpu: CpuState { halted: false, ..m.cpu }, ..m } == m);
    assert(m.arm_executed(kind, instr) == m.on_cpu(
        (
            m.cpu.branch(instr, instr / 0x100_0000 % 2 == 1),
            crate::cpu::Executed::Branched { extra_cycles: 0 },
        ),
    )) by {
        reveal(Machine::arm_executed);
        assert(kind == ArmInstruction::Branch { link: instr / 0x100_0000 % 2 == 1 }) by {
            crate::encoding::lemma_word_digits(instr);
            crate::encoding::lemma_word_patterns(instr);
        }
    }
    crate::encoding::lemma_wrapping(m.cpu.r[15], 8);
    crate::encoding::lemma_wrapping(m.cpu.r[15], 4);
    crate::thumb_flow_laws::lemma_wrapping_signed(
        m.cpu.r[15].wrapping_add(8),
        crate::alu::arm_branch_offset(instr),
    );
}

/// `BX` jumps to a register and lets bit 0 of it choose the state: to the even
/// address below in THUMB state, to the multiple of four below in ARM state.
pub proof fn law_arm_exchange(m: Machine, instr: u32)
    requires
        crate::arm_laws::runs_arm(m, instr),
        instr / 0x10 % 0x100_0000 == 0x12_FFF1,
    ensures
        ({
            let after = m.stepped().0;
            let target = crate::arm_memory_laws::arm_register(m.cpu, (instr % 16) as int);
            &&& after.bus == m.bus
            &&& after.cpu.r[15] == if target % 2 == 1 {
                target - 1
            } else {
                target - target % 4
            }
            &&& after.cpu.psr == if target % 2 == 1 {
                m.cpu.psr + 0x20
            } else {
                m.cpu.psr as int
            }
            &&& forall|j: int| 0 <= j < 15 ==> #[trigger] after.cpu.r[j] == m.cpu.r[j]
        }),
{
    assert(ArmInstruction::category(instr) is BranchExchange) by {
        crate::encoding::lemma_word_patterns(instr);
    }
    assert(m.arm_executed(ArmInstruction::category(instr), instr) == m.on_cpu(
        (
            m.cpu.branch_exchange(instr),
            crate::cpu::Executed::Branched { extra_cycles: 0 },
        ),
    )) by {
        reveal(Machine::arm_executed);
    }
    lemma_multiply_fields(instr);
    crate::encoding::lemma_status_digits(m.cpu.psr);
    crate::arm_memory_laws::lemma_arm_register(m.cpu, (instr % 16) as int);
    crate::arm_memory_laws::lemma_arm_jumps(m, instr);
}

/// Whether five bits name a mode of the processor.
pub open spec fn is_mode(m: int) -> bool {
    m == 0x10 || m == 0x11 || m == 0x12 || m == 0x13 || m == 0x17 || m == 0x1B || m == 0x1F
}

/// Where the saved status word of the mode with these bits is kept: `fiq`, `irq`,
/// `svc`, `abt` and `und` have one each, the other modes none.
pub open spec fn bank_of_mode(m: int) -> Option<int> {
    if m == 0x11 {
        Some(1)
    } else if m == 0x12 {
        Some(2)
    } else if m == 0x13 {
        Some(3)
    } else if m == 0x17 {
        Some(4)
    } else if m == 0x1B {
        Some(5)
    } else {
        None
    }
}

pub(crate) proof fn lemma_modes(psr: u32)
    requires
        is_mode((psr % 0x20) as int),
    ensures
        crate::psr::mode_of(psr).bits() == psr % 0x20,
        CpuMode::from_bits((psr % 0x20) as u8) == Some(crate::psr::mode_of(psr)),
        crate::psr::mode_of(psr).has_spsr() == bank_of_mode((psr % 0x20) as int) is Some,
        bank_of_mode((psr % 0x20) as int) is Some ==> crate::psr::mode_of(psr).bank_of()
            == bank_of_mode((psr % 0x20) as int)->0,
        (crate::psr::mode_of(psr) == CpuMode::User) == (psr % 0x20 == 0x10),
{
    crate::encoding::lemma_status_digits(psr);
    let m = (psr % 0x20) as u8;
    crate::psr::law_mode_bits_round_trip(CpuMode::User, m);
    crate::psr::law_mode_bits_round_trip(CpuMode::Fiq, m);
    crate::psr::law_mode_bits_round_trip(CpuMode::Irq, m);
    crate::psr::law_mode_bits_round_trip(CpuMode::Supervisor, m);
    crate::psr::law_mode_bits_round_trip(CpuMode::Abort, m);
    crate::psr::law_mode_bits_round_trip(CpuMode::Undefined, m);
    crate::psr::law_mode_bits_round_trip(CpuMode::System, m);
}

/// Whether `instr` moves a status word: a comparison that sets no flags, with an
/// immediate or a plain register.
pub open spec fn is_status_transfer(instr: u32) -> bool {
    &&& instr / 0x400_0000 % 4 == 0
    &&& instr / 0x10_0000 % 2 == 0
    &&& instr / 0x80_0000 % 4 == 2
    &&& instr / 0x200_0000 % 2 == 1 || instr / 0x10 % 16 == 0
}

#[verifier::spinoff_prover]
proof fn lemma_status_transfer(m: Machine, instr: u32)
    requires
        crate::arm_laws::runs_arm(m, instr),
        is_status_transfer(instr),
    ensures
        ArmInstruction::category(instr) is PsrTransfer,
        m.arm_executed(ArmInstruction::category(instr), instr) == m.on_cpu(
            m.cpu.psr_transfer(instr),
        ),
        !m.cpu.thumb(),
        bit(instr, 16) == (instr / 0x1_0000 % 2 == 1),
        bit(instr, 19) == (instr / 0x8_0000 % 2 == 1),
        bit(instr, 21) == (instr / 0x20_0000 % 2 == 1),
        bit(instr, 22) == (instr / 0x40_0000 % 2 == 1),
        bit(instr, 25) == (instr / 0x200_0000 % 2 == 1),
        crate::bits::nibble_of(instr, 12) == instr / 0x1000 % 16,
        crate::bits::nibble_of(instr, 0) == instr % 16,
{
    crate::encoding::lemma_word_digits(instr);
    crate::encoding::lemma_word_patterns(instr);
    crate::encoding::lemma_status_digits(m.cpu.psr);
    assert(instr / 0x200_0000 % 8 == 0 || instr / 0x200_0000 % 8 == 1);
    reveal(Machine::arm_executed);
}

/// `MRS` brings the status word, or with bit 22 the saved one of the mode; a
/// mode without one gives the current word.
pub proof fn law_status_is_read(m: Machine, instr: u32)
    requires
        crate::arm_laws::runs_arm(m, instr),
        is_status_transfer(instr),
        instr / 0x20_0000 % 2 == 0,
        instr / 0x1000 % 16 < 15,
        is_mode((m.cpu.psr % 0x20) as int),
    ensures
        ({
            let after = m.stepped().0;
            let rd = (instr / 0x1000 % 16) as int;
            &&& after.bus == m.bus
            &&& after.cpu.psr == m.cpu.psr
            &&& crate::arm_laws::moves_on(m.cpu, after.cpu, rd, 4)
            &&& after.cpu.r[rd] == match bank_of_mode((m.cpu.psr % 0x20) as int) {
                Some(bank) if instr / 0x40_0000 % 2 == 1 => m.cpu.spsr[bank],
                _ => m.cpu.psr,
            }
        }),
{
    lemma_status_transfer(m, instr);
    lemma_modes(m.cpu.psr);
    crate::arm_memory_laws::lemma_arm_continues(m, instr);
}

/// What `MSR` writes: eight bits of the instruction, turned, or a register.
pub open spec fn status_value(c: CpuState, instr: u32) -> u32 {
    if instr / 0x200_0000 % 2 == 1 {
        crate::cpu_arm::rotated_immediate(instr)
    } else {
        crate::arm_memory_laws::arm_register(c, (instr % 16) as int)
    }
}

/// A status word with the flags (bits 31-28) and the lowest byte replaced as
/// asked.
pub open spec fn replaced(old_word: u32, value: u32, flags: bool, control: bool) -> int {
    let top = if flags {
        value / 0x1000_0000
    } else {
        old_word / 0x1000_0000
    };
    let low = if control {
        value % 0x100
    } else {
        old_word % 0x100
    };
    top * 0x1000_0000 + old_word % 0x1000_0000 / 0x100 * 0x100 + low
}

proof fn lemma_replaced(old_word: u32, value: u32, instr: u32, flags_only: bool)
    requires
        bit(instr, 16) == (instr / 0x1_0000 % 2 == 1),
        bit(instr, 19) == (instr / 0x8_0000 % 2 == 1),
    ensures
        crate::cpu_arm::masked(old_word, value, crate::cpu_arm::msr_mask(instr, flags_only))
            == replaced(
            old_word,
            value,
            instr / 0x8_0000 % 2 == 1,
            instr / 0x1_0000 % 2 == 1 && !flags_only,
        ),
{
    crate::encoding::lemma_status_writes(old_word, value, 0);
    lemma_word_parts(old_word);
    lemma_word_parts(value);
}

proof fn lemma_word_parts(w: u32)
    ensures
        w == w / 0x1000_0000 * 0x1000_0000 + w % 0x1000_0000,
        w % 0x1000_0000 == w % 0x1000_0000 / 0x100 * 0x100 + w % 0x100,
        w / 0x100 * 0x100 == w / 0x1000_0000 * 0x1000_0000 + w % 0x1000_0000 / 0x100 * 0x100,
{
}

/// `MSR` to the saved status word of the mode replaces the flags with bit 19 and
/// the lowest byte with bit 16 of the instruction, and nothing else.
pub proof fn law_saved_status_is_written(m: Machine, instr: u32)
    requires
        crate::arm_laws::runs_arm(m, instr),
        is_status_transfer(instr),
        instr / 0x20_0000 % 2 == 1,
        instr / 0x40_0000 % 2 == 1,
        bank_of_mode((m.cpu.psr % 0x20) as int) is Some,
    ensures
        ({
            let after = m.stepped().0;
            let bank = bank_of_mode((m.cpu.psr % 0x20) as int)->0;
            &&& after.bus == m.bus
            &&& after.cpu.psr == m.cpu.psr
            &&& crate::arm_laws::moves_on(m.cpu, after.cpu, 15, 4)
            &&& after.cpu.spsr[bank] == replaced(
                m.cpu.spsr[bank],
                status_value(m.cpu, instr),
                instr / 0x8_0000 % 2 == 1,
                instr / 0x1_0000 % 2 == 1,
            )
            &&& forall|j: int|
                0 <= j < 6 && j != bank ==> #[trigger] after.cpu.spsr[j] == m.cpu.spsr[j]
        }),
{
    lemma_status_transfer(m, instr);
    lemma_modes(m.cpu.psr);
    crate::arm_memory_laws::lemma_arm_register(m.cpu, (instr % 16) as int);
    let bank = bank_of_mode((m.cpu.psr % 0x20) as int)->0;
    lemma_replaced(m.cpu.spsr[bank], status_value(m.cpu, instr), instr, false);
    crate::arm_memory_laws::lemma_arm_continues(m, instr);
}

/// `MSR` to the status word replaces the flags with bit 19 and, unless the mode
/// is User, the lowest byte with bit 16; when the mode stays, all registers do.
pub proof fn law_status_is_written(m: Machine, instr: u32)
    requires
        crate::arm_laws::runs_arm(m, instr),
        is_status_transfer(instr),
        instr / 0x20_0000 % 2 == 1,
        instr / 0x40_0000 % 2 == 0,
        is_mode((m.cpu.psr % 0x20) as int),
        instr / 0x1_0000 % 2 == 0 || m.cpu.psr % 0x20 == 0x10 || status_value(m.cpu, instr) % 0x40
            == m.cpu.psr % 0x40,
    ensures
        ({
            let after = m.stepped().0;
            &&& after.bus == m.bus
            &&& after.cpu.psr == replaced(
                m.cpu.psr,
                status_value(m.cpu, instr),
                instr / 0x8_0000 % 2 == 1,
                instr / 0x1_0000 % 2 == 1 && m.cpu.psr % 0x20 != 0x10,
            )
            &&& crate::arm_laws::moves_on(m.cpu, after.cpu, 15, 4)
        }),
{
    lemma_status_transfer(m, instr);
    lemma_modes(m.cpu.psr);
    crate::arm_memory_laws::lemma_arm_register(m.cpu, (instr % 16) as int);
    let user = m.cpu.psr % 0x20 == 0x10;
    let value = status_value(m.cpu, instr);
    lemma_replaced(m.cpu.psr, value, instr, user);
    let new = crate::cpu_arm::masked(m.cpu.psr, value, crate::cpu_arm::msr_mask(instr, user));
    crate::encoding::lemma_status_digits(m.cpu.psr);
    crate::encoding::lemma_status_digits(new);
    lemma_mode_stays(
        m.cpu.psr,
        value,
        instr / 0x8_0000 % 2 == 1,
        instr / 0x1_0000 % 2 == 1 && !user,
    );
    crate::arm_memory_laws::lemma_arm_continues(m, instr);
}

/// A status word whose six low bits stay keeps its mode and its state.
#[verifier::spinoff_prover]
#[verifier::rlimit(40)]
proof fn lemma_mode_stays(old_word: u32, value: u32, flags: bool, control: bool)
    requires
        !control || value % 0x40 == old_word % 0x40,
    ensures
        replaced(old_word, value, flags, control) % 0x20 == old_word % 0x20,
        replaced(old_word, value, flags, control) / 0x20 % 2 == old_word / 0x20 % 2,
{
    let new = replaced(old_word, value, flags, control);
    let top = if flags {
        (value / 0x1000_0000) as int
    } else {
        (old_word / 0x1000_0000) as int
    };
    let low = if control {
        (value % 0x100) as int
    } else {
        (old_word % 0x100) as int
    };
    let k = top * 0x40_0000 + old_word % 0x1000_0000 / 0x100 * 4 + low / 0x40;
    assert(low == 0x40 * (low / 0x40) + low % 0x40);
    assert(new == 0x40 * k + low % 0x40);
    assert(low % 0x40 == old_word % 0x40) by {
        vstd::arithmetic::div_mod::lemma_mod_mod(value as int, 0x40, 4);
        vstd::arithmetic::div_mod::lemma_mod_mod(old_word as int, 0x40, 4);
    }
    lemma_six_bits(new, k, low % 0x40);
    lemma_six_bits(old_word as int, (old_word / 0x40) as int, (old_word % 0x40) as int);
}

proof fn lemma_six_bits(whole: int, k: int, low: int)
    requires
        whole == 0x40 * k + low,
        0 <= low < 0x40,
    ensures
        whole % 0x20 == low % 0x20,
        whole / 0x20 % 2 == low / 0x20,
{
}

/// What entering an exception leaves: the mode, ARM state, interrupts masked and
/// the other bits of the status word as they were; the old word saved, the return
/// address in the link register and the program counter at the vector.
pub open spec fn is_exception(
    before: CpuState,
    after: CpuState,
    mode: int,
    vector: int,
    link: int,
) -> bool {
    &&& after.psr == before.psr / 0x100 * 0x100 + 0x80 + before.psr / 0x40 % 2 * 0x40 + mode
    &&& after.r[15] == vector
    &&& after.r[14] == link
    &&& bank_of_mode(mode) matches Some(bank) && after.spsr[bank] == before.psr
    &&& forall|j: int| 0 <= j < 8 ==> #[trigger] after.r[j] == before.r[j]
}

proof fn lemma_exception(c: CpuState, mode: CpuMode, vector: u32, link: u32)
    requires
        c.wf(),
        is_mode((c.psr % 0x20) as int),
        mode == CpuMode::Irq || mode == CpuMode::Supervisor || mode == CpuMode::Undefined,
    ensures
        is_exception(
            c,
            c.exception_at(mode, vector, link),
            mode.bits() as int,
            vector as int,
            link as int,
        ),
{
    lemma_modes(c.psr);
    crate::encoding::lemma_status_writes(c.psr, 0, mode.bits() as u32);
    crate::psr::law_with_mode(c.psr, mode);
    if c.mode() == mode {
        assert(c.psr / 0x20 * 0x20 + c.psr % 0x20 == c.psr);
    }
}

/// An interrupt that is enabled, requested and not masked is taken before the
/// next instruction: `irq` mode, vector 0x18, and a link register four bytes
/// behind the instruction to return to.
pub proof fn law_interrupt_is_taken(m: Machine)
    requires
        m.cpu.wf(),
        !m.cpu.halted || m.bus.irq.raised(),
        m.cpu.psr / 0x80 % 2 == 0,
        m.bus.irq.pending(),
        is_mode((m.cpu.psr % 0x20) as int),
    ensures
        is_exception(
            m.cpu,
            m.stepped().0.cpu,
            0x12,
            0x18,
            (m.cpu.r[15] + 4) % 0x1_0000_0000,
        ),
        m.stepped().0.bus == m.bus,
        m.stepped().1 == StepResult::Stepped,
        !m.stepped().0.cpu.halted,
{
    crate::encoding::lemma_status_digits(m.cpu.psr);
    crate::encoding::lemma_wrapping(m.cpu.r[15], 4);
    let awake = CpuState { halted: false, ..m.cpu };
    lemma_exception(awake, CpuMode::Irq, 0x18, m.cpu.r[15].wrapping_add(4));
}

/// With a BIOS, `SWI` enters `svc` mode at vector 8, and an undefined instruction
/// enters `und` mode at vector 4; both return to the next instruction.
pub proof fn law_arm_exceptions(m: Machine, instr: u32)
    requires
        crate::arm_laws::runs_arm(m, instr),
        is_mode((m.cpu.psr % 0x20) as int),
        instr / 0x100_0000 % 16 == 15 && m.bus.bios_loaded || instr / 0x200_0000 % 8 == 3 && instr
            / 0x10 % 2 == 1,
    ensures
        ({
            let after = m.stepped().0;
            let link = (m.cpu.r[15] + 4) % 0x1_0000_0000;
            &&& after.bus == m.bus
            &&& instr / 0x100_0000 % 16 == 15 ==> is_exception(m.cpu, after.cpu, 0x13, 8, link)
            &&& instr / 0x100_0000 % 16 != 15 ==> is_exception(m.cpu, after.cpu, 0x1B, 4, link)
        }),
{
    let kind = ArmInstruction::category(instr);
    assert(kind == if instr / 0x100_0000 % 16 == 15 {
        ArmInstruction::SoftwareInterrupt
    } else {
        ArmInstruction::Undefined
    }) by {
        crate::encoding::lemma_word_digits(instr);
        crate::encoding::lemma_word_patterns(instr);
        assert(instr / 0x100_0000 % 16 == 15 ==> instr / 0x200_0000 % 8 == 7 && instr / 0x100_0000
            % 2 == 1);
    }
    let jump = crate::cpu::Executed::Branched { extra_cycles: 0 };
    assert(m.arm_executed(kind, instr) == m.on_cpu(
        (
            if instr / 0x100_0000 % 16 == 15 {
                m.cpu.exception(CpuMode::Supervisor, 8)
            } else {
                m.cpu.exception(CpuMode::Undefined, 4)
            },
            jump,
        ),
    )) by {
        reveal(Machine::arm_executed);
    }
    crate::encoding::lemma_status_digits(m.cpu.psr);
    crate::encoding::lemma_wrapping(m.cpu.r[15], 4);
    lemma_exception(m.cpu, CpuMode::Supervisor, 8, m.cpu.r[15].wrapping_add(4));
    lemma_exception(m.cpu, CpuMode::Undefined, 4, m.cpu.r[15].wrapping_add(4));
    crate::arm_memory_laws::lemma_arm_jumps(m, instr);
}

} // verus!

//! Decoding of ARM (32-bit) instructions.
//!
//! Decoding has two steps. The top four bits of every instruction are a
//! condition ([`Condition`]), which is checked against the flags first. Only
//! when it holds is the rest of the word classified ([`ArmInstruction`]). The
//! formats overlap in their high bits, so the classification is ordered: the
//! formats with a fixed pattern come before the main categories.

use vstd::prelude::*;

use crate::bits::bit;
use crate::psr::Cpsr;

verus! {

/// The sixteen condition codes, in the order of their 4-bit encoding.
#[derive(Debug, Clone, Copy, PartialEq, Eq, Structural)]
pub enum Condition {
    /// Equal: Z set.
    Eq,
    /// Not equal: Z clear.
    Ne,
    /// Carry set, or unsigned higher or same.
    Cs,
    /// Carry clear, or unsigned lower.
    Cc,
    /// Negative.
    Mi,
    /// Positive or zero.
    Pl,
    /// Overflow.
    Vs,
    /// No overflow.
    Vc,
    /// Unsigned higher: C set and Z clear.
    Hi,
    /// Unsigned lower or same: C clear or Z set.
    Ls,
    /// Signed greater or equal: N equals V.
    Ge,
    /// Signed less: N differs from V.
    Lt,
    /// Signed greater: Z clear and N equals V.
    Gt,
    /// Signed less or equal: Z set or N differs from V.
    Le,
    /// Always.
    Al,
    /// Never (reserved).
    Nv,
}

impl Condition {
    /// The condition whose 4-bit code is `code`.
    pub open spec fn with_code(code: u32) -> Condition {
        match code {
            0x0 => Condition::Eq,
            0x1 => Condition::Ne,
            0x2 => Condition::Cs,
            0x3 => Condition::Cc,
            0x4 => Condition::Mi,
            0x5 => Condition::Pl,
            0x6 => Condition::Vs,
            0x7 => Condition::Vc,
            0x8 => Condition::Hi,
            0x9 => Condition::Ls,
            0xA => Condition::Ge,
            0xB => Condition::Lt,
            0xC => Condition::Gt,
            0xD => Condition::Le,
            0xE => Condition::Al,
            _ => Condition::Nv,
        }
    }

    /// The condition in the top four bits of an instruction.
    #[verifier::allow_in_spec]
    pub fn from_instr(instr: u32) -> Condition
        returns
            Condition::with_code((instr >> 28) & 0xF),
    {
        match (instr >> 28) & 0xF {
            0x0 => Condition::Eq,
            0x1 => Condition::Ne,
            0x2 => Condition::Cs,
            0x3 => Condition::Cc,
            0x4 => Condition::Mi,
            0x5 => Condition::Pl,
            0x6 => Condition::Vs,
            0x7 => Condition::Vc,
            0x8 => Condition::Hi,
            0x9 => Condition::Ls,
            0xA => Condition::Ge,
            0xB => Condition::Lt,
            0xC => Condition::Gt,
            0xD => Condition::Le,
            0xE => Condition::Al,
            _ => Condition::Nv,
        }
    }

    /// Whether the condition holds for the flags N, Z, C, V.
    pub open spec fn holds(self, n: bool, z: bool, c: bool, v: bool) -> bool {
        match self {
            Condition::Eq => z,
            Condition::Ne => !z,
            Condition::Cs => c,
            Condition::Cc => !c,
            Condition::Mi => n,
            Condition::Pl => !n,
            Condition::Vs => v,
            Condition::Vc => !v,
            Condition::Hi => c && !z,
            Condition::Ls => !c || z,
            Condition::Ge => n == v,
            Condition::Lt => n != v,
            Condition::Gt => !z && n == v,
            Condition::Le => z || n != v,
            Condition::Al => true,
            Condition::Nv => false,
        }
    }

    /// Whether the condition holds in the status word `psr`.
    pub open spec fn holds_in(self, psr: u32) -> bool {
        self.holds(
            psr & crate::psr::N != 0,
            psr & crate::psr::Z != 0,
            psr & crate::psr::C != 0,
            psr & crate::psr::V != 0,
        )
    }

    /// Whether the condition holds for the flags of `cpsr`.
    pub fn passes(self, cpsr: Cpsr) -> (r: bool)
        ensures
            r == self.holds_in(cpsr@),
    {
        let n: bool = cpsr.n();
        let z: bool = cpsr.z();
        let c: bool = cpsr.c();
        let v: bool = cpsr.v();
        match self {
            Condition::Eq => z,
            Condition::Ne => !z,
            Condition::Cs => c,
            Condition::Cc => !c,
            Condition::Mi => n,
            Condition::Pl => !n,
            Condition::Vs => v,
            Condition::Vc => !v,
            Condition::Hi => c && !z,
            Condition::Ls => !c || z,
            Condition::Ge => n == v,
            Condition::Lt => n != v,
            Condition::Gt => !z && (n == v),
            Condition::Le => z || (n != v),
            Condition::Al => true,
            Condition::Nv => false,
        }
    }

    /// The condition that holds exactly when this one does not.
    pub open spec fn opposite(self) -> Condition {
        match self {
            Condition::Eq => Condition::Ne,
            Condition::Ne => Condition::Eq,
            Condition::Cs => Condition::Cc,
            Condition::Cc => Condition::Cs,
            Condition::Mi => Condition::Pl,
            Condition::Pl => Condition::Mi,
            Condition::Vs => Condition::Vc,
            Condition::Vc => Condition::Vs,
            Condition::Hi => Condition::Ls,
            Condition::Ls => Condition::Hi,
            Condition::Ge => Condition::Lt,
            Condition::Lt => Condition::Ge,
            Condition::Gt => Condition::Le,
            Condition::Le => Condition::Gt,
            Condition::Al => Condition::Nv,
            Condition::Nv => Condition::Al,
        }
    }
}

/// The condition codes come in complementary pairs: whatever the status word,
/// exactly one of a condition and its opposite holds.
pub proof fn law_conditions_are_complementary(condition: Condition, psr: u32)
    ensures
        condition.holds_in(psr) != condition.opposite().holds_in(psr),
        condition.opposite().opposite() == condition,
{
}

/// Category of an ARM instruction.
#[derive(Debug, Clone, Copy, PartialEq, Eq, Structural)]
pub enum ArmInstruction {
    /// `ADD`, `SUB`, `MOV`, `AND`, `ORR`, `CMP` and the like.
    DataProcessing,
    /// `MRS` and `MSR`.
    PsrTransfer,
    /// `MUL` and `MLA`.
    Multiply,
    /// `UMULL`, `UMLAL`, `SMULL` and `SMLAL`.
    MultiplyLong,
    /// `SWP` and `SWPB`.
    SingleDataSwap,
    /// `BX`.
    BranchExchange,
    /// `LDRH`, `STRH`, `LDRSB` and `LDRSH`.
    HalfwordTransfer,
    /// `LDR` and `STR`.
    SingleDataTransfer,
    /// `LDM` and `STM`.
    BlockDataTransfer,
    /// `B`, or `BL` when `link` is set.
    Branch {
        /// Whether the return address goes to `LR`.
        link: bool,
    },
    /// Coprocessor operations; the console has no coprocessor.
    Coprocessor,
    /// `SWI`.
    SoftwareInterrupt,
    /// No valid instruction.
    Undefined,
}

impl ArmInstruction {
    /// The category of the instruction word `instr`, whatever its condition.
    pub open spec fn category(instr: u32) -> ArmInstruction {
        let op = (instr >> 25) & 0x7;
        if instr & 0x0FFF_FFF0 == 0x012F_FF10 {
            ArmInstruction::BranchExchange
        } else if instr & 0x0FC0_00F0 == 0x0000_0090 {
            ArmInstruction::Multiply
        } else if instr & 0x0F80_00F0 == 0x0080_0090 {
            ArmInstruction::MultiplyLong
        } else if instr & 0x0FB0_0FF0 == 0x0100_0090 {
            ArmInstruction::SingleDataSwap
        } else if op == 0 && instr & 0x90 == 0x90 && instr & 0x60 != 0 {
            ArmInstruction::HalfwordTransfer
        } else if op == 0 || op == 1 {
            // A comparison that sets no flags encodes a PSR transfer.
            if !bit(instr, 20) && (instr >> 21) & 0xC == 0x8 {
                ArmInstruction::PsrTransfer
            } else {
                ArmInstruction::DataProcessing
            }
        } else if op == 2 {
            ArmInstruction::SingleDataTransfer
        } else if op == 3 {
            if bit(instr, 4) {
                ArmInstruction::Undefined
            } else {
                ArmInstruction::SingleDataTransfer
            }
        } else if op == 4 {
            ArmInstruction::BlockDataTransfer
        } else if op == 5 {
            ArmInstruction::Branch { link: bit(instr, 24) }
        } else if op == 7 && bit(instr, 24) {
            ArmInstruction::SoftwareInterrupt
        } else {
            ArmInstruction::Coprocessor
        }
    }

    /// Classifies an instruction word, whatever its condition.
    #[verifier::allow_in_spec]
    pub fn decode(instr: u32) -> ArmInstruction
        returns
            ArmInstruction::category(instr),
    {
        let op: u32 = (instr >> 25) & 0x7;
        assert((instr >> 25) & 0x7u32 <= 7) by (bit_vector);
        if (instr & 0x0FFF_FFF0) == 0x012F_FF10 {
            return ArmInstruction::BranchExchange;
        }
        if (instr & 0x0FC0_00F0) == 0x0000_0090 {
            return ArmInstruction::Multiply;
        }
        if (instr & 0x0F80_00F0) == 0x0080_0090 {
            return ArmInstruction::MultiplyLong;
        }
        if (instr & 0x0FB0_0FF0) == 0x0100_0090 {
            return ArmInstruction::SingleDataSwap;
        }
        if op == 0 && (instr & 0x90) == 0x90 && (instr & 0x60) != 0 {
            return ArmInstruction::HalfwordTransfer;
        }
        match op {
            0 | 1 => {
                if !bit(instr, 20) && (instr >> 21) & 0xC == 0x8 {
                    ArmInstruction::PsrTransfer
                } else {
                    ArmInstruction::DataProcessing
                }
            },
            2 => ArmInstruction::SingleDataTransfer,
            3 => {
                if bit(instr, 4) {
                    ArmInstruction::Undefined
                } else {
                    ArmInstruction::SingleDataTransfer
                }
            },
            4 => ArmInstruction::BlockDataTransfer,
            5 => ArmInstruction::Branch { link: bit(instr, 24) },
            6 => ArmInstruction::Coprocessor,
            _ => {
                if bit(instr, 24) {
                    ArmInstruction::SoftwareInterrupt
                } else {
                    ArmInstruction::Coprocessor
                }
            },
        }
    }

    /// Human-readable name of the category.
    #[verifier::allow_in_spec]
    pub fn describe(&self) -> &'static str
        returns
            (match *self {
                ArmInstruction::Branch { link: false } => "Salto (B / Branch)",
                ArmInstruction::Branch { link: true } => "Salto con enlace (BL / Branch with Link)",
                ArmInstruction::BranchExchange => "Salto e intercambio de estado (BX)",
                ArmInstruction::DataProcessing => "Procesamiento de datos (ADD, SUB, MOV, ...)",
                ArmInstruction::PsrTransfer => "Transferencia de PSR (MRS / MSR)",
                ArmInstruction::Multiply => "Multiplicación (MUL / MLA)",
                ArmInstruction::MultiplyLong => "Multiplicación larga (UMULL / SMULL / ...)",
                ArmInstruction::SingleDataSwap => "Intercambio con memoria (SWP)",
                ArmInstruction::HalfwordTransfer =>
                    "Transferencia de media palabra/byte con signo (LDRH / STRH / ...)",
                ArmInstruction::SingleDataTransfer => "Transferencia de datos (LDR / STR)",
                ArmInstruction::BlockDataTransfer => "Transferencia en bloque (LDM / STM)",
                ArmInstruction::Coprocessor => "Operación de coprocesador (sin uso en GBA)",
                ArmInstruction::SoftwareInterrupt => "Interrupción software (SWI / llamada a BIOS)",
                ArmInstruction::Undefined => "Instrucción indefinida",
            }),
    {
        match self {
            ArmInstruction::Branch { link: false } => "Salto (B / Branch)",
            ArmInstruction::Branch { link: true } => "Salto con enlace (BL / Branch with Link)",
            ArmInstruction::BranchExchange => "Salto e intercambio de estado (BX)",
            ArmInstruction::DataProcessing => "Procesamiento de datos (ADD, SUB, MOV, ...)",
            ArmInstruction::PsrTransfer => "Transferencia de PSR (MRS / MSR)",
            ArmInstruction::Multiply => "Multiplicación (MUL / MLA)",
            ArmInstruction::MultiplyLong => "Multiplicación larga (UMULL / SMULL / ...)",
            ArmInstruction::SingleDataSwap => "Intercambio con memoria (SWP)",
            ArmInstruction::HalfwordTransfer =>
                "Transferencia de media palabra/byte con signo (LDRH / STRH / ...)",
            ArmInstruction::SingleDataTransfer => "Transferencia de datos (LDR / STR)",
            ArmInstruction::BlockDataTransfer => "Transferencia en bloque (LDM / STM)",
            ArmInstruction::Coprocessor => "Operación de coprocesador (sin uso en GBA)",
            ArmInstruction::SoftwareInterrupt => "Interrupción software (SWI / llamada a BIOS)",
            ArmInstruction::Undefined => "Instrucción indefinida",
        }
    }
}

/// Result of the two-step decoding.
#[derive(Debug, Clone, Copy, PartialEq, Eq, Structural)]
pub enum Decoded {
    /// The condition does not hold: the instruction only lets time pass.
    ConditionFailed(Condition),
    /// The condition holds and the instruction is of this category.
    Execute(ArmInstruction),
}

/// What `instr` decodes to under the status word `psr`.
pub open spec fn decoded(instr: u32, psr: u32) -> Decoded {
    if Condition::from_instr(instr).holds_in(psr) {
        Decoded::Execute(ArmInstruction::category(instr))
    } else {
        Decoded::ConditionFailed(Condition::from_instr(instr))
    }
}

/// Decodes `instr`: the condition against `cpsr` first, the category only if
/// the condition holds.
pub fn decode(instr: u32, cpsr: Cpsr) -> (r: Decoded)
    ensures
        r == decoded(instr, cpsr@),
{
    let cond: Condition = Condition::from_instr(instr);
    if cond.passes(cpsr) {
        Decoded::Execute(ArmInstruction::decode(instr))
    } else {
        Decoded::ConditionFailed(cond)
    }
}

} // verus!

//! Decoding of THUMB (16-bit) instructions: the nineteen formats, told apart by
//! the top three bits and refined by lower ones. There is no condition field,
//! so there is no first step as in ARM decoding.

use vstd::prelude::*;

use crate::bits::bit16;

verus! {

/// Format of a THUMB instruction.
#[derive(Debug, Clone, Copy, PartialEq, Eq, Structural)]
pub enum ThumbInstruction {
    /// Shift by an immediate: `LSL`, `LSR`, `ASR`.
    MoveShifted,
    /// `ADD`/`SUB` of a register or a 3-bit immediate.
    AddSubtract,
    /// `MOV`/`CMP`/`ADD`/`SUB` with an 8-bit immediate.
    MoveCompareAddSubImm,
    /// Register-to-register ALU operation.
    AluOperation,
    /// Operation on high registers, and `BX`.
    HiRegisterOpBx,
    /// `LDR` relative to `PC`.
    PcRelativeLoad,
    /// Load or store with a register offset.
    LoadStoreRegOffset,
    /// Load or store of a signed byte or a halfword.
    LoadStoreSignExtended,
    /// Load or store with an immediate offset.
    LoadStoreImmOffset,
    /// `LDRH`/`STRH`.
    LoadStoreHalfword,
    /// Load or store relative to `SP`.
    SpRelativeLoadStore,
    /// `ADD Rd, PC/SP, #imm`.
    LoadAddress,
    /// `ADD SP, #imm`.
    AddOffsetToSp,
    /// `PUSH`/`POP`.
    PushPop,
    /// `LDMIA`/`STMIA`.
    MultipleLoadStore,
    /// `B<cond>`, the only conditional instruction.
    ConditionalBranch,
    /// `SWI`.
    SoftwareInterrupt,
    /// `B`.
    UnconditionalBranch,
    /// `BL`, in two halfwords.
    LongBranchWithLink,
    /// No valid instruction.
    Undefined,
}

impl ThumbInstruction {
    /// The format of the instruction `instr`.
    pub open spec fn format(instr: u16) -> ThumbInstruction {
        let top = instr >> 13;
        if top == 0 {
            if (instr >> 11) & 3 == 3 {
                ThumbInstruction::AddSubtract
            } else {
                ThumbInstruction::MoveShifted
            }
        } else if top == 1 {
            ThumbInstruction::MoveCompareAddSubImm
        } else if top == 2 {
            if bit16(instr, 12) {
                if bit16(instr, 9) {
                    ThumbInstruction::LoadStoreSignExtended
                } else {
                    ThumbInstruction::LoadStoreRegOffset
                }
            } else if bit16(instr, 11) {
                ThumbInstruction::PcRelativeLoad
            } else if bit16(instr, 10) {
                ThumbInstruction::HiRegisterOpBx
            } else {
                ThumbInstruction::AluOperation
            }
        } else if top == 3 {
            ThumbInstruction::LoadStoreImmOffset
        } else if top == 4 {
            if bit16(instr, 12) {
                ThumbInstruction::SpRelativeLoadStore
            } else {
                ThumbInstruction::LoadStoreHalfword
            }
        } else if top == 5 {
            if !bit16(instr, 12) {
                ThumbInstruction::LoadAddress
            } else if (instr >> 8) & 0xF == 0 {
                ThumbInstruction::AddOffsetToSp
            } else if (instr >> 9) & 3 == 2 {
                ThumbInstruction::PushPop
            } else {
                ThumbInstruction::Undefined
            }
        } else if top == 6 {
            if !bit16(instr, 12) {
                ThumbInstruction::MultipleLoadStore
            } else if (instr >> 8) & 0xF == 0xF {
                ThumbInstruction::SoftwareInterrupt
            } else if (instr >> 8) & 0xF == 0xE {
                ThumbInstruction::Undefined
            } else {
                ThumbInstruction::ConditionalBranch
            }
        } else {
            if (instr >> 11) & 3 == 0 {
                ThumbInstruction::UnconditionalBranch
            } else if (instr >> 11) & 3 == 1 {
                ThumbInstruction::Undefined
            } else {
                ThumbInstruction::LongBranchWithLink
            }
        }
    }

    /// Classifies a THUMB instruction.
    #[verifier::allow_in_spec]
    pub fn decode(instr: u16) -> ThumbInstruction
        returns
            ThumbInstruction::format(instr),
    {
        match instr >> 13 {
            0 => {
                if (instr >> 11) & 3 == 3 {
                    ThumbInstruction::AddSubtract
                } else {
                    ThumbInstruction::MoveShifted
                }
            },
            1 => ThumbInstruction::MoveCompareAddSubImm,
            2 => {
                if bit16(instr, 12) {
                    if bit16(instr, 9) {
                        ThumbInstruction::LoadStoreSignExtended
                    } else {
                        ThumbInstruction::LoadStoreRegOffset
                    }
                } else if bit16(instr, 11) {
                    ThumbInstruction::PcRelativeLoad
                } else if bit16(instr, 10) {
                    ThumbInstruction::HiRegisterOpBx
                } else {
                    ThumbInstruction::AluOperation
                }
            },
            3 => ThumbInstruction::LoadStoreImmOffset,
            4 => {
                if bit16(instr, 12) {
                    ThumbInstruction::SpRelativeLoadStore
                } else {
                    ThumbInstruction::LoadStoreHalfword
                }
            },
            5 => {
                if !bit16(instr, 12) {
                    ThumbInstruction::LoadAddress
                } else if (instr >> 8) & 0xF == 0 {
                    ThumbInstruction::AddOffsetToSp
                } else if (instr >> 9) & 3 == 2 {
                    ThumbInstruction::PushPop
                } else {
                    ThumbInstruction::Undefined
                }
            },
            6 => {
                if !bit16(instr, 12) {
                    ThumbInstruction::MultipleLoadStore
                } else {
                    match (instr >> 8) & 0xF {
                        0xF => ThumbInstruction::SoftwareInterrupt,
                        0xE => ThumbInstruction::Undefined,
                        _ => ThumbInstruction::ConditionalBranch,
                    }
                }
            },
            _ => match (instr >> 11) & 3 {
                0 => ThumbInstruction::UnconditionalBranch,
                1 => ThumbInstruction::Undefined,
                _ => ThumbInstruction::LongBranchWithLink,
            },
        }
    }

    /// Human-readable name of the format.
    #[verifier::allow_in_spec]
    pub fn describe(&self) -> &'static str
        returns
            (match *self {
                ThumbInstruction::MoveShifted =>
                    "Desplazamiento de registro (formato 1 THUMB: LSL/LSR/ASR)",
                ThumbInstruction::AddSubtract => "Suma/resta (formato 2 THUMB: ADD/SUB)",
                ThumbInstruction::MoveCompareAddSubImm =>
                    "MOV/CMP/ADD/SUB con inmediato (formato 3 THUMB)",
                ThumbInstruction::AluOperation => "Operación ALU (formato 4 THUMB)",
                ThumbInstruction::HiRegisterOpBx => "Registros altos / BX (formato 5 THUMB)",
                ThumbInstruction::PcRelativeLoad => "Carga relativa al PC (formato 6 THUMB)",
                ThumbInstruction::LoadStoreRegOffset =>
                    "Carga/almacén con offset de registro (formato 7 THUMB)",
                ThumbInstruction::LoadStoreSignExtended =>
                    "Carga/almacén con signo (formato 8 THUMB)",
                ThumbInstruction::LoadStoreImmOffset =>
                    "Carga/almacén con offset inmediato (formato 9 THUMB)",
                ThumbInstruction::LoadStoreHalfword =>
                    "Carga/almacén de media palabra (formato 10 THUMB)",
                ThumbInstruction::SpRelativeLoadStore =>
                    "Carga/almacén relativo al SP (formato 11 THUMB)",
                ThumbInstruction::LoadAddress => "Cálculo de dirección (formato 12 THUMB)",
                ThumbInstruction::AddOffsetToSp => "Ajuste del SP (formato 13 THUMB)",
                ThumbInstruction::PushPop => "PUSH/POP de registros (formato 14 THUMB)",
                ThumbInstruction::MultipleLoadStore =>
                    "Carga/almacén múltiple (formato 15 THUMB)",
                ThumbInstruction::ConditionalBranch =>
                    "Salto condicional (formato 16 THUMB: B<cond>)",
                ThumbInstruction::SoftwareInterrupt =>
                    "Interrupción software (formato 17 THUMB: SWI)",
                ThumbInstruction::UnconditionalBranch =>
                    "Salto incondicional (formato 18 THUMB: B)",
                ThumbInstruction::LongBranchWithLink =>
                    "Salto largo con enlace (formato 19 THUMB: BL)",
                ThumbInstruction::Undefined => "Instrucción THUMB indefinida",
            }),
    {
        match self {
            ThumbInstruction::MoveShifted =>
                "Desplazamiento de registro (formato 1 THUMB: LSL/LSR/ASR)",
            ThumbInstruction::AddSubtract => "Suma/resta (formato 2 THUMB: ADD/SUB)",
            ThumbInstruction::MoveCompareAddSubImm =>
                "MOV/CMP/ADD/SUB con inmediato (formato 3 THUMB)",
            ThumbInstruction::AluOperation => "Operación ALU (formato 4 THUMB)",
            ThumbInstruction::HiRegisterOpBx => "Registros altos / BX (formato 5 THUMB)",
            ThumbInstruction::PcRelativeLoad => "Carga relativa al PC (formato 6 THUMB)",
            ThumbInstruction::LoadStoreRegOffset =>
                "Carga/almacén con offset de registro (formato 7 THUMB)",
            ThumbInstruction::LoadStoreSignExtended => "Carga/almacén con signo (formato 8 THUMB)",
            ThumbInstruction::LoadStoreImmOffset =>
                "Carga/almacén con offset inmediato (formato 9 THUMB)",
            ThumbInstruction::LoadStoreHalfword =>
                "Carga/almacén de media palabra (formato 10 THUMB)",
            ThumbInstruction::SpRelativeLoadStore =>
                "Carga/almacén relativo al SP (formato 11 THUMB)",
            ThumbInstruction::LoadAddress => "Cálculo de dirección (formato 12 THUMB)",
            ThumbInstruction::AddOffsetToSp => "Ajuste del SP (formato 13 THUMB)",
            ThumbInstruction::PushPop => "PUSH/POP de registros (formato 14 THUMB)",
            ThumbInstruction::MultipleLoadStore => "Carga/almacén múltiple (formato 15 THUMB)",
            ThumbInstruction::ConditionalBranch =>
                "Salto condicional (formato 16 THUMB: B<cond>)",
            ThumbInstruction::SoftwareInterrupt =>
                "Interrupción software (formato 17 THUMB: SWI)",
            ThumbInstruction::UnconditionalBranch => "Salto incondicional (formato 18 THUMB: B)",
            ThumbInstruction::LongBranchWithLink =>
                "Salto largo con enlace (formato 19 THUMB: BL)",
            ThumbInstruction::Undefined => "Instrucción THUMB indefinida",
        }
    }
}

} // verus!

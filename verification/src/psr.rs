//! The program status register: condition flags, control bits and the
//! processor mode.
//!
//! ```text
//!  31 30 29 28           7 6 5 4   0
//!  [N][Z][C][V]   ...    [I][F][T][ M[4:0] ]
//! ```

use vstd::prelude::*;

verus! {

/// Negative flag.
pub const N: u32 = 0x8000_0000;

/// Zero flag.
pub const Z: u32 = 0x4000_0000;

/// Carry flag.
pub const C: u32 = 0x2000_0000;

/// Signed overflow flag.
pub const V: u32 = 0x1000_0000;

/// IRQ disable bit.
pub const I: u32 = 0x80;

/// FIQ disable bit.
pub const F: u32 = 0x40;

/// THUMB state bit.
pub const T: u32 = 0x20;

/// The five mode bits `M[4:0]`.
pub const MODE_MASK: u32 = 0x1F;

/// The bits that the ARM7TDMI implements: `NZCV` and the control byte. The
/// others read as zero and `MSR` cannot write them.
pub const PSR_VALID: u32 = 0xF000_00FF;

/// How many register banks there are: User and System share one, and FIQ, IRQ,
/// Supervisor, Abort and Undefined have one each.
pub const NUM_BANKS: usize = 6;

/// Operating modes of the ARM7TDMI.
#[derive(Debug, Clone, Copy, PartialEq, Eq, Structural)]
pub enum CpuMode {
    /// Unprivileged mode.
    User,
    /// Fast interrupt; banks `r8`-`r12` besides `r13`/`r14`.
    Fiq,
    /// Interrupt request.
    Irq,
    /// Mode of `SWI` and of reset.
    Supervisor,
    /// Memory access faults.
    Abort,
    /// Undefined instructions.
    Undefined,
    /// Privileged mode on the registers of User.
    System,
}

/// The mode that the five bits `m` name, if they name one.
pub open spec fn mode_named(m: u8) -> Option<CpuMode> {
    match m {
        0x10 => Some(CpuMode::User),
        0x11 => Some(CpuMode::Fiq),
        0x12 => Some(CpuMode::Irq),
        0x13 => Some(CpuMode::Supervisor),
        0x17 => Some(CpuMode::Abort),
        0x1B => Some(CpuMode::Undefined),
        0x1F => Some(CpuMode::System),
        _ => None,
    }
}

impl CpuMode {
    /// Reads the low five bits of `bits` as a mode; `None` when they name none.
    #[verifier::allow_in_spec]
    pub fn from_bits(bits: u8) -> Option<CpuMode>
        returns
            mode_named(bits & 0x1F),
    {
        match bits & 0x1F {
            0x10 => Some(CpuMode::User),
            0x11 => Some(CpuMode::Fiq),
            0x12 => Some(CpuMode::Irq),
            0x13 => Some(CpuMode::Supervisor),
            0x17 => Some(CpuMode::Abort),
            0x1B => Some(CpuMode::Undefined),
            0x1F => Some(CpuMode::System),
            _ => None,
        }
    }

    /// The bits `M[4:0]` of this mode.
    #[verifier::allow_in_spec]
    pub fn bits(self) -> u8
        returns
            (match self {
                CpuMode::User => 0x10u8,
                CpuMode::Fiq => 0x11u8,
                CpuMode::Irq => 0x12u8,
                CpuMode::Supervisor => 0x13u8,
                CpuMode::Abort => 0x17u8,
                CpuMode::Undefined => 0x1Bu8,
                CpuMode::System => 0x1Fu8,
            }),
    {
        match self {
            CpuMode::User => 0x10,
            CpuMode::Fiq => 0x11,
            CpuMode::Irq => 0x12,
            CpuMode::Supervisor => 0x13,
            CpuMode::Abort => 0x17,
            CpuMode::Undefined => 0x1B,
            CpuMode::System => 0x1F,
        }
    }

    /// Index of the bank that holds `r13`, `r14` and `SPSR` of this mode.
    pub open spec fn bank_of(self) -> int {
        match self {
            CpuMode::User => 0,
            CpuMode::System => 0,
            CpuMode::Fiq => 1,
            CpuMode::Irq => 2,
            CpuMode::Supervisor => 3,
            CpuMode::Abort => 4,
            CpuMode::Undefined => 5,
        }
    }

    /// Index of the bank that holds `r13`, `r14` and `SPSR` of this mode.
    pub fn bank(self) -> (r: usize)
        ensures
            r == self.bank_of(),
            r < NUM_BANKS,
    {
        match self {
            CpuMode::User => 0,
            CpuMode::System => 0,
            CpuMode::Fiq => 1,
            CpuMode::Irq => 2,
            CpuMode::Supervisor => 3,
            CpuMode::Abort => 4,
            CpuMode::Undefined => 5,
        }
    }

    /// Whether this mode has an `SPSR`: the exception modes do, User and System
    /// do not.
    #[verifier::allow_in_spec]
    pub fn has_spsr(self) -> bool
        returns
            self != CpuMode::User && self != CpuMode::System,
    {
        !matches!(self, CpuMode::User | CpuMode::System)
    }
}

/// `bits` with every bit of `mask` set to `value`.
pub open spec fn with_flag(bits: u32, mask: u32, value: bool) -> u32 {
    if value {
        bits | mask
    } else {
        bits & !mask
    }
}

/// The mode of a status word; a pattern that names no mode counts as System.
pub open spec fn mode_of(bits: u32) -> CpuMode {
    match CpuMode::from_bits((bits & MODE_MASK) as u8) {
        Some(mode) => mode,
        None => CpuMode::System,
    }
}

/// `bits` with the mode field replaced by that of `mode`.
pub open spec fn with_mode(bits: u32, mode: CpuMode) -> u32 {
    (bits & !MODE_MASK) | (mode.bits() as u32 & MODE_MASK)
}

/// The status word after an ALU result: N and Z from the result, C as given,
/// V as given or kept when there is none.
pub open spec fn with_alu_flags(bits: u32, result: u32, carry: bool, overflow: Option<bool>) -> u32 {
    let nz = with_flag(with_flag(bits, N, crate::bits::bit(result, 31)), Z, result == 0);
    let nzc = with_flag(nz, C, carry);
    match overflow {
        Some(v) => with_flag(nzc, V, v),
        None => nzc,
    }
}

/// A status register, CPSR or SPSR.
#[derive(Clone, Copy, PartialEq, Eq, Debug, Structural)]
pub struct Cpsr {
    bits: u32,
}

impl View for Cpsr {
    type V = u32;

    closed spec fn view(&self) -> u32 {
        self.bits
    }
}

impl Cpsr {
    /// A status register with these 32 bits.
    pub fn from_bits(bits: u32) -> (r: Self)
        ensures
            r@ == bits,
    {
        Cpsr { bits }
    }

    /// The 32 raw bits.
    #[verifier::allow_in_spec]
    pub fn bits(self) -> u32
        returns
            self@,
    {
        self.bits
    }

    /// Sets or clears the bits of `mask`.
    fn set_flag(&mut self, mask: u32, value: bool)
        ensures
            final(self)@ == with_flag(old(self)@, mask, value),
    {
        if value {
            self.bits = self.bits | mask;
        } else {
            self.bits = self.bits & !mask;
        }
    }

    /// Negative flag.
    #[verifier::allow_in_spec]
    pub fn n(self) -> bool
        returns
            self@ & N != 0,
    {
        self.bits & N != 0
    }

    /// Zero flag.
    #[verifier::allow_in_spec]
    pub fn z(self) -> bool
        returns
            self@ & Z != 0,
    {
        self.bits & Z != 0
    }

    /// Carry flag.
    #[verifier::allow_in_spec]
    pub fn c(self) -> bool
        returns
            self@ & C != 0,
    {
        self.bits & C != 0
    }

    /// Signed overflow flag.
    #[verifier::allow_in_spec]
    pub fn v(self) -> bool
        returns
            self@ & V != 0,
    {
        self.bits & V != 0
    }

    /// Sets N to `value`.
    pub fn set_n(&mut self, value: bool)
        ensures
            final(self)@ == with_flag(old(self)@, N, value),
    {
        self.set_flag(N, value);
    }

    /// Sets Z to `value`.
    pub fn set_z(&mut self, value: bool)
        ensures
            final(self)@ == with_flag(old(self)@, Z, value),
    {
        self.set_flag(Z, value);
    }

    /// Sets C to `value`.
    pub fn set_c(&mut self, value: bool)
        ensures
            final(self)@ == with_flag(old(self)@, C, value),
    {
        self.set_flag(C, value);
    }

    /// Sets V to `value`.
    pub fn set_v(&mut self, value: bool)
        ensures
            final(self)@ == with_flag(old(self)@, V, value),
    {
        self.set_flag(V, value);
    }

    /// Whether the processor is in THUMB state.
    #[verifier::allow_in_spec]
    pub fn thumb(self) -> bool
        returns
            self@ & T != 0,
    {
        self.bits & T != 0
    }

    /// Switches to THUMB (`true`) or ARM (`false`) state.
    pub fn set_thumb(&mut self, value: bool)
        ensures
            final(self)@ == with_flag(old(self)@, T, value),
    {
        self.set_flag(T, value);
    }

    /// Whether IRQs are disabled.
    #[verifier::allow_in_spec]
    pub fn irq_disabled(self) -> bool
        returns
            self@ & I != 0,
    {
        self.bits & I != 0
    }

    /// Disables (`true`) or enables (`false`) IRQs.
    pub fn set_irq_disabled(&mut self, value: bool)
        ensures
            final(self)@ == with_flag(old(self)@, I, value),
    {
        self.set_flag(I, value);
    }

    /// Whether FIQs are disabled.
    #[verifier::allow_in_spec]
    pub fn fiq_disabled(self) -> bool
        returns
            self@ & F != 0,
    {
        self.bits & F != 0
    }

    /// Disables (`true`) or enables (`false`) FIQs.
    pub fn set_fiq_disabled(&mut self, value: bool)
        ensures
            final(self)@ == with_flag(old(self)@, F, value),
    {
        self.set_flag(F, value);
    }

    /// The raw mode bits `M[4:0]`.
    #[verifier::allow_in_spec]
    pub fn mode_bits(self) -> u8
        returns
            (self@ & MODE_MASK) as u8,
    {
        (self.bits & MODE_MASK) as u8
    }

    /// Writes the mode bits. Only a bank switch may do this, or `r13`/`r14`
    /// would no longer be those of the mode.
    pub(crate) fn set_mode_bits(&mut self, mode: CpuMode)
        ensures
            final(self)@ == with_mode(old(self)@, mode),
    {
        self.bits = (self.bits & !MODE_MASK) | (mode.bits() as u32 & MODE_MASK);
    }

    /// Writes the flags of an ALU result; no overflow leaves V alone.
    pub(crate) fn set_alu_flags(&mut self, result: u32, carry: bool, overflow: Option<bool>)
        ensures
            final(self)@ == with_alu_flags(old(self)@, result, carry, overflow),
    {
        self.set_n(crate::bits::bit(result, 31));
        self.set_z(result == 0);
        self.set_c(carry);
        if let Some(v) = overflow {
            self.set_v(v);
        }
    }
}

/// The bits of a mode name it, and the name of five bits has those bits.
pub proof fn law_mode_bits_round_trip(mode: CpuMode, bits: u8)
    ensures
        CpuMode::from_bits(mode.bits()) == Some(mode),
        match CpuMode::from_bits(bits) {
            Some(named) => named.bits() == bits & 0x1F,
            None => true,
        },
{
    assert(0x10u8 & 0x1F == 0x10 && 0x11u8 & 0x1F == 0x11 && 0x12u8 & 0x1F == 0x12 && 0x13u8 & 0x1F
        == 0x13 && 0x17u8 & 0x1F == 0x17 && 0x1Bu8 & 0x1F == 0x1B && 0x1Fu8 & 0x1F == 0x1F)
        by (bit_vector);
}

/// Writing a mode leaves that mode, and leaves every bit outside the mode field.
pub proof fn law_with_mode(bits: u32, mode: CpuMode)
    ensures
        mode_of(with_mode(bits, mode)) == mode,
        with_mode(bits, mode) & !MODE_MASK == bits & !MODE_MASK,
{
    let m = mode.bits();
    assert((((bits & !0x1Fu32) | (m as u32 & 0x1F)) & 0x1F) as u8 == m && ((bits & !0x1Fu32) | (
    m as u32 & 0x1F)) & !0x1Fu32 == bits & !0x1Fu32) by (bit_vector)
        requires
            m <= 0x1F,
    ;
    law_mode_bits_round_trip(mode, m);
}

/// The ALU flags read back as they were written: N is bit 31 of the result, Z
/// says whether it is zero, C is the carry and V the overflow, or what it was
/// when there is none. No other bit changes; in particular the mode, the state
/// and the interrupt bits stay.
pub proof fn law_alu_flags(bits: u32, result: u32, carry: bool, overflow: Option<bool>)
    ensures
        ({
            let after = with_alu_flags(bits, result, carry, overflow);
            &&& (after & N != 0) == crate::bits::bit(result, 31)
            &&& (after & Z != 0) == (result == 0)
            &&& (after & C != 0) == carry
            &&& (after & V != 0) == (match overflow {
                Some(v) => v,
                None => bits & V != 0,
            })
            &&& after & 0x0FFF_FFFF == bits & 0x0FFF_FFFF
            &&& mode_of(after) == mode_of(bits)
        }),
{
    let n = crate::bits::bit(result, 31);
    let z = result == 0;
    let b1 = with_flag(bits, N, n);
    let b2 = with_flag(b1, Z, z);
    let b3 = with_flag(b2, C, carry);
    lemma_with_flag(bits, N, n);
    lemma_with_flag(b1, Z, z);
    lemma_with_flag(b2, C, carry);
    if let Some(v) = overflow {
        lemma_with_flag(b3, V, v);
    }
}

/// Setting one of the four condition flags sets that flag only.
proof fn lemma_with_flag(bits: u32, mask: u32, value: bool)
    requires
        mask == N || mask == Z || mask == C || mask == V,
    ensures
        (with_flag(bits, mask, value) & mask != 0) == value,
        mask != N ==> (with_flag(bits, mask, value) & N != 0) == (bits & N != 0),
        mask != Z ==> (with_flag(bits, mask, value) & Z != 0) == (bits & Z != 0),
        mask != C ==> (with_flag(bits, mask, value) & C != 0) == (bits & C != 0),
        mask != V ==> (with_flag(bits, mask, value) & V != 0) == (bits & V != 0),
        with_flag(bits, mask, value) & 0x0FFF_FFFF == bits & 0x0FFF_FFFF,
        with_flag(bits, mask, value) & MODE_MASK == bits & MODE_MASK,
{
    assert({
        let after = if value {
            bits | mask
        } else {
            bits & !mask
        };
        &&& (after & mask != 0) == value
        &&& mask != 0x8000_0000u32 ==> (after & 0x8000_0000u32 != 0) == (bits & 0x8000_0000u32 != 0)
        &&& mask != 0x4000_0000u32 ==> (after & 0x4000_0000u32 != 0) == (bits & 0x4000_0000u32 != 0)
        &&& mask != 0x2000_0000u32 ==> (after & 0x2000_0000u32 != 0) == (bits & 0x2000_0000u32 != 0)
        &&& mask != 0x1000_0000u32 ==> (after & 0x1000_0000u32 != 0) == (bits & 0x1000_0000u32 != 0)
        &&& after & 0x0FFF_FFFF == bits & 0x0FFF_FFFF
        &&& after & 0x1F == bits & 0x1F
    }) by (bit_vector)
        requires
            mask == 0x8000_0000u32 || mask == 0x4000_0000u32 || mask == 0x2000_0000u32 || mask
                == 0x1000_0000u32,
    ;
}

} // verus!

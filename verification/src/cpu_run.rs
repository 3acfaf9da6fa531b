//! Steps and runs of the processor.
//!
//! A step fetches, decodes and executes one instruction and counts its cycles.
//! A run repeats steps; before each one the hardware is brought up to the
//! processor's clock, and while the processor sleeps the clock jumps to the
//! next event that may wake it.

use vstd::prelude::*;

use crate::alu::{arm_branch_offset, thumb_branch_offset11};
use crate::arm::{ArmInstruction, Decoded};
use crate::bios_hle::dispatch;
use crate::bus::{AccessWidth, Bus, BusState};
use crate::cpu::{
    Cpu, CpuState, Executed, Halt, Machine, RunReport, RunStop, StepResult, IRQ_VECTOR,
    PC_AHEAD_ARM, PC_AHEAD_THUMB, SWI_VECTOR, UNDEFINED_VECTOR,
};
use crate::psr::CpuMode;
use crate::thumb::ThumbInstruction;

verus! {

/// Whether an ARM instruction at `pc` is a branch to itself.
#[verifier::allow_in_spec]
pub fn is_branch_to_self(kind: ArmInstruction, instr: u32, pc: u32) -> bool
    returns
        matches!(kind, ArmInstruction::Branch { .. }) && pc.wrapping_add(
            PC_AHEAD_ARM,
        ).wrapping_add_signed(arm_branch_offset(instr)) == pc,
{
    matches!(kind, ArmInstruction::Branch { .. }) && pc.wrapping_add(
        PC_AHEAD_ARM,
    ).wrapping_add_signed(arm_branch_offset(instr)) == pc
}

/// Whether a THUMB instruction at `pc` is a branch to itself.
#[verifier::allow_in_spec]
pub fn is_thumb_branch_to_self(kind: ThumbInstruction, instr: u16, pc: u32) -> bool
    returns
        kind == ThumbInstruction::UnconditionalBranch && pc.wrapping_add(
            PC_AHEAD_THUMB,
        ).wrapping_add_signed(thumb_branch_offset11(instr)) == pc,
{
    kind == ThumbInstruction::UnconditionalBranch && pc.wrapping_add(
        PC_AHEAD_THUMB,
    ).wrapping_add_signed(thumb_branch_offset11(instr)) == pc
}

impl Machine {
    /// A processor-only effect on the machine.
    pub open spec fn on_cpu(self, effect: (CpuState, Executed)) -> (Machine, Executed) {
        (Machine { cpu: effect.0, ..self }, effect.1)
    }

    /// After an ARM instruction of this category.
    #[verifier::opaque]
    pub open spec fn arm_executed(self, kind: ArmInstruction, instr: u32) -> (Machine, Executed) {
        let jump = Executed::Branched { extra_cycles: 0 };
        match kind {
            ArmInstruction::DataProcessing => self.on_cpu(self.cpu.data_processing(instr)),
            ArmInstruction::PsrTransfer => self.on_cpu(self.cpu.psr_transfer(instr)),
            ArmInstruction::Multiply => self.on_cpu(self.cpu.multiply(instr)),
            ArmInstruction::MultiplyLong => self.on_cpu(self.cpu.multiply_long(instr)),
            ArmInstruction::SingleDataTransfer => self.single_data_transfer(instr),
            ArmInstruction::HalfwordTransfer => self.halfword_transfer(instr),
            ArmInstruction::BlockDataTransfer => self.block_data_transfer(instr),
            ArmInstruction::SingleDataSwap => self.single_data_swap(instr),
            ArmInstruction::Branch { link } => self.on_cpu((self.cpu.branch(instr, link), jump)),
            ArmInstruction::BranchExchange => self.on_cpu((self.cpu.branch_exchange(instr), jump)),
            ArmInstruction::SoftwareInterrupt => self.software_interrupt(
                ((instr >> 16) % 0x100) as u8,
            ),
            ArmInstruction::Undefined => self.on_cpu(
                (self.cpu.exception(CpuMode::Undefined, UNDEFINED_VECTOR), jump),
            ),
            ArmInstruction::Coprocessor => (self, Executed::Unimplemented),
        }
    }

    /// After `SWI`: with a real BIOS it is an exception, without one the
    /// built-in BIOS serves it.
    pub open spec fn software_interrupt(self, number: u8) -> (Machine, Executed) {
        if self.bus.bios_loaded {
            self.on_cpu(
                (
                    self.cpu.exception(CpuMode::Supervisor, SWI_VECTOR),
                    Executed::Branched { extra_cycles: 0 },
                ),
            )
        } else {
            self.swi(number)
        }
    }

    /// After a THUMB instruction of this format.
    #[verifier::opaque]
    pub open spec fn thumb_executed(
        self,
        kind: ThumbInstruction,
        instr: u16,
    ) -> (Machine, Executed) {
        match kind {
            ThumbInstruction::MoveShifted => self.on_cpu(self.cpu.thumb_move_shifted(instr)),
            ThumbInstruction::AddSubtract => self.on_cpu(self.cpu.thumb_add_subtract(instr)),
            ThumbInstruction::MoveCompareAddSubImm => self.on_cpu(
                self.cpu.thumb_immediate_op(instr),
            ),
            ThumbInstruction::AluOperation => self.on_cpu(self.cpu.thumb_alu(instr)),
            ThumbInstruction::HiRegisterOpBx => self.on_cpu(self.cpu.thumb_hi_reg_op(instr)),
            ThumbInstruction::PcRelativeLoad => self.thumb_pc_relative_load(instr),
            ThumbInstruction::LoadStoreRegOffset => self.thumb_load_store_reg_offset(instr),
            ThumbInstruction::LoadStoreSignExtended => self.thumb_load_store_sign_extended(instr),
            ThumbInstruction::LoadStoreImmOffset => self.thumb_load_store_imm_offset(instr),
            ThumbInstruction::LoadStoreHalfword => self.thumb_load_store_halfword(instr),
            ThumbInstruction::SpRelativeLoadStore => self.thumb_sp_relative_load_store(instr),
            ThumbInstruction::LoadAddress => self.on_cpu(self.cpu.thumb_load_address(instr)),
            ThumbInstruction::AddOffsetToSp => self.on_cpu(self.cpu.thumb_add_offset_to_sp(instr)),
            ThumbInstruction::PushPop => self.thumb_push_pop(instr),
            ThumbInstruction::MultipleLoadStore => self.thumb_multiple_load_store(instr),
            ThumbInstruction::ConditionalBranch => self.on_cpu(
                self.cpu.thumb_conditional_branch(instr),
            ),
            ThumbInstruction::SoftwareInterrupt => self.software_interrupt((instr % 0x100) as u8),
            ThumbInstruction::UnconditionalBranch => self.on_cpu(
                self.cpu.thumb_unconditional_branch(instr),
            ),
            ThumbInstruction::LongBranchWithLink => self.on_cpu(
                self.cpu.thumb_long_branch_with_link(instr),
            ),
            ThumbInstruction::Undefined => self.on_cpu(
                (
                    self.cpu.exception(CpuMode::Undefined, UNDEFINED_VECTOR),
                    Executed::Branched { extra_cycles: 0 },
                ),
            ),
        }
    }

    /// After counting the cycles of an instruction that was fetched at `pc`
    /// with `fetch` cycles. Unless it jumped, the program counter moves on;
    /// after a jump or an access to data the next fetch is not sequential. A
    /// jump also costs the fetch of the instruction behind it.
    pub open spec fn step_finished(
        self,
        executed: Executed,
        pc: u32,
        fetch: u32,
        size: u32,
        halt: Halt,
    ) -> (Machine, StepResult) {
        let next = self.cpu.r[15].wrapping_add(self.cpu.instruction_size());
        match executed {
            Executed::Continue { extra_cycles } => (
                Machine {
                    cpu: CpuState {
                        cycles: crate::cpu::clock_plus(self.cpu.cycles, fetch + extra_cycles),
                        next_seq: Some(next),
                        ..self.cpu.with_pc(next)
                    },
                    ..self
                },
                StepResult::Stepped,
            ),
            Executed::Accessed { extra_cycles } => (
                Machine {
                    cpu: CpuState {
                        cycles: crate::cpu::clock_plus(self.cpu.cycles, fetch + extra_cycles),
                        next_seq: None,
                        ..self.cpu.with_pc(next)
                    },
                    ..self
                },
                StepResult::Stepped,
            ),
            Executed::Branched { extra_cycles } => {
                let discarded = crate::bus::cycles_of_access(
                    pc.wrapping_add(size),
                    if size == 2 {
                        AccessWidth::Half
                    } else {
                        AccessWidth::Word
                    },
                    true,
                );
                (
                    Machine {
                        cpu: CpuState {
                            cycles: crate::cpu::clock_plus(
                                self.cpu.cycles,
                                fetch + discarded + extra_cycles,
                            ),
                            next_seq: None,
                            ..self.cpu
                        },
                        ..self
                    },
                    StepResult::Stepped,
                )
            },
            Executed::Unimplemented => (self, StepResult::Halted(halt)),
        }
    }

    /// After a step in ARM state.
    pub open spec fn step_arm(self) -> (Machine, StepResult) {
        let pc = self.cpu.r[15];
        let instr = self.bus.read32(pc);
        let fetch = crate::bus::cycles_of_access(
            pc,
            AccessWidth::Word,
            self.cpu.next_seq == Some(pc),
        );
        match crate::arm::decoded(instr, self.cpu.psr) {
            Decoded::ConditionFailed(_) => self.step_finished(
                Executed::Continue { extra_cycles: 0 },
                pc,
                fetch,
                4,
                Halt::WaitingForInterrupt,
            ),
            Decoded::Execute(kind) => if is_branch_to_self(kind, instr, pc) {
                (self, StepResult::Halted(Halt::InfiniteLoop { pc, instr }))
            } else {
                let (after, executed) = self.arm_executed(kind, instr);
                after.step_finished(
                    executed,
                    pc,
                    fetch,
                    4,
                    Halt::Unimplemented { pc, instr, kind },
                )
            },
        }
    }

    /// After a step in THUMB state.
    pub open spec fn step_thumb(self) -> (Machine, StepResult) {
        let pc = self.cpu.r[15];
        let instr = self.bus.read16(pc);
        let fetch = crate::bus::cycles_of_access(
            pc,
            AccessWidth::Half,
            self.cpu.next_seq == Some(pc),
        );
        let kind = ThumbInstruction::format(instr);
        if is_thumb_branch_to_self(kind, instr, pc) {
            (self, StepResult::Halted(Halt::InfiniteLoop { pc, instr: instr as u32 }))
        } else {
            let (after, executed) = self.thumb_executed(kind, instr);
            after.step_finished(executed, pc, fetch, 2, Halt::ThumbNotImplemented { pc })
        }
    }

    /// After taking an interrupt. `LR` holds the address of the instruction
    /// that was not executed, plus four.
    pub open spec fn irq_taken(self) -> Machine {
        Machine {
            cpu: CpuState {
                next_seq: None,
                ..self.cpu.exception_at(
                    CpuMode::Irq,
                    IRQ_VECTOR,
                    self.cpu.r[15].wrapping_add(4),
                )
            },
            ..self
        }
    }

    /// After one step. A sleeping processor wakes when an interrupt is raised.
    /// An interrupt is taken before the next instruction if it is pending and
    /// not masked.
    pub open spec fn stepped(self) -> (Machine, StepResult) {
        if self.cpu.halted && !self.bus.irq.raised() {
            (self, StepResult::Halted(Halt::WaitingForInterrupt))
        } else {
            let awake = Machine { cpu: CpuState { halted: false, ..self.cpu }, ..self };
            if self.cpu.psr & crate::psr::I == 0 && self.bus.irq.pending() {
                (awake.irq_taken(), StepResult::Stepped)
            } else if self.cpu.thumb() {
                awake.step_thumb()
            } else {
                awake.step_arm()
            }
        }
    }
}

/// A run: the machine, the steps done, and why it ended if it did.
#[verifier::ext_equal]
pub struct RunState {
    /// The machine.
    pub machine: Machine,
    /// Instructions executed.
    pub steps: u64,
    /// Why the run ended.
    pub stop: Option<RunStop>,
}

impl RunState {
    /// After one turn of the run loop. The clock of the hardware follows that
    /// of the processor; then an event that is due is handed out, or a sleeping
    /// processor moves its clock to the next event that may wake it, or one
    /// step is done. A run that has ended does not change.
    pub open spec fn turn(self, max_steps: u64) -> RunState {
        let bus = self.machine.bus.advanced(self.machine.cpu.cycles);
        let m = Machine { bus, ..self.machine };
        if self.stop is Some {
            self
        } else if self.steps >= max_steps {
            RunState { stop: Some(RunStop::StepLimit), ..self }
        } else if bus.sched.due() {
            RunState { machine: Machine { bus: bus.delivered(), ..m }, ..self }
        } else if m.cpu.halted && !bus.irq.raised() {
            match bus.next_wakeup() {
                Some(cycle) => RunState {
                    machine: Machine {
                        cpu: CpuState {
                            cycles: if cycle > m.cpu.cycles {
                                cycle
                            } else {
                                m.cpu.cycles
                            },
                            ..m.cpu
                        },
                        ..m
                    },
                    ..self
                },
                None => RunState {
                    machine: m,
                    stop: Some(RunStop::Halted(Halt::WaitingForInterrupt)),
                    ..self
                },
            }
        } else {
            let (after, result) = m.stepped();
            match result {
                StepResult::Stepped => RunState {
                    machine: after,
                    steps: (self.steps + 1) as u64,
                    ..self
                },
                StepResult::Halted(halt) => RunState {
                    machine: after,
                    stop: Some(RunStop::Halted(halt)),
                    ..self
                },
            }
        }
    }

    /// After `n` turns.
    pub open spec fn turns(self, max_steps: u64, n: nat) -> RunState
        decreases n,
    {
        if n == 0 {
            self
        } else {
            self.turns(max_steps, (n - 1) as nat).turn(max_steps)
        }
    }

    /// Whether the run that starts here ends as `end`.
    pub open spec fn ends_as(self, max_steps: u64, end: RunState) -> bool {
        exists|n: nat| end.stop is Some && end == #[trigger] self.turns(max_steps, n)
    }
}

/// A run at its start.
pub open spec fn run_from(machine: Machine) -> RunState {
    RunState { machine, steps: 0, stop: None }
}

impl Cpu {
    /// Moves the program counter to the next instruction.
    fn advance_pc(&mut self)
        ensures
            final(self)@ == old(self)@.with_pc(
                old(self)@.r[15].wrapping_add(old(self)@.instruction_size()),
            ),
    {
        let next: u32 = self.pc().wrapping_add(self.instruction_size());
        self.set_pc(next);
    }

    /// Counts the cycles of an executed instruction.
    fn finish_step(
        &mut self,
        bus: &Bus,
        executed: Executed,
        pc: u32,
        fetch_cycles: u32,
        instr_size: u32,
        halt_if_unimplemented: Halt,
    ) -> (r: StepResult)
        ensures
            (Machine { cpu: final(self)@, bus: bus@ }, r) == (Machine {
                cpu: old(self)@,
                bus: bus@,
            }).step_finished(executed, pc, fetch_cycles, instr_size, halt_if_unimplemented),
            final(self)@.cycles >= old(self)@.cycles,
    {
        proof {
            crate::cpu::law_register_files(&*self);
        }
        match executed {
            Executed::Continue { extra_cycles } => {
                self.advance_pc();
                self.spend(fetch_cycles as u64);
                self.spend(extra_cycles);
                let next: u32 = self.pc();
                self.set_next_seq(Some(next));
                StepResult::Stepped
            },
            Executed::Accessed { extra_cycles } => {
                self.advance_pc();
                self.spend(fetch_cycles as u64);
                self.spend(extra_cycles);
                self.set_next_seq(None);
                StepResult::Stepped
            },
            Executed::Branched { extra_cycles } => {
                let width: AccessWidth = if instr_size == 2 {
                    AccessWidth::Half
                } else {
                    AccessWidth::Word
                };
                let discarded: u32 = bus.access_cycles(pc.wrapping_add(instr_size), width, true);
                self.spend(fetch_cycles as u64);
                self.spend(discarded as u64);
                self.spend(extra_cycles);
                self.set_next_seq(None);
                StepResult::Stepped
            },
            Executed::Unimplemented => StepResult::Halted(halt_if_unimplemented),
        }
    }

    /// Executes an ARM instruction whose condition holds.
    fn try_execute_arm(&mut self, kind: ArmInstruction, instr: u32, bus: &mut Bus) -> (r: Executed)
        requires
            old(bus)@.wf(),
            kind == ArmInstruction::category(instr),
        ensures
            (Machine { cpu: final(self)@, bus: final(bus)@ }, r) == (Machine {
                cpu: old(self)@,
                bus: old(bus)@,
            }).arm_executed(kind, instr),
            final(bus)@.wf(),
            final(self)@.cycles == old(self)@.cycles,
    {
        reveal(Machine::arm_executed);
        match kind {
            ArmInstruction::DataProcessing => self.execute_data_processing(instr),
            ArmInstruction::PsrTransfer => self.execute_psr_transfer(instr),
            ArmInstruction::Multiply => self.execute_multiply(instr),
            ArmInstruction::MultiplyLong => self.execute_multiply_long(instr),
            ArmInstruction::SingleDataTransfer => self.execute_single_data_transfer(instr, bus),
            ArmInstruction::HalfwordTransfer => {
                assert(instr & 0x60 != 0 ==> (instr >> 5) % 4 != 0) by (bit_vector);
                self.execute_halfword_transfer(instr, bus)
            },
            ArmInstruction::BlockDataTransfer => self.execute_block_data_transfer(instr, bus),
            ArmInstruction::SingleDataSwap => self.execute_single_data_swap(instr, bus),
            ArmInstruction::Branch { link } => {
                self.execute_branch(instr, link);
                Executed::Branched { extra_cycles: 0 }
            },
            ArmInstruction::BranchExchange => {
                self.execute_bx(instr);
                Executed::Branched { extra_cycles: 0 }
            },
            ArmInstruction::SoftwareInterrupt => self.execute_swi(
                ((instr >> 16) % 0x100) as u8,
                bus,
            ),
            ArmInstruction::Undefined => self.enter_exception(
                CpuMode::Undefined,
                UNDEFINED_VECTOR,
            ),
            ArmInstruction::Coprocessor => Executed::Unimplemented,
        }
    }

    /// Executes `SWI`.
    fn execute_swi(&mut self, number: u8, bus: &mut Bus) -> (r: Executed)
        requires
            old(bus)@.wf(),
        ensures
            (Machine { cpu: final(self)@, bus: final(bus)@ }, r) == (Machine {
                cpu: old(self)@,
                bus: old(bus)@,
            }).software_interrupt(number),
            final(bus)@.wf(),
            final(self)@.cycles == old(self)@.cycles,
    {
        if bus.has_bios() {
            self.enter_exception(CpuMode::Supervisor, SWI_VECTOR)
        } else {
            dispatch(self, bus, number)
        }
    }

    /// Executes a THUMB instruction.
    fn try_execute_thumb(
        &mut self,
        kind: ThumbInstruction,
        instr: u16,
        bus: &mut Bus,
    ) -> (r: Executed)
        requires
            old(bus)@.wf(),
        ensures
            (Machine { cpu: final(self)@, bus: final(bus)@ }, r) == (Machine {
                cpu: old(self)@,
                bus: old(bus)@,
            }).thumb_executed(kind, instr),
            final(bus)@.wf(),
            final(self)@.cycles == old(self)@.cycles,
    {
        reveal(Machine::thumb_executed);
        match kind {
            ThumbInstruction::MoveShifted => self.thumb_move_shifted(instr),
            ThumbInstruction::AddSubtract => self.thumb_add_subtract(instr),
            ThumbInstruction::MoveCompareAddSubImm => self.thumb_immediate_op(instr),
            ThumbInstruction::AluOperation => self.thumb_alu(instr),
            ThumbInstruction::HiRegisterOpBx => self.thumb_hi_reg_op(instr),
            ThumbInstruction::PcRelativeLoad => self.thumb_pc_relative_load(instr, bus),
            ThumbInstruction::LoadStoreRegOffset => self.thumb_load_store_reg_offset(instr, bus),
            ThumbInstruction::LoadStoreSignExtended => self.thumb_load_store_sign_extended(
                instr,
                bus,
            ),
            ThumbInstruction::LoadStoreImmOffset => self.thumb_load_store_imm_offset(instr, bus),
            ThumbInstruction::LoadStoreHalfword => self.thumb_load_store_halfword(instr, bus),
            ThumbInstruction::SpRelativeLoadStore => self.thumb_sp_relative_load_store(instr, bus),
            ThumbInstruction::LoadAddress => self.thumb_load_address(instr),
            ThumbInstruction::AddOffsetToSp => self.thumb_add_offset_to_sp(instr),
            ThumbInstruction::PushPop => self.thumb_push_pop(instr, bus),
            ThumbInstruction::MultipleLoadStore => self.thumb_multiple_load_store(instr, bus),
            ThumbInstruction::ConditionalBranch => self.thumb_conditional_branch(instr),
            ThumbInstruction::SoftwareInterrupt => self.execute_swi((instr % 0x100) as u8, bus),
            ThumbInstruction::UnconditionalBranch => self.thumb_unconditional_branch(instr),
            ThumbInstruction::LongBranchWithLink => self.thumb_long_branch_with_link(instr),
            ThumbInstruction::Undefined => self.enter_exception(
                CpuMode::Undefined,
                UNDEFINED_VECTOR,
            ),
        }
    }

    fn step_arm(&mut self, bus: &mut Bus) -> (r: StepResult)
        requires
            old(bus)@.wf(),
            !old(self)@.thumb(),
        ensures
            (Machine { cpu: final(self)@, bus: final(bus)@ }, r) == (Machine {
                cpu: old(self)@,
                bus: old(bus)@,
            }).step_arm(),
            final(bus)@.wf(),
            final(self)@.cycles >= old(self)@.cycles,
    {
        let pc: u32 = self.pc();
        let instr: u32 = self.fetch(bus);
        let fetch_cycles: u32 = bus.access_cycles(pc, AccessWidth::Word, self.is_sequential(pc));
        match self.decode_arm(instr) {
            Decoded::ConditionFailed(_) => self.finish_step(
                bus,
                Executed::Continue { extra_cycles: 0 },
                pc,
                fetch_cycles,
                4,
                Halt::WaitingForInterrupt,
            ),
            Decoded::Execute(kind) => {
                if is_branch_to_self(kind, instr, pc) {
                    return StepResult::Halted(Halt::InfiniteLoop { pc, instr });
                }
                let executed: Executed = self.try_execute_arm(kind, instr, bus);
                self.finish_step(
                    bus,
                    executed,
                    pc,
                    fetch_cycles,
                    4,
                    Halt::Unimplemented { pc, instr, kind },
                )
            },
        }
    }

    fn step_thumb(&mut self, bus: &mut Bus) -> (r: StepResult)
        requires
            old(bus)@.wf(),
        ensures
            (Machine { cpu: final(self)@, bus: final(bus)@ }, r) == (Machine {
                cpu: old(self)@,
                bus: old(bus)@,
            }).step_thumb(),
            final(bus)@.wf(),
            final(self)@.cycles >= old(self)@.cycles,
    {
        let pc: u32 = self.pc();
        let instr: u16 = bus.read_u16(pc);
        let fetch_cycles: u32 = bus.access_cycles(pc, AccessWidth::Half, self.is_sequential(pc));
        let kind: ThumbInstruction = self.decode_thumb(instr);
        if is_thumb_branch_to_self(kind, instr, pc) {
            return StepResult::Halted(Halt::InfiniteLoop { pc, instr: instr as u32 });
        }
        let executed: Executed = self.try_execute_thumb(kind, instr, bus);
        self.finish_step(bus, executed, pc, fetch_cycles, 2, Halt::ThumbNotImplemented { pc })
    }

    /// Takes an interrupt.
    fn take_irq(&mut self)
        ensures
            forall|bus: BusState|
                (Machine { cpu: final(self)@, bus }) == #[trigger] (Machine {
                    cpu: old(self)@,
                    bus,
                }).irq_taken(),
            final(self)@.cycles == old(self)@.cycles,
    {
        let return_addr: u32 = self.pc().wrapping_add(4);
        self.enter_exception_at(CpuMode::Irq, IRQ_VECTOR, return_addr);
        self.set_next_seq(None);
    }

    /// Executes one instruction, or takes an interrupt.
    pub fn step(&mut self, bus: &mut Bus) -> (r: StepResult)
        requires
            old(bus)@.wf(),
        ensures
            (Machine { cpu: final(self)@, bus: final(bus)@ }, r) == (Machine {
                cpu: old(self)@,
                bus: old(bus)@,
            }).stepped(),
            final(bus)@.wf(),
            final(self)@.cycles >= old(self)@.cycles,
    {
        if self.is_halted() {
            if bus.irq_raised() {
                self.wake();
            } else {
                return StepResult::Halted(Halt::WaitingForInterrupt);
            }
        }
        assert(self@ == (CpuState { halted: false, ..old(self)@ }));
        if !self.cpsr().irq_disabled() && bus.irq_pending() {
            self.take_irq();
            return StepResult::Stepped;
        }
        if self.cpsr().thumb() {
            self.step_thumb(bus)
        } else {
            self.step_arm(bus)
        }
    }

    /// Executes instructions until the processor stops or `max_steps` of them
    /// are done.
    pub fn run(&mut self, bus: &mut Bus, max_steps: u64) -> (r: RunReport)
        requires
            old(bus)@.wf(),
        ensures
            run_from(Machine { cpu: old(self)@, bus: old(bus)@ }).ends_as(
                max_steps,
                RunState {
                    machine: Machine { cpu: final(self)@, bus: final(bus)@ },
                    steps: r.steps,
                    stop: Some(r.stop),
                },
            ),
            r.cycles == final(self)@.cycles - old(self)@.cycles,
            final(bus)@.wf(),
    {
        let cycles_start: u64 = self.cycles();
        let ghost start = run_from(Machine { cpu: self@, bus: bus@ });
        let ghost mut n: nat = 0;
        let mut steps: u64 = 0;
        while steps < max_steps
            invariant
                bus@.wf(),
                cycles_start == old(self)@.cycles,
                start == run_from(Machine { cpu: old(self)@, bus: old(bus)@ }),
                self@.cycles >= cycles_start,
                steps <= max_steps,
                (RunState {
                    machine: Machine { cpu: self@, bus: bus@ },
                    steps,
                    stop: None,
                }) == start.turns(max_steps, n),
            decreases max_steps - steps, u64::MAX - self@.cycles,
        {
            let ghost before = RunState {
                machine: Machine { cpu: self@, bus: bus@ },
                steps,
                stop: None,
            };
            let cycles: u64 = self.cycles();
            bus.sync_to_cycle(cycles);
            let ghost k = choose|k: nat|
                #[trigger] before.machine.bus.advanced(cycles).drains_in(k, bus@);
            proof {
                lemma_drain_is_turns(before, max_steps, k, bus@);
            }
            if self.is_halted() && !bus.irq_raised() {
                match bus.next_wakeup_cycle() {
                    Some(next) => {
                        self.sleep_until(next);
                        proof {
                            lemma_turns_compose(start, max_steps, n, k + 1);
                            n = n + k + 1;
                        }
                        continue;
                    },
                    None => {
                        proof {
                            lemma_turns_compose(start, max_steps, n, k + 1);
                        }
                        let stop: RunStop = RunStop::Halted(Halt::WaitingForInterrupt);
                        return self.run_report(steps, cycles_start, stop);
                    },
                }
            }
            match self.step(bus) {
                StepResult::Stepped => {
                    steps = steps + 1;
                    proof {
                        lemma_turns_compose(start, max_steps, n, k + 1);
                        n = n + k + 1;
                    }
                },
                StepResult::Halted(halt) => {
                    proof {
                        lemma_turns_compose(start, max_steps, n, k + 1);
                    }
                    return self.run_report(steps, cycles_start, RunStop::Halted(halt));
                },
            }
        }
        proof {
            let last = start.turns(max_steps, n);
            assert(start.turns(max_steps, n + 1) == last.turn(max_steps));
        }
        self.run_report(steps, cycles_start, RunStop::StepLimit)
    }

    fn run_report(&self, steps: u64, cycles_start: u64, stop: RunStop) -> (r: RunReport)
        requires
            self@.cycles >= cycles_start,
        ensures
            r == (RunReport { steps, cycles: (self@.cycles - cycles_start) as u64, stop }),
    {
        RunReport { steps, cycles: self.cycles() - cycles_start, stop }
    }
}

/// Handing out the due events is a series of turns, which leaves the hardware
/// clock where the first of them moved it.
proof fn lemma_drain_is_turns(s: RunState, max_steps: u64, k: nat, after: BusState)
    requires
        s.stop is None,
        s.steps < max_steps,
        s.machine.bus.advanced(s.machine.cpu.cycles).drains_in(k, after),
    ensures
        ({
            let drained = RunState { machine: Machine { bus: after, ..s.machine }, ..s };
            &&& s.turns(max_steps, k + 1) == drained.turn(max_steps)
        }),
{
    let start = s.machine.bus.advanced(s.machine.cpu.cycles);
    lemma_drain_prefix(s, max_steps, k, k);
    let reached = s.turns(max_steps, k);
    let drained = RunState { machine: Machine { bus: after, ..s.machine }, ..s };
    lemma_clock_kept(start, k);
    assert(after.advanced(s.machine.cpu.cycles) == after);
    assert(reached.machine.bus.advanced(s.machine.cpu.cycles) == after.advanced(
        s.machine.cpu.cycles,
    ));
    assert(reached.turn(max_steps) == drained.turn(max_steps));
}

/// After `j` of the `k` deliveries the run has done `j` turns.
proof fn lemma_drain_prefix(s: RunState, max_steps: u64, k: nat, j: nat)
    requires
        s.stop is None,
        s.steps < max_steps,
        j <= k,
        forall|i: nat|
            i < k ==> (#[trigger] s.machine.bus.advanced(s.machine.cpu.cycles).delivered_n(
                i,
            )).sched.due(),
    ensures
        ({
            let reached = s.turns(max_steps, j);
            let bus = s.machine.bus.advanced(s.machine.cpu.cycles).delivered_n(j);
            &&& reached.machine.cpu == s.machine.cpu
            &&& reached.machine.bus.advanced(s.machine.cpu.cycles) == bus
            &&& reached.steps == s.steps
            &&& reached.stop is None
        }),
    decreases j,
{
    let start = s.machine.bus.advanced(s.machine.cpu.cycles);
    lemma_clock_kept(start, j);
    if j > 0 {
        lemma_drain_prefix(s, max_steps, k, (j - 1) as nat);
        assert(start.delivered_n((j - 1) as nat).sched.due());
        let bus = start.delivered_n(j);
        assert(bus.advanced(s.machine.cpu.cycles) == bus);
    }
}

/// Handing out events does not move the clock.
proof fn lemma_clock_kept(b: BusState, n: nat)
    ensures
        b.delivered_n(n).sched.now == b.sched.now,
    decreases n,
{
    if n > 0 {
        lemma_clock_kept(b, (n - 1) as nat);
        lemma_delivery_keeps_clock(b.delivered_n((n - 1) as nat));
    }
}

/// Handing out one event does not move the clock.
proof fn lemma_delivery_keeps_clock(b: BusState)
    ensures
        b.delivered().sched.now == b.sched.now,
{
    if b.sched.due() {
        match b.sched.queue[0].1 {
            crate::bus::Event::TimerOverflow { timer, at } => {
                let popped = BusState { sched: b.sched.popped(), ..b };
                crate::timers::lemma_overflow_keeps_clock(
                    popped.board(),
                    popped.irq,
                    timer as int,
                    at,
                );
            },
        }
    }
}

/// Turns add up.
proof fn lemma_turns_compose(s: RunState, max_steps: u64, n: nat, k: nat)
    ensures
        s.turns(max_steps, n + k) == s.turns(max_steps, n).turns(max_steps, k),
    decreases k,
{
    if k > 0 {
        lemma_turns_compose(s, max_steps, n, (k - 1) as nat);
    }
}

} // verus!

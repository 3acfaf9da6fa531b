//! The console: processor, bus and picture.

use vstd::prelude::*;

use crate::arm::Decoded;
use crate::bios::Bios;
use crate::bus::{Bus, BusState, ROM_START};
use crate::cartridge::Cartridge;
use crate::cpu::{Cpu, CpuState, Machine, RunReport, StepResult, NUM_REGISTERS};
use crate::cpu_run::RunState;
use crate::thumb::ThumbInstruction;
use crate::FRAMEBUFFER_SIZE;

verus! {

/// The console as a value.
#[verifier::ext_equal]
pub struct GbaState {
    /// Processor and bus.
    pub machine: Machine,
    /// The picture: red, green, blue and alpha of each pixel, line by line from
    /// the upper left.
    pub fb: Seq<u8>,
}

/// A picture of one opaque colour.
pub open spec fn solid(r: u8, g: u8, b: u8) -> Seq<u8> {
    Seq::new(
        FRAMEBUFFER_SIZE as nat,
        |k: int|
            if k % 4 == 0 {
                r
            } else if k % 4 == 1 {
                g
            } else if k % 4 == 2 {
                b
            } else {
                0xFF
            },
    )
}

impl GbaState {
    /// The hardware with the blue picture of a console that has drawn nothing.
    pub open spec fn assembled(cpu: CpuState, bus: BusState) -> GbaState {
        GbaState { machine: Machine { cpu, bus }, fb: solid(0x1E, 0x90, 0xFF) }
    }

    /// The console as switched on without a BIOS: the processor starts in the
    /// ROM, in the state that a BIOS would have left.
    pub open spec fn without_bios(rom: Seq<u8>) -> GbaState {
        GbaState::assembled(
            CpuState::reset().with_pc(ROM_START).without_bios(),
            BusState::power_on(rom),
        )
    }

    /// The console as switched on with a BIOS: the processor starts in it.
    pub open spec fn with_bios(rom: Seq<u8>, bios: Seq<u8>) -> GbaState {
        GbaState::assembled(CpuState::reset(), BusState::power_on(rom).with_bios(bios))
    }

    /// The bus is as it should be and the picture has its size.
    pub open spec fn wf(self) -> bool {
        self.machine.bus.wf() && self.fb.len() == FRAMEBUFFER_SIZE
    }
}

/// A Game Boy Advance.
pub struct Gba {
    cpu: Cpu,
    bus: Bus,
    framebuffer: Vec<u8>,
}

impl View for Gba {
    type V = GbaState;

    closed spec fn view(&self) -> GbaState {
        GbaState { machine: Machine { cpu: self.cpu@, bus: self.bus@ }, fb: self.framebuffer@ }
    }
}

impl Gba {
    /// A console after reset, without a cartridge.
    pub fn new() -> (r: Self)
        ensures
            r@ == GbaState::assembled(CpuState::reset(), BusState::power_on(Seq::empty())),
            r@.wf(),
    {
        Gba::with_hardware(Cpu::new(), Bus::new(Vec::new()))
    }

    /// A console with a cartridge and without a BIOS, about to execute the
    /// first instruction of the cartridge.
    pub fn with_cartridge(cart: Cartridge) -> (r: Self)
        ensures
            r@ == GbaState::without_bios(cart@),
            r@.wf(),
    {
        let mut cpu: Cpu = Cpu::new();
        cpu.set_pc(ROM_START);
        cpu.skip_bios_init();
        Gba::with_hardware(cpu, Bus::new(cart.into_rom()))
    }

    /// A console with a cartridge and a BIOS, about to execute the first
    /// instruction of the BIOS.
    pub fn with_cartridge_and_bios(cart: Cartridge, bios: Bios) -> (r: Self)
        ensures
            r@ == GbaState::with_bios(cart@, bios@),
            r@.wf(),
    {
        let mut bus: Bus = Bus::new(cart.into_rom());
        bus.load_bios(bios.as_bytes());
        Gba::with_hardware(Cpu::new(), bus)
    }

    /// A console of the given parts, with a blue picture.
    fn with_hardware(cpu: Cpu, bus: Bus) -> (r: Self)
        requires
            bus@.wf(),
        ensures
            r@ == GbaState::assembled(cpu@, bus@),
            r@.wf(),
    {
        let mut gba: Gba = Gba { cpu, bus, framebuffer: vec![0; FRAMEBUFFER_SIZE] };
        gba.clear(0x1E, 0x90, 0xFF);
        gba
    }

    /// Reads the instruction at the program counter, without executing it.
    pub fn fetch(&self) -> (r: u32)
        ensures
            r == (if self@.machine.cpu.thumb() {
                self@.machine.bus.read16(self@.machine.cpu.r[15]) as u32
            } else {
                self@.machine.bus.read32(self@.machine.cpu.r[15])
            }),
    {
        self.cpu.fetch(&self.bus)
    }

    /// Decodes an ARM instruction against the current flags.
    pub fn decode_arm(&self, instr: u32) -> (r: Decoded)
        ensures
            r == crate::arm::decoded(instr, self@.machine.cpu.psr),
    {
        self.cpu.decode_arm(instr)
    }

    /// Decodes a THUMB instruction.
    pub fn decode_thumb(&self, instr: u16) -> (r: ThumbInstruction)
        ensures
            r == ThumbInstruction::format(instr),
    {
        self.cpu.decode_thumb(instr)
    }

    /// Executes instructions until the processor stops or `max_steps` of them
    /// are done.
    pub fn run(&mut self, max_steps: u64) -> (r: RunReport)
        requires
            old(self)@.wf(),
        ensures
            crate::cpu_run::run_from(old(self)@.machine).ends_as(
                max_steps,
                RunState { machine: final(self)@.machine, steps: r.steps, stop: Some(r.stop) },
            ),
            r.cycles == final(self)@.machine.cpu.cycles - old(self)@.machine.cpu.cycles,
            final(self)@.fb == old(self)@.fb,
            final(self)@.wf(),
    {
        self.cpu.run(&mut self.bus, max_steps)
    }

    /// Executes one instruction.
    pub fn step(&mut self) -> (r: StepResult)
        requires
            old(self)@.wf(),
        ensures
            (final(self)@.machine, r) == old(self)@.machine.stepped(),
            final(self)@.fb == old(self)@.fb,
            final(self)@.wf(),
    {
        self.cpu.step(&mut self.bus)
    }

    /// The address of the current instruction.
    pub fn pc(&self) -> (r: u32)
        ensures
            r == self@.machine.cpu.r[15],
    {
        self.cpu.pc()
    }

    /// A register as an instruction reads it; `r15` reads ahead.
    pub fn reg(&self, index: usize) -> (r: u32)
        requires
            index < NUM_REGISTERS,
        ensures
            r == self@.machine.cpu.reg(index as int),
    {
        self.cpu.reg(index)
    }

    /// Cycles since reset.
    pub fn cycles(&self) -> (r: u64)
        ensures
            r == self@.machine.cpu.cycles,
    {
        self.cpu.cycles()
    }

    /// Fills the picture with one opaque colour.
    pub fn clear(&mut self, r: u8, g: u8, b: u8)
        requires
            old(self)@.fb.len() == FRAMEBUFFER_SIZE,
        ensures
            final(self)@ == (GbaState { fb: solid(r, g, b), ..old(self)@ }),
    {
        let mut at: usize = 0;
        while at < FRAMEBUFFER_SIZE
            invariant
                at <= FRAMEBUFFER_SIZE,
                at % 4 == 0,
                self@.machine == old(self)@.machine,
                self@.fb.len() == FRAMEBUFFER_SIZE,
                forall|k: int| 0 <= k < at ==> #[trigger] self@.fb[k] == solid(r, g, b)[k],
            decreases FRAMEBUFFER_SIZE - at,
        {
            self.framebuffer.set(at, r);
            self.framebuffer.set(at + 1, g);
            self.framebuffer.set(at + 2, b);
            self.framebuffer.set(at + 3, 0xFF);
            at = at + 4;
        }
        assert(self@.fb =~= solid(r, g, b));
    }

    /// The picture: red, green, blue and alpha of each pixel.
    pub fn framebuffer(&self) -> (r: &[u8])
        ensures
            r@ == self@.fb,
    {
        self.framebuffer.as_slice()
    }
}

impl Default for Gba {
    fn default() -> (r: Self)
        ensures
            r@ == GbaState::assembled(CpuState::reset(), BusState::power_on(Seq::empty())),
            r@.wf(),
    {
        Gba::new()
    }
}

} // verus!

//! The core of a Game Boy Advance emulator: processor, memory bus, devices and
//! picture, without windows, files or input. Its only output is a picture of
//! four bytes per pixel.
//!
//! Every device is modelled by a value, the view of its type, and every
//! operation says what it does to that value. [`Gba`] puts the parts together:
//! the processor ([`Cpu`]) executes ARM and THUMB instructions against the bus
//! ([`Bus`]), which holds the memory, the DMA channels, the interrupt
//! controller, the serial port and the timers with their event queue. Without a
//! BIOS image ([`Bios`]) the calls into the BIOS are served by [`bios_hle`] and
//! its neighbours. The picture unit ([`Ppu`]) draws from memory that it is
//! lent.
//!
//! What holds of several operations together stands in the modules whose names
//! end in `laws`, and beside the types it is about: of the instructions in
//! [`arm_laws`], [`arm_memory_laws`], [`arm_control_laws`], [`thumb_laws`],
//! [`thumb_flow_laws`] and [`cpu_laws`], of the calls into the BIOS in
//! [`bios_laws`], [`firmware_laws`], [`service_laws`], [`unpack_laws`],
//! [`huffman_laws`] and [`angle_laws`], of the picture in [`picture_laws`] and
//! [`display_laws`], of memory and the devices in [`memory_laws`], [`dma_laws`]
//! and [`device_laws`], and of the machine as a whole in [`machine_laws`] and
//! [`console_laws`]. [`encoding`] says what the fields of a word are.

use vstd::prelude::*;

pub mod alu;
pub mod angle_laws;
pub mod arm;
pub mod arm_control_laws;
pub mod arm_laws;
pub mod arm_memory_laws;
pub mod bios;
pub mod bios_affine;
pub mod bios_hle;
pub mod bios_laws;
pub mod bios_math;
pub mod bios_memory;
pub mod bios_unpack;
pub mod bios_waves;
pub mod bits;
pub mod bus;
pub mod cartridge;
pub mod console_laws;
pub mod cpu;
pub mod cpu_arm;
pub mod cpu_laws;
pub mod cpu_run;
pub mod cpu_thumb;
pub mod device_laws;
pub mod display_laws;
pub mod dma;
pub mod dma_laws;
pub mod encoding;
pub mod firmware_laws;
pub mod frontend;
pub mod gba;
pub mod header;
pub mod huffman_laws;
pub mod interrupt;
pub mod irq_stub;
pub mod machine_laws;
pub mod memory_laws;
pub mod picture_laws;
pub mod ppu;
pub mod ppu_bg;
pub mod ppu_color;
pub mod ppu_obj;
pub mod psr;
pub mod scheduler;
pub mod service_laws;
pub mod sio;
pub mod text;
pub mod thumb;
pub mod thumb_flow_laws;
pub mod thumb_laws;
pub mod timers;
pub mod unpack_laws;

pub use arm::{ArmInstruction, Condition, Decoded};
pub use bios::{Bios, BiosError};
pub use bus::{AccessWidth, Bus, Event};
pub use cartridge::{Cartridge, CartridgeError, MAX_ROM_SIZE, MIN_ROM_SIZE};
pub use cpu::{Cpsr, Cpu, CpuMode, Halt, RunReport, RunStop, StepResult};
pub use dma::{Dma, DmaTransfer, DMA_CHANNELS};
pub use gba::Gba;
pub use header::Header;
pub use interrupt::{Interrupt, InterruptControl};
pub use ppu::Ppu;
pub use scheduler::Scheduler;
pub use sio::Sio;
pub use thumb::ThumbInstruction;
pub use timers::{Timers, NUM_TIMERS};

verus! {

/// Width of the screen in pixels.
pub const SCREEN_WIDTH: usize = 240;

/// Height of the screen in pixels.
pub const SCREEN_HEIGHT: usize = 160;

/// Bytes of a pixel: red, green, blue and alpha.
pub const BYTES_PER_PIXEL: usize = 4;

/// Bytes of a whole picture.
pub const FRAMEBUFFER_SIZE: usize = 153_600;

} // verus!

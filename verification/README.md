# gba_core

The core of a Game Boy Advance emulator, written and verified in Verus, and a
small desktop front end.

- `src/` is the library. Each device has a model (a plain value with spec
  methods), and the executable code is proved to follow it.
  - `bits`, `alu`, `psr`: words, arithmetic and the status register.
  - `arm`, `thumb`: the two decoders.
  - `cpu`, `cpu_arm`, `cpu_thumb`, `cpu_run`: registers and modes, the
    instructions, steps and runs.
  - `bus`, `dma`, `interrupt`, `sio`, `timers`, `scheduler`: the memory map and
    the devices behind it.
  - `bios`, `irq_stub`, `bios_hle`, `bios_math`, `bios_memory`, `bios_unpack`,
    `bios_affine`, `bios_waves`: the BIOS image and the built-in replacement for it.
  - `ppu`, `ppu_bg`, `ppu_obj`, `ppu_color`: the picture.
  - `cartridge`, `header`, `gba`, `frontend`, `text`: cartridges, the console,
    and what a front end needs.
  - `memory_laws`, `cpu_laws`, `bios_laws`: properties of several operations
    together.
- `tests/` runs the library on concrete values.
- `app/` is the desktop front end: arguments, files and the window.

## Notes

- The clock has 64 bits. The cycle counter stops at its end, and a timer
  overflow that would lie beyond it never comes.
- The two affine BIOS functions compute in single precision. The library does so
  in integers, rounding to 24 significant bits after each operation, from a
  table of the sines and cosines of the 256 angles. Mathematical libraries
  differ in the last bit of a few of them.
- The only trusted item is the call of `String::from_utf8_lossy` that reads the
  text fields of a cartridge header.

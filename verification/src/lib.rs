//! Core of a Game Boy Advance emulator: an ARM7TDMI interpreter with a
//! three-stage prefetch pipeline, the system bus that connects it to work
//! RAM, cartridge ROM and the picture processing unit, and a line-driven
//! PPU that rasterises video modes 3 and 4 into an ARGB8888 framebuffer.

pub mod bits;
pub mod errors;
pub mod memory;
pub mod cartridge;
pub mod ppu;
pub mod bus;
pub mod arm7tdmi;
pub mod instructions;
pub mod cpu;
pub mod gba;

//! Core of a classic 8-bit handheld game console emulator: an
//! instruction-accurate CPU, a memory bus with bank-switched cartridge
//! mappers, a scanline-driven pixel processing unit, a programmable timer,
//! joypad input and interrupt glue.  The host drives `cpu::Cpu::tick` in a
//! loop and reads one framebuffer per refresh out of `cpu::Cpu::render`.

pub mod bus;
pub mod cart;
pub mod cpu;
pub mod io;
pub mod modes;
pub mod opcodes;
pub mod timer;
pub mod wram;
pub mod ppu;
pub mod rtc;
pub mod sprite;
pub mod tile;
pub mod utils;

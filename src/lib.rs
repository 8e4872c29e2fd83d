//! An interpreter for a small bytecode machine with 4 KiB of memory, sixteen
//! 8-bit registers, a sixteen-entry call stack, two countdown timers, a
//! sixteen-key keypad and a 64 x 32 monochrome framebuffer.
//!
//! `machine` holds the mathematical model of the machine and of every
//! instruction; `emulator` holds the executable interpreter, whose contracts
//! are stated over that model; `laws` proves general facts about it.
pub mod emulator;
pub mod laws;
pub mod machine;

pub use emulator::Emulator;
pub use machine::EmuError;

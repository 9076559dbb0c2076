//! An interpreter for the CHIP-8 virtual machine: memory, registers, stack,
//! timers and a monochrome frame buffer, driven one instruction per cycle.

pub mod font;
pub mod instruction;
pub mod laws;
pub mod machine;
pub mod sprite;
pub mod state;

pub use machine::Chip8;

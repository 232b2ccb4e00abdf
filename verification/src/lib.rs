//! A CHIP-8 virtual machine: 4 KiB of memory, sixteen 8-bit registers, a
//! 64x32 monochrome display, a sixteen-level call stack and two timers,
//! driven one instruction at a time.

pub mod fault;
pub mod instruction;
pub mod font;
pub mod display;
pub mod state;
pub mod cpu;
mod random;
pub mod laws;

pub use cpu::Cpu;
pub use display::Display;
pub use fault::{Fault, FaultKind, LoadError};
pub use instruction::{decode, Instruction};
pub use state::Quirks;

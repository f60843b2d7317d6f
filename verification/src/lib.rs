//! A CHIP-8 instruction-set interpreter: a fetch-decode-execute engine over a
//! 4096-byte memory, sixteen 8-bit registers, a bounded call stack, two
//! 60 Hz timers, a 64x32 monochrome framebuffer and a 16-key input device.
//!
//! Every component carries a mathematical view, and the interpreter's `exec`
//! step is proved equal to a single specification function, `step_model`,
//! that defines the semantics of all opcodes.

pub mod cpu;
pub mod decode;
pub mod display;
pub mod errors;
pub mod keypad;
pub mod mem;
pub mod registers;
pub mod stack;

pub use cpu::{Cpu, CpuSnapshot, CpuState, Policy};
pub use decode::Instr;
pub use display::Display;
pub use errors::CpuError;
pub use keypad::Keypad;
pub use mem::Memory;
pub use registers::RegisterFile;
pub use stack::Stack;

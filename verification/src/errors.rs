//! The fault taxonomy of the interpreter.
//!
//! Every fault is unrecoverable for the current run: the interpreter records
//! it in its state and stops advancing until it is reset.

use vstd::prelude::*;

verus! {

/// A condition that stops the current run of the interpreter.
#[derive(Clone, Copy, Debug, PartialEq, Eq, Structural)]
pub enum CpuError {
    /// A memory address at or beyond 4096 was used, or an opcode tried to
    /// write into the interpreter-reserved region below 0x200.
    OutOfBoundsMemoryAccess,
    /// A call was made while the stack already held 16 return addresses.
    StackOverflow,
    /// A return was executed with an empty call stack.
    StackUnderflow,
    /// A program image does not fit between 0x200 and the end of memory.
    ProgramTooLarge,
    /// A 16-bit word that matches no instruction pattern was fetched.
    InvalidOpcode,
}

} // verus!

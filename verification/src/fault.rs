//! Conditions that stop the interpreter.

use vstd::prelude::*;

verus! {

/// Why an instruction could not be carried out.
#[derive(Clone, Copy, Debug, PartialEq, Eq)]
pub enum FaultKind {
    /// The program counter does not leave room for a two-byte instruction
    /// inside memory.
    FetchOutOfBounds,
    /// The instruction word has no meaning in the instruction table, or is a
    /// legacy machine-routine call.
    UnsupportedOpcode,
    /// A call was made while all sixteen stack levels were in use.
    StackOverflow,
    /// A return was made while the call stack was empty.
    StackUnderflow,
    /// The index register points, for some byte that the instruction touches,
    /// beyond the end of memory.
    MemoryOutOfBounds,
}

/// A fatal condition met by one interpreter step, with what is needed to
/// diagnose it.
#[derive(Clone, Copy, Debug, PartialEq, Eq)]
pub struct Fault {
    /// What went wrong.
    pub kind: FaultKind,
    /// The instruction word that failed; `None` if none could be fetched.
    pub opcode: Option<u16>,
    /// The program counter at which the step started.
    pub pc: u16,
}

/// Why a program image was refused.
#[derive(Clone, Copy, Debug, PartialEq, Eq)]
pub enum LoadError {
    /// The image has `len` bytes, more than fit between the program base
    /// address and the end of memory.
    ProgramTooLarge { len: usize },
}

} // verus!

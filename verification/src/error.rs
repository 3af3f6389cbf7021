//! How an operation or a cycle can end.

use vstd::prelude::*;
use crate::instructions::Instruction;

verus! {

/// A fatal condition. The machine is left as it was before the failing
/// call, so that the host can halt the session and look at it.
#[derive(Clone, Copy, Debug, PartialEq, Eq, Structural)]
pub enum Chip8Error {
    /// A return with no return address on the stack.
    StackUnderflow,
    /// A call with the stack at its limit.
    StackOverflow,
    /// An address outside memory, found before the access.
    OutOfBoundsMemoryAccess,
    /// A fetch from an odd program counter.
    MisalignedProgramCounter,
    /// A program that does not fit between the load address and the end of
    /// memory.
    OversizedRom,
}

/// How a cycle that did not fail ended.
#[derive(Clone, Copy, Debug, PartialEq, Eq, Structural)]
pub enum Outcome {
    /// The instruction was carried out.
    Executed,
    /// The instruction belongs to a group that has no operation for its
    /// secondary discriminant. Nothing was done; the host may report it.
    UnknownSecondaryOpcode(Instruction),
}

} // verus!

//! The failures an execution step can report.

use vstd::prelude::*;

verus! {

/// Why an instruction, or a step of the machine, could not be carried out.
/// A failed operation leaves the machine exactly as it was.
#[derive(Debug, Clone, Copy, PartialEq, Eq, Structural)]
pub enum Chip8Error {
    /// The instruction word selects no known operation; carries the raw word.
    UnknownInstruction(u16),
    /// A register number, address, digit, key or row count is wider than its field.
    ArgumentOutOfRange,
    /// A call was made with the call stack already at its capacity.
    StackOverflow,
    /// A return was made with an empty call stack.
    StackUnderflow,
    /// An address left the 4096-byte address space.
    MemoryOutOfBounds,
}

} // verus!

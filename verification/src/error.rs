//! The ways in which a program can bring the machine to a halt.

use vstd::prelude::*;

verus! {

/// Why an instruction could not be executed. Every one of these is fatal for
/// the session: the machine is left as it was before the instruction.
#[derive(Clone, Copy, Debug, PartialEq, Eq, Structural)]
pub enum Chip8Error {
    /// The word stands for no instruction of the machine.
    UnrecognizedInstruction(u16),
    /// The word calls a native machine code routine (`0NNN`), which this
    /// machine does not have.
    MachineCodeRoutine(u16),
    /// A return from a subroutine with no call outstanding.
    EmptyStack,
    /// The instruction needs a memory cell outside the 4096 that exist, or
    /// moves the program counter, the index register or a glyph address out
    /// of the range of its register.
    AddressOutOfRange,
}

} // verus!

//! What a version of the machine does to the register file after certain
//! instructions.

use vstd::prelude::*;
use crate::registers::Registers;

verus! {

/// A version of the machine, by what it does after a bitwise operation and
/// after a dump or load of registers.
pub trait ChipVersion {
    /// After a bitwise operation: nothing but the flag register may change.
    fn handle_vf(&self, registers: &mut Registers)
        requires
            old(registers)@.wf(),
        ensures
            final(registers)@.wf(),
            final(registers)@.i == old(registers)@.i,
            forall|r: int| 0 <= r < 15 ==> final(registers)@.v[r] == old(registers)@.v[r],
    ;

    /// After a dump or load of the registers up to `x`: nothing but the
    /// index register may change.
    fn handle_i(&self, registers: &mut Registers, x: u16)
        requires
            old(registers)@.i + x + 1 <= u16::MAX,
        ensures
            final(registers)@.v == old(registers)@.v,
    ;
}

/// The CHIP-8 of the COSMAC VIP.
pub struct Chip8Ver {}

impl ChipVersion for Chip8Ver {
    /// The flag register is reset.
    fn handle_vf(&self, registers: &mut Registers)
        ensures
            final(registers)@ == old(registers)@.set_flag(0),
    {
        registers.set_vf(0)
    }

    /// The index register moves past the registers dumped or loaded.
    fn handle_i(&self, registers: &mut Registers, x: u16)
        ensures
            final(registers)@ == old(registers)@.set_index((old(registers)@.i + x + 1) as u16),
    {
        registers.i += x + 1
    }
}

} // verus!

//! The register file: sixteen 8-bit general registers `V0`..`VF` and the
//! 16-bit index register `I`.

use vstd::prelude::*;
use crate::bit_ops::to_usize;

verus! {

/// The number of the register that instructions use as their flag output.
pub const FLAG_REGISTER: u8 = 0xf;

/// The register file as a mathematical value.
#[verifier::ext_equal]
pub struct RegisterFile {
    /// The general registers, `v[0]` to `v[15]`.
    pub v: Seq<u8>,
    /// The index register.
    pub i: u16,
}

impl RegisterFile {
    /// There are exactly sixteen general registers.
    pub open spec fn wf(self) -> bool {
        self.v.len() == 16
    }

    /// The file with register `x` holding `val`.
    pub open spec fn set(self, x: int, val: u8) -> RegisterFile {
        RegisterFile { v: self.v.update(x, val), i: self.i }
    }

    /// The file with the flag register holding `val`.
    pub open spec fn set_flag(self, val: u8) -> RegisterFile {
        self.set(FLAG_REGISTER as int, val)
    }

    /// The file with the index register holding `i`.
    pub open spec fn set_index(self, i: u16) -> RegisterFile {
        RegisterFile { v: self.v, i }
    }
}

/// The register file of one machine.
pub struct Registers {
    pub(crate) registers: [u8; 16],
    pub i: u16,
}

impl View for Registers {
    type V = RegisterFile;

    open(crate) spec fn view(&self) -> RegisterFile {
        RegisterFile { v: self.registers@, i: self.i }
    }
}

impl Registers {
    /// All registers zero.
    pub fn default() -> (r: Self)
        ensures
            r@.wf(),
            r@.i == 0,
            forall|x: int| 0 <= x < 16 ==> r@.v[x] == 0,
    {
        Registers { registers: [0;16], i: 0 }
    }

    /// The value of register `x`.
    pub fn get(&self, x: u8) -> (val: u8)
        requires
            x < 16,
        ensures
            val == self@.v[x as int],
    {
        self.registers[to_usize(x).unwrap()]
    }

    /// Stores `val` in register `x`.
    pub fn set(&mut self, x: u8, val: u8)
        requires
            x < 16,
        ensures
            final(self)@ == old(self)@.set(x as int, val),
    {
        self.registers[to_usize(x).unwrap()] = val;
    }

    /// Replaces register `x` by its bitwise or with register `y`.
    pub fn or(&mut self, x: u8, y: u8)
        requires
            x < 16,
            y < 16,
        ensures
            final(self)@ == old(self)@.set(x as int, old(self)@.v[x as int] | old(self)@.v[y as int]),
    {
        let val = self.get(x) | self.get(y);
        self.set(x, val);
    }

    /// Replaces register `x` by its bitwise and with register `y`.
    pub fn and(&mut self, x: u8, y: u8)
        requires
            x < 16,
            y < 16,
        ensures
            final(self)@ == old(self)@.set(x as int, old(self)@.v[x as int] & old(self)@.v[y as int]),
    {
        let val = self.get(x) & self.get(y);
        self.set(x, val);
    }

    /// Replaces register `x` by its bitwise exclusive or with register `y`.
    pub fn xor(&mut self, x: u8, y: u8)
        requires
            x < 16,
            y < 16,
        ensures
            final(self)@ == old(self)@.set(x as int, old(self)@.v[x as int] ^ old(self)@.v[y as int]),
    {
        let val = self.get(x) ^ self.get(y);
        self.set(x, val);
    }

    /// Shifts register `x` left by `val` bits; the bits shifted out are lost.
    pub fn shift_left(&mut self, x: u8, val: u8)
        requires
            x < 16,
            val < 8,
        ensures
            final(self)@ == old(self)@.set(x as int, old(self)@.v[x as int] << val),
    {
        let shifted = self.get(x) << val;
        self.set(x, shifted);
    }

    /// Shifts register `x` right by `val` bits; the bits shifted out are lost.
    pub fn shift_right(&mut self, x: u8, val: u8)
        requires
            x < 16,
            val < 8,
        ensures
            final(self)@ == old(self)@.set(x as int, old(self)@.v[x as int] >> val),
    {
        let shifted = self.get(x) >> val;
        self.set(x, shifted);
    }

    /// Stores `val` in the flag register `VF`.
    pub fn set_vf(&mut self, val: u8)
        ensures
            final(self)@ == old(self)@.set_flag(val),
    {
        self.set(FLAG_REGISTER, val);
    }
}

} // verus!

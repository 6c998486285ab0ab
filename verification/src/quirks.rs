//! The behaviours in which the dialects of the machine differ, and the three
//! historical combinations of them.

use vstd::prelude::*;
use crate::chip8::{CH8_HEIGHT, CH8_WIDTH, VBLank};
use crate::registers::Registers;

verus! {

/// The dialect of the CHIP-8 of the COSMAC VIP.
pub open spec fn spec_ch8_quirks() -> Quirks {
    Quirks {
        vf_reset: true,
        memory: true,
        shifting: false,
        jumping: false,
        display_wait: true,
        clipping: true,
    }
}

/// The dialect of SUPER-CHIP.
pub open spec fn spec_schip_quirks() -> Quirks {
    Quirks {
        vf_reset: false,
        memory: false,
        shifting: true,
        jumping: true,
        display_wait: false,
        clipping: true,
    }
}

/// The dialect of XO-CHIP.
pub open spec fn spec_xochip_quirks() -> Quirks {
    Quirks {
        vf_reset: false,
        memory: true,
        shifting: false,
        jumping: false,
        display_wait: false,
        clipping: false,
    }
}

/// The dialect of the CHIP-8 of the COSMAC VIP.
#[verifier::when_used_as_spec(spec_ch8_quirks)]
pub fn ch8_quirks() -> (quirks: Quirks)
    ensures
        quirks == spec_ch8_quirks(),
{
    Quirks {
        vf_reset: true,
        memory: true,
        shifting: false,
        jumping: false,
        display_wait: true,
        clipping: true,
    }
}

/// The dialect of SUPER-CHIP.
#[verifier::when_used_as_spec(spec_schip_quirks)]
pub fn schip_quirks() -> (quirks: Quirks)
    ensures
        quirks == spec_schip_quirks(),
{
    Quirks {
        vf_reset: false,
        memory: false,
        shifting: true,
        jumping: true,
        display_wait: false,
        clipping: true,
    }
}

/// The dialect of XO-CHIP.
#[verifier::when_used_as_spec(spec_xochip_quirks)]
pub fn xochip_quirks() -> (quirks: Quirks)
    ensures
        quirks == spec_xochip_quirks(),
{
    Quirks {
        vf_reset: false,
        memory: true,
        shifting: false,
        jumping: false,
        display_wait: false,
        clipping: false,
    }
}

/// Which of the dialect-dependent behaviours are active.
#[derive(Clone, Copy, Debug, PartialEq, Eq, Structural)]
pub struct Quirks {
    /// The bitwise or, and and exclusive-or instructions reset the flag
    /// register.
    pub vf_reset: bool,
    /// The register dump and load instructions advance the index register.
    pub memory: bool,
    /// The shift instructions shift the destination register in place. When
    /// unset they shift the value of the source register.
    pub shifting: bool,
    /// The jump with offset adds the register named by the leading nibble of
    /// the address. When unset it adds register 0.
    pub jumping: bool,
    /// A draw waits for the vertical blank.
    pub display_wait: bool,
    /// Sprite pixels that fall off the grid are dropped. When unset they
    /// wrap around to the opposite edge.
    pub clipping: bool,
}

impl Quirks {
    /// What the vertical-blank state becomes when a draw is attempted.
    pub open spec fn next_vblank(self, vblank: VBLank) -> VBLank {
        if !self.display_wait {
            vblank
        } else {
            match vblank {
                VBLank::Free => VBLank::WaitForDraw,
                VBLank::WaitForDraw => VBLank::WaitForInterrupt,
                VBLank::WaitForInterrupt => VBLank::WaitForInterrupt,
            }
        }
    }

    /// Whether a draw attempted in state `vblank` has to wait.
    pub open spec fn must_wait(self, vblank: VBLank) -> bool {
        self.display_wait && vblank != VBLank::Free
    }

    /// Where the sprite pixel `pix` columns right of `vx` and `row` rows
    /// below `vy` lands, as (column, row).
    pub open spec fn pixel_position(self, vx: int, pix: int, vy: int, row: int) -> (int, int) {
        if self.clipping {
            (vx + pix, vy + row)
        } else {
            ((vx + pix) % (CH8_WIDTH as int), (vy + row) % (CH8_HEIGHT as int))
        }
    }

    /// Resets the flag register where the dialect does so after a bitwise
    /// operation.
    pub fn vf_reset(&self, registers: &mut Registers)
        ensures
            final(registers)@ == if self.vf_reset {
                old(registers)@.set_flag(0)
            } else {
                old(registers)@
            },
    {
        if self.vf_reset {
            registers.set_vf(0)
        }
    }

    /// Advances the index register by `x + 1` where the dialect does so
    /// after a register dump or load up to register `x`.
    pub fn memory(&self, registers: &mut Registers, x: u16)
        requires
            self.memory ==> old(registers)@.i + x + 1 <= u16::MAX,
        ensures
            final(registers)@ == if self.memory {
                old(registers)@.set_index((old(registers)@.i + x + 1) as u16)
            } else {
                old(registers)@
            },
    {
        if self.memory {
            registers.i += x + 1
        }
    }

    /// Copies register `y` to register `x` where the dialect shifts the
    /// value of the source register.
    pub fn shifting(&self, registers: &mut Registers, x: u8, y: u8)
        requires
            x < 16,
            y < 16,
        ensures
            final(registers)@ == if self.shifting {
                old(registers)@
            } else {
                old(registers)@.set(x as int, old(registers)@.v[y as int])
            },
    {
        if !self.shifting {
            let val = registers.get(y);
            registers.set(x, val)
        }
    }

    /// The offset of a jump with offset: register `n` where the dialect
    /// takes it from the address's leading nibble, else register 0.
    pub fn jumping(&self, registers: &mut Registers, n: u8) -> (offset: u8)
        requires
            n < 16,
        ensures
            final(registers)@ == old(registers)@,
            offset == if self.jumping {
                old(registers)@.v[n as int]
            } else {
                old(registers)@.v[0]
            },
    {
        if self.jumping {
            registers.get(n)
        } else {
            registers.get(0)
        }
    }

    /// Decides whether a draw has to wait for the vertical blank, and moves
    /// the vertical-blank state on. Without the display wait no draw waits
    /// and the state is left alone. With it, the first draw after a vertical
    /// blank goes ahead, and every further one waits.
    pub fn display_wait(&self, vblank: &mut VBLank) -> (wait: bool)
        ensures
            wait == self.must_wait(*old(vblank)),
            *final(vblank) == self.next_vblank(*old(vblank)),
    {
        if !self.display_wait {
            return false;
        }
        match vblank {
            VBLank::WaitForDraw => {
                *vblank = VBLank::WaitForInterrupt;
                true
            },
            VBLank::WaitForInterrupt => { true },
            VBLank::Free => {
                *vblank = VBLank::WaitForDraw;
                false
            },
        }
    }

    /// The position of the sprite pixel `pix` columns right of `vx` and
    /// `row` rows below `vy`, as (column, row): as it is where pixels off
    /// the grid are dropped, wrapped into the grid where they are not.
    pub fn clipping(&self, vx: u8, pix: u8, vy: u8, row: u8) -> (position: (u8, u8))
        requires
            vx + pix <= u8::MAX,
            vy + row <= u8::MAX,
        ensures
            (position.0 as int, position.1 as int) == self.pixel_position(
                vx as int,
                pix as int,
                vy as int,
                row as int,
            ),
    {
        if self.clipping {
            (vx + pix, vy + row)
        } else {
            ((vx + pix) % CH8_WIDTH, (vy + row) % CH8_HEIGHT)
        }
    }
}

} // verus!

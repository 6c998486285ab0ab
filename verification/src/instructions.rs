//! The instructions, one method of the engine each. A method whose
//! instruction can fail returns the error and then leaves the machine as it
//! was.

use vstd::prelude::*;
use crate::bit_ops::{bit_at, get_bit_at, to_address, to_u8};
use crate::chip8::{Chip8, VBLank, FONT_POINTER};
use crate::error::Chip8Error;
use crate::machine::{stepped, Machine};

verus! {

/// The low eight bits of a sum of two bytes are the sum modulo 256, and its
/// ninth bit says whether the sum went beyond a byte.
proof fn lemma_sum_of_bytes(sum: u16)
    requires
        sum < 512,
    ensures
        (sum as u8) == sum % 256,
        bit_at(sum, 8) == (sum > 255),
{
    assert((sum as u8) == sum % 256) by (bit_vector);
    assert(sum < 512 ==> (((sum >> 8u8) & 1 == 1) == (sum > 255))) by (bit_vector);
}

/// Shifting a byte by one bit halves or doubles it, and its lowest and
/// highest bit are its remainder by 2 and its quotient by 128.
pub proof fn lemma_shift_of_byte(val: u8)
    ensures
        val >> 1u8 == val / 2,
        val << 1u8 == (val * 2) % 256,
        bit_at(val as u16, 0) == (val % 2 == 1),
        bit_at(val as u16, 7) == (val / 128 == 1),
{
    assert(val >> 1u8 == val / 2) by (bit_vector);
    assert(val << 1u8 == (val * 2) % 256) by (bit_vector);
    assert((((val as u16) >> 0u8) & 1 == 1) == (val % 2 == 1)) by (bit_vector);
    assert((((val as u16) >> 7u8) & 1 == 1) == (val / 128 == 1)) by (bit_vector);
}

impl Chip8 {
    /// Moves the program counter past the next instruction.
    pub fn skip(&mut self) -> (res: Result<(), Chip8Error>)
        ensures
            stepped(old(self)@, old(self)@.skip(), res, final(self)@),
    {
        if self.pc > u16::MAX - 2 {
            return Err(Chip8Error::AddressOutOfRange);
        }
        self.pc += 2;
        Ok(())
    }

    /// `00E0`: switches every pixel off.
    pub fn clear_display(&mut self)
        ensures
            final(self)@ == old(self)@.clear_display(),
    {
        self.vram = [[false;64];32];
        self.vram_changed = true;
        assert(self@.pixels =~~= old(self)@.clear_display().pixels);
    }

    /// `ANNN`: sets the index register to the address made of the three
    /// nibbles.
    pub fn set_i(&mut self, n1: u8, n2: u8, n3: u8)
        requires
            n1 < 16,
            n2 < 16,
            n3 < 16,
        ensures
            final(self)@ == old(self)@.set_i((256 * n1 + 16 * n2 + n3) as u16),
    {
        let addr = to_address(n1, n2, n3);
        self.registers.i = addr;
    }

    /// `6XNN`: sets register `x` to the byte made of the two nibbles.
    pub fn set_register_to(&mut self, x: u8, n1: u8, n2: u8)
        requires
            x < 16,
            n1 < 16,
            n2 < 16,
        ensures
            final(self)@ == old(self)@.set_register_to(x as int, (16 * n1 + n2) as u8),
    {
        let val = to_u8(n1, n2);
        self.registers.set(x, val);
    }

    /// `7XNN`: adds the byte made of the two nibbles to register `x`. The
    /// sum wraps around, and the flag register is not touched.
    pub fn add_value_to_register(&mut self, x: u8, n1: u8, n2: u8)
        requires
            x < 16,
            n1 < 16,
            n2 < 16,
        ensures
            final(self)@ == old(self)@.add_value_to_register(x as int, (16 * n1 + n2) as u8),
    {
        let val = to_u8(n1, n2) as u16;
        let res = self.registers.get(x) as u16 + val;
        proof {
            lemma_sum_of_bytes(res);
        }
        self.registers.set(x, #[verifier::truncate] (res as u8));
    }

    /// `1NNN`: jumps to the address made of the three nibbles.
    pub fn jump(&mut self, n1: u8, n2: u8, n3: u8)
        requires
            n1 < 16,
            n2 < 16,
            n3 < 16,
        ensures
            final(self)@ == old(self)@.jump((256 * n1 + 16 * n2 + n3) as u16),
    {
        let addr = to_address(n1, n2, n3);
        self.pc = addr;
    }

    /// `8XY0`: copies register `y` to register `x`.
    pub fn set_x_to_y(&mut self, x: u8, y: u8)
        requires
            x < 16,
            y < 16,
        ensures
            final(self)@ == old(self)@.set_x_to_y(x as int, y as int),
    {
        let val = self.registers.get(y);
        self.registers.set(x, val);
    }

    /// `8XY1`: replaces register `x` by its bitwise or with register `y`,
    /// and resets the flag register where the dialect does so.
    pub fn set_x_to_y_or(&mut self, x: u8, y: u8)
        requires
            x < 16,
            y < 16,
        ensures
            final(self)@ == old(self)@.set_x_to_y_or(x as int, y as int),
    {
        self.registers.or(x, y);
        self.config.quirks.vf_reset(&mut self.registers);
    }

    /// `8XY2`: replaces register `x` by its bitwise and with register `y`,
    /// and resets the flag register where the dialect does so.
    pub fn set_x_to_y_and(&mut self, x: u8, y: u8)
        requires
            x < 16,
            y < 16,
        ensures
            final(self)@ == old(self)@.set_x_to_y_and(x as int, y as int),
    {
        self.registers.and(x, y);
        self.config.quirks.vf_reset(&mut self.registers);
    }

    /// `8XY3`: replaces register `x` by its bitwise exclusive or with
    /// register `y`, and resets the flag register where the dialect does so.
    pub fn set_x_to_y_xor(&mut self, x: u8, y: u8)
        requires
            x < 16,
            y < 16,
        ensures
            final(self)@ == old(self)@.set_x_to_y_xor(x as int, y as int),
    {
        self.registers.xor(x, y);
        self.config.quirks.vf_reset(&mut self.registers);
    }

    /// `8XY4`: adds register `y` to register `x`. The sum wraps around; the
    /// flag register tells whether it did so, going by the ninth bit of the
    /// full sum.
    pub fn add_y_to_x(&mut self, x: u8, y: u8)
        requires
            x < 16,
            y < 16,
        ensures
            final(self)@ == old(self)@.add_y_to_x(x as int, y as int),
    {
        let res = self.registers.get(x) as u16 + self.registers.get(y) as u16;
        proof {
            lemma_sum_of_bytes(res);
        }
        self.registers.set(x, #[verifier::truncate] (res as u8));
        self.registers.set_vf(
            if get_bit_at(res, 8) {
                1
            } else {
                0
            },
        );
    }

    /// `8XY5`: subtracts register `y` from register `x`. The difference
    /// wraps around; the flag register is 1 where it did not.
    pub fn subtract_y_from_x(&mut self, x: u8, y: u8)
        requires
            x < 16,
            y < 16,
        ensures
            final(self)@ == old(self)@.subtract_y_from_x(x as int, y as int),
    {
        let minuend = self.registers.get(x);
        let subtrahend = self.registers.get(y);
        let no_borrow: u8 = if minuend >= subtrahend {
            1
        } else {
            0
        };
        let res = minuend.wrapping_sub(subtrahend);
        self.registers.set(x, res);
        self.registers.set_vf(no_borrow);
    }

    /// `8XY6`: shifts right by one bit, into register `x`, the value of
    /// register `x` or of register `y` as the dialect has it. The flag
    /// register takes the bit shifted out.
    pub fn shift_right(&mut self, x: u8, y: u8)
        requires
            x < 16,
            y < 16,
        ensures
            final(self)@ == old(self)@.shift_right(x as int, y as int),
    {
        self.config.quirks.shifting(&mut self.registers, x, y);
        let source = self.registers.get(x);
        proof {
            lemma_shift_of_byte(source);
        }
        let lsb = get_bit_at(source as u16, 0);
        self.registers.shift_right(x, 1);
        self.registers.set_vf(
            if lsb {
                1
            } else {
                0
            },
        );
    }

    /// `8XY7`: sets register `x` to register `y` minus register `x`. The
    /// difference wraps around; the flag register is 1 where it did not.
    pub fn subtract_x_from_y_and_assign_to_x(&mut self, x: u8, y: u8)
        requires
            x < 16,
            y < 16,
        ensures
            final(self)@ == old(self)@.subtract_x_from_y_and_assign_to_x(x as int, y as int),
    {
        let minuend = self.registers.get(y);
        let subtrahend = self.registers.get(x);
        let no_borrow: u8 = if minuend >= subtrahend {
            1
        } else {
            0
        };
        let res = minuend.wrapping_sub(subtrahend);
        self.registers.set(x, res);
        self.registers.set_vf(no_borrow);
    }

    /// `8XYE`: shifts left by one bit, into register `x`, the value of
    /// register `x` or of register `y` as the dialect has it. The flag
    /// register takes the bit shifted out.
    pub fn shift_left(&mut self, x: u8, y: u8)
        requires
            x < 16,
            y < 16,
        ensures
            final(self)@ == old(self)@.shift_left(x as int, y as int),
    {
        self.config.quirks.shifting(&mut self.registers, x, y);
        let source = self.registers.get(x);
        proof {
            lemma_shift_of_byte(source);
        }
        let msb = get_bit_at(source as u16, 7);
        self.registers.shift_left(x, 1);
        self.registers.set_vf(
            if msb {
                1
            } else {
                0
            },
        );
    }

    /// `3XNN`: skips the next instruction where register `x` holds the byte
    /// made of the two nibbles.
    pub fn skip_if_equal(&mut self, x: u8, n1: u8, n2: u8) -> (res: Result<(), Chip8Error>)
        requires
            x < 16,
            n1 < 16,
            n2 < 16,
        ensures
            stepped(
                old(self)@,
                old(self)@.skip_if_equal(x as int, (16 * n1 + n2) as u8),
                res,
                final(self)@,
            ),
    {
        let val = to_u8(n1, n2);
        if self.registers.get(x) == val {
            self.skip()
        } else {
            Ok(())
        }
    }

    /// `4XNN`: skips the next instruction where register `x` does not hold
    /// the byte made of the two nibbles.
    pub fn skip_if_not_equal(&mut self, x: u8, n1: u8, n2: u8) -> (res: Result<(), Chip8Error>)
        requires
            x < 16,
            n1 < 16,
            n2 < 16,
        ensures
            stepped(
                old(self)@,
                old(self)@.skip_if_not_equal(x as int, (16 * n1 + n2) as u8),
                res,
                final(self)@,
            ),
    {
        let val = to_u8(n1, n2);
        if self.registers.get(x) != val {
            self.skip()
        } else {
            Ok(())
        }
    }

    /// `5XY0`: skips the next instruction where registers `x` and `y` hold
    /// the same value.
    pub fn skip_if_registers_equal(&mut self, x: u8, y: u8) -> (res: Result<(), Chip8Error>)
        requires
            x < 16,
            y < 16,
        ensures
            stepped(
                old(self)@,
                old(self)@.skip_if_registers_equal(x as int, y as int),
                res,
                final(self)@,
            ),
    {
        if self.registers.get(x) == self.registers.get(y) {
            self.skip()
        } else {
            Ok(())
        }
    }

    /// `9XY0`: skips the next instruction where registers `x` and `y` hold
    /// different values.
    pub fn skip_if_registers_not_equal(&mut self, x: u8, y: u8) -> (res: Result<(), Chip8Error>)
        requires
            x < 16,
            y < 16,
        ensures
            stepped(
                old(self)@,
                old(self)@.skip_if_registers_not_equal(x as int, y as int),
                res,
                final(self)@,
            ),
    {
        if self.registers.get(x) != self.registers.get(y) {
            self.skip()
        } else {
            Ok(())
        }
    }

    /// `BNNN`: jumps to the address made of the three nibbles plus the
    /// value of a register: the one that `n1` names where the dialect says
    /// so, else register 0.
    pub fn jump_plus_v0(&mut self, n1: u8, n2: u8, n3: u8)
        requires
            n1 < 16,
            n2 < 16,
            n3 < 16,
        ensures
            final(self)@ == old(self)@.jump_plus_v0(n1 as int, (256 * n1 + 16 * n2 + n3) as u16),
    {
        let addr = to_address(n1, n2, n3);
        self.pc = addr + self.config.quirks.jumping(&mut self.registers, n1) as u16;
    }

    /// `FX07`: copies the delay timer to register `x`.
    pub fn set_vx_to_delay(&mut self, x: u8)
        requires
            x < 16,
        ensures
            final(self)@ == old(self)@.set_vx_to_delay(x as int),
    {
        self.registers.set(x, self.delay_timer);
    }

    /// `FX15`: copies register `x` to the delay timer.
    pub fn set_delay_timer(&mut self, x: u8)
        requires
            x < 16,
        ensures
            final(self)@ == old(self)@.set_delay_timer(x as int),
    {
        self.delay_timer = self.registers.get(x);
    }

    /// `FX18`: copies register `x` to the sound timer.
    pub fn set_sound_timer(&mut self, x: u8)
        requires
            x < 16,
        ensures
            final(self)@ == old(self)@.set_sound_timer(x as int),
    {
        self.sound_timer = self.registers.get(x);
    }

    /// `FX1E`: adds register `x` to the index register. Fails where the
    /// index register cannot hold the sum.
    pub fn add_vx_to_i(&mut self, x: u8) -> (res: Result<(), Chip8Error>)
        requires
            x < 16,
        ensures
            stepped(old(self)@, old(self)@.add_vx_to_i(x as int), res, final(self)@),
    {
        let val = self.registers.get(x) as u16;
        if self.registers.i > u16::MAX - val {
            return Err(Chip8Error::AddressOutOfRange);
        }
        self.registers.i += val;
        Ok(())
    }

    /// `2NNN`: calls the subroutine at the address made of the three
    /// nibbles.
    pub fn call(&mut self, n1: u8, n2: u8, n3: u8)
        requires
            n1 < 16,
            n2 < 16,
            n3 < 16,
        ensures
            final(self)@ == old(self)@.call((256 * n1 + 16 * n2 + n3) as u16),
    {
        let addr = to_address(n1, n2, n3);
        self.stack.push_front(self.pc);
        self.pc = addr;
    }

    /// `00EE`: returns from a subroutine. Fails where no call is
    /// outstanding.
    pub fn return_sub(&mut self) -> (res: Result<(), Chip8Error>)
        ensures
            stepped(old(self)@, old(self)@.return_sub(), res, final(self)@),
    {
        match self.stack.pop_front() {
            Some(addr) => {
                self.pc = addr;
                Ok(())
            },
            None => Err(Chip8Error::EmptyStack),
        }
    }

    /// `EX9E`: skips the next instruction where `key` is the key that
    /// register `x` names. With no key pressed it does not skip.
    pub fn skip_if_pressed(&mut self, x: u8, key: Option<u8>) -> (res: Result<(), Chip8Error>)
        requires
            x < 16,
        ensures
            stepped(old(self)@, old(self)@.skip_if_pressed(x as int, key), res, final(self)@),
    {
        if let Some(k) = key {
            if k == self.registers.get(x) {
                return self.skip();
            }
        }
        Ok(())
    }

    /// `EXA1`: skips the next instruction unless `key` is the key that
    /// register `x` names. With no key pressed it skips.
    pub fn skip_if_not_pressed(&mut self, x: u8, key: Option<u8>) -> (res: Result<(), Chip8Error>)
        requires
            x < 16,
        ensures
            stepped(old(self)@, old(self)@.skip_if_not_pressed(x as int, key), res, final(self)@),
    {
        if let Some(k) = key {
            if k == self.registers.get(x) {
                return Ok(());
            }
        }
        self.skip()
    }

    /// `FX33`: writes the hundreds, tens and ones of register `x` to the
    /// three cells at the index register. Fails where one of them does not
    /// exist.
    pub fn binary_coded_decimal(&mut self, x: u8) -> (res: Result<(), Chip8Error>)
        requires
            x < 16,
        ensures
            stepped(old(self)@, old(self)@.binary_coded_decimal(x as int), res, final(self)@),
    {
        let i = self.registers.i;
        if i >= 4096 - 2 {
            return Err(Chip8Error::AddressOutOfRange);
        }
        let mut curr_val = self.registers.get(x);
        let binary_hundred = curr_val / 100;
        self.memory[i as usize] = binary_hundred;
        curr_val -= binary_hundred * 100;

        let binary_tens = curr_val / 10;
        self.memory[(i + 1) as usize] = binary_tens;
        curr_val -= binary_tens * 10;

        self.memory[(i + 2) as usize] = curr_val;
        Ok(())
    }

    /// `FX55`: writes registers 0 to `x` to the cells at the index
    /// register, and moves the index register past them where the dialect
    /// does so. Fails where one of the cells does not exist.
    pub fn reg_dump(&mut self, x: u8) -> (res: Result<(), Chip8Error>)
        requires
            x < 16,
        ensures
            stepped(old(self)@, old(self)@.reg_dump(x as int), res, final(self)@),
    {
        let i = self.registers.i;
        if i >= 4096 - x as u16 {
            return Err(Chip8Error::AddressOutOfRange);
        }
        let mut n: u8 = 0;
        while n <= x
            invariant
                n <= x + 1,
                x < 16,
                i == old(self)@.registers.i,
                i + x < 4096,
                self@ == (Machine {
                    memory: Seq::new(
                        4096,
                        |a: int|
                            if i <= a < i + n {
                                old(self)@.v(a - i)
                            } else {
                                old(self)@.memory[a]
                            },
                    ),
                    ..old(self)@
                }),
            decreases x + 1 - n,
        {
            self.memory[(i + n as u16) as usize] = self.registers.get(n);
            n += 1;
        }
        self.config.quirks.memory(&mut self.registers, x as u16);
        assert(self@.memory =~= old(self)@.reg_dump(x as int)->Ok_0.memory);
        Ok(())
    }

    /// `FX65`: reads registers 0 to `x` from the cells at the index
    /// register, and moves the index register past them where the dialect
    /// does so. Fails where one of the cells does not exist.
    pub fn reg_load(&mut self, x: u8) -> (res: Result<(), Chip8Error>)
        requires
            x < 16,
        ensures
            stepped(old(self)@, old(self)@.reg_load(x as int), res, final(self)@),
    {
        let i = self.registers.i;
        if i >= 4096 - x as u16 {
            return Err(Chip8Error::AddressOutOfRange);
        }
        let mut n: u8 = 0;
        while n <= x
            invariant
                n <= x + 1,
                x < 16,
                i == old(self)@.registers.i,
                i + x < 4096,
                self@ == (Machine {
                    registers: crate::registers::RegisterFile {
                        v: Seq::new(
                            16,
                            |r: int|
                                if r < n {
                                    old(self)@.memory[i + r]
                                } else {
                                    old(self)@.v(r)
                                },
                        ),
                        i,
                    },
                    ..old(self)@
                }),
            decreases x + 1 - n,
        {
            self.registers.set(n, self.memory[(i + n as u16) as usize]);
            n += 1;
        }
        self.config.quirks.memory(&mut self.registers, x as u16);
        assert(self@.registers.v =~= old(self)@.reg_load(x as int)->Ok_0.registers.v);
        Ok(())
    }

    /// `CXNN`: sets register `x` to `random` masked by the byte made of the
    /// two nibbles.
    pub fn set_vx_to_rand_and_nn(&mut self, x: u8, n1: u8, n2: u8, random: u8)
        requires
            x < 16,
            n1 < 16,
            n2 < 16,
        ensures
            final(self)@ == old(self)@.set_vx_to_rand_and_nn(
                x as int,
                (16 * n1 + n2) as u8,
                random,
            ),
    {
        let val = to_u8(n1, n2);
        self.registers.set(x, random & val);
    }

    /// `FX0A`: makes the machine wait for a key, which is to go to register
    /// `x`.
    pub fn get_key(&mut self, x: u8)
        requires
            x < 16,
        ensures
            final(self)@ == old(self)@.get_key(x as int),
    {
        self.blocked_key_vx = x;
        self.blocked = true;
    }

    /// `FX29`: sets the index register to the address of the glyph for the
    /// value of register `x`. Fails where that address does not fit into a
    /// byte.
    pub fn set_i_to_sprite(&mut self, x: u8) -> (res: Result<(), Chip8Error>)
        requires
            x < 16,
        ensures
            stepped(old(self)@, old(self)@.set_i_to_sprite(x as int), res, final(self)@),
    {
        let character = self.registers.get(x);
        if character > u8::MAX / 5 {
            return Err(Chip8Error::AddressOutOfRange);
        }
        self.registers.i = FONT_POINTER + (character * 5) as u16;
        Ok(())
    }

    /// Delivers the key that the machine waits for: it goes to the register
    /// that the wait named, and the machine no longer waits.
    pub fn set_key(&mut self, key: u8)
        requires
            old(self)@.wf(),
        ensures
            final(self)@ == old(self)@.set_key(key),
            final(self)@.wf(),
    {
        self.registers.set(self.blocked_key_vx, key);
        self.blocked = false;
    }

    /// Takes the delay timer down by one, unless it is zero.
    pub fn decrement_delay_timer(&mut self)
        ensures
            final(self)@ == (Machine {
                delay_timer: old(self)@.decrement_timers().delay_timer,
                ..old(self)@
            }),
    {
        self.delay_timer = self.delay_timer.saturating_sub(1)
    }

    /// Takes the sound timer down by one, unless it is zero.
    pub fn decrement_sound_timer(&mut self)
        ensures
            final(self)@ == (Machine {
                sound_timer: old(self)@.decrement_timers().sound_timer,
                ..old(self)@
            }),
    {
        self.sound_timer = self.sound_timer.saturating_sub(1)
    }

    /// Takes both timers down by one, unless they are zero. To be called
    /// once per frame.
    pub fn decrement_timers(&mut self)
        ensures
            final(self)@ == old(self)@.decrement_timers(),
    {
        self.decrement_delay_timer();
        self.decrement_sound_timer();
    }

    /// Tells the machine of the vertical blank: a draw that was put off may
    /// go ahead. To be called once per frame.
    pub fn handle_vblank(&mut self)
        ensures
            final(self)@ == old(self)@.handle_vblank(),
    {
        if let VBLank::WaitForInterrupt = self.vblank {
            self.vblank = VBLank::Free
        }
    }
}

} // verus!

//! The machine as a mathematical value, and what each instruction makes of
//! it. The engine's contracts are stated over this model.

use vstd::prelude::*;
use crate::bit_ops::bit_at;
use crate::chip8::{Chip8Vram, Config, VBLank, FONT};
use crate::error::Chip8Error;
use crate::registers::RegisterFile;

verus! {

/// The whole state of one machine.
#[verifier::ext_equal]
pub struct Machine {
    /// The general registers and the index register.
    pub registers: RegisterFile,
    /// The 4096 memory cells.
    pub memory: Seq<u8>,
    /// The return addresses of the calls outstanding, the latest first.
    pub stack: Seq<u16>,
    /// The delay timer.
    pub delay_timer: u8,
    /// The sound timer.
    pub sound_timer: u8,
    /// The program counter.
    pub pc: u16,
    /// The pixel grid: `pixels[y][x]` is the pixel in row `y`, column `x`.
    pub pixels: Seq<Seq<bool>>,
    /// Whether a pixel was written since the renderer last took the grid.
    pub vram_changed: bool,
    /// Whether the machine waits for a key.
    pub blocked: bool,
    /// The register that the awaited key goes to.
    pub blocked_key_vx: u8,
    /// The configuration that the machine was made with.
    pub config: Config,
    /// How far the draw instruction is from the next vertical blank.
    pub vblank: VBLank,
}

/// What an instruction makes of a machine: the machine after it, or the
/// reason why it cannot be executed.
pub type Step = Result<Machine, Chip8Error>;

/// An instruction, taken apart: `x` and `y` number registers, `addr` is an
/// address of twelve bits, `value` and `mask` are bytes, and `n` is the
/// number of rows of a sprite.
pub enum Instruction {
    /// `00E0`
    ClearDisplay,
    /// `00EE`
    ReturnSub,
    /// `1NNN`
    Jump { addr: u16 },
    /// `2NNN`
    Call { addr: u16 },
    /// `3XNN`
    SkipIfEqual { x: int, value: u8 },
    /// `4XNN`
    SkipIfNotEqual { x: int, value: u8 },
    /// `5XY0`
    SkipIfRegistersEqual { x: int, y: int },
    /// `6XNN`
    SetRegisterTo { x: int, value: u8 },
    /// `7XNN`
    AddValueToRegister { x: int, value: u8 },
    /// `8XY0`
    SetXToY { x: int, y: int },
    /// `8XY1`
    SetXToYOr { x: int, y: int },
    /// `8XY2`
    SetXToYAnd { x: int, y: int },
    /// `8XY3`
    SetXToYXor { x: int, y: int },
    /// `8XY4`
    AddYToX { x: int, y: int },
    /// `8XY5`
    SubtractYFromX { x: int, y: int },
    /// `8XY6`
    ShiftRight { x: int, y: int },
    /// `8XY7`
    SubtractXFromY { x: int, y: int },
    /// `8XYE`
    ShiftLeft { x: int, y: int },
    /// `9XY0`
    SkipIfRegistersNotEqual { x: int, y: int },
    /// `ANNN`
    SetI { addr: u16 },
    /// `BNNN`, with `n1` the leading nibble of the address
    JumpPlusV0 { n1: int, addr: u16 },
    /// `CXNN`
    Random { x: int, mask: u8 },
    /// `DXYN`
    Draw { x: int, y: int, n: int },
    /// `EX9E`
    SkipIfPressed { x: int },
    /// `EXA1`
    SkipIfNotPressed { x: int },
    /// `FX07`
    SetVxToDelay { x: int },
    /// `FX0A`
    GetKey { x: int },
    /// `FX15`
    SetDelayTimer { x: int },
    /// `FX18`
    SetSoundTimer { x: int },
    /// `FX1E`
    AddVxToI { x: int },
    /// `FX29`
    SetIToSprite { x: int },
    /// `FX33`
    BinaryCodedDecimal { x: int },
    /// `FX55`
    RegDump { x: int },
    /// `FX65`
    RegLoad { x: int },
}

/// The instruction that a word stands for. The word is taken apart into
/// four nibbles, the first of which, with the last or the last two where
/// that is not enough, names the instruction. A word that stands for none is
/// an error, and so is one that calls a machine code routine: any with the
/// first nibble 0 but `00E0` and `00EE`.
pub open spec fn decode(word: u16) -> Result<Instruction, Chip8Error> {
    let op = word / 4096;
    let x = ((word / 256) % 16) as int;
    let y = ((word / 16) % 16) as int;
    let n = (word % 16) as int;
    let nn = (word % 256) as u8;
    let nnn = (word % 4096) as u16;
    if word == 0x00E0 {
        Ok(Instruction::ClearDisplay)
    } else if word == 0x00EE {
        Ok(Instruction::ReturnSub)
    } else if op == 0x0 {
        Err(Chip8Error::MachineCodeRoutine(word))
    } else if op == 0x1 {
        Ok(Instruction::Jump { addr: nnn })
    } else if op == 0x2 {
        Ok(Instruction::Call { addr: nnn })
    } else if op == 0x3 {
        Ok(Instruction::SkipIfEqual { x, value: nn })
    } else if op == 0x4 {
        Ok(Instruction::SkipIfNotEqual { x, value: nn })
    } else if op == 0x5 && n == 0x0 {
        Ok(Instruction::SkipIfRegistersEqual { x, y })
    } else if op == 0x6 {
        Ok(Instruction::SetRegisterTo { x, value: nn })
    } else if op == 0x7 {
        Ok(Instruction::AddValueToRegister { x, value: nn })
    } else if op == 0x8 && n == 0x0 {
        Ok(Instruction::SetXToY { x, y })
    } else if op == 0x8 && n == 0x1 {
        Ok(Instruction::SetXToYOr { x, y })
    } else if op == 0x8 && n == 0x2 {
        Ok(Instruction::SetXToYAnd { x, y })
    } else if op == 0x8 && n == 0x3 {
        Ok(Instruction::SetXToYXor { x, y })
    } else if op == 0x8 && n == 0x4 {
        Ok(Instruction::AddYToX { x, y })
    } else if op == 0x8 && n == 0x5 {
        Ok(Instruction::SubtractYFromX { x, y })
    } else if op == 0x8 && n == 0x6 {
        Ok(Instruction::ShiftRight { x, y })
    } else if op == 0x8 && n == 0x7 {
        Ok(Instruction::SubtractXFromY { x, y })
    } else if op == 0x8 && n == 0xE {
        Ok(Instruction::ShiftLeft { x, y })
    } else if op == 0x9 && n == 0x0 {
        Ok(Instruction::SkipIfRegistersNotEqual { x, y })
    } else if op == 0xA {
        Ok(Instruction::SetI { addr: nnn })
    } else if op == 0xB {
        Ok(Instruction::JumpPlusV0 { n1: x, addr: nnn })
    } else if op == 0xC {
        Ok(Instruction::Random { x, mask: nn })
    } else if op == 0xD {
        Ok(Instruction::Draw { x, y, n })
    } else if op == 0xE && nn == 0x9E {
        Ok(Instruction::SkipIfPressed { x })
    } else if op == 0xE && nn == 0xA1 {
        Ok(Instruction::SkipIfNotPressed { x })
    } else if op == 0xF && nn == 0x07 {
        Ok(Instruction::SetVxToDelay { x })
    } else if op == 0xF && nn == 0x0A {
        Ok(Instruction::GetKey { x })
    } else if op == 0xF && nn == 0x15 {
        Ok(Instruction::SetDelayTimer { x })
    } else if op == 0xF && nn == 0x18 {
        Ok(Instruction::SetSoundTimer { x })
    } else if op == 0xF && nn == 0x1E {
        Ok(Instruction::AddVxToI { x })
    } else if op == 0xF && nn == 0x29 {
        Ok(Instruction::SetIToSprite { x })
    } else if op == 0xF && nn == 0x33 {
        Ok(Instruction::BinaryCodedDecimal { x })
    } else if op == 0xF && nn == 0x55 {
        Ok(Instruction::RegDump { x })
    } else if op == 0xF && nn == 0x65 {
        Ok(Instruction::RegLoad { x })
    } else {
        Err(Chip8Error::UnrecognizedInstruction(word))
    }
}

/// A pixel grid as a mathematical value: `grid_view(grid)[y][x]` is the
/// pixel in row `y`, column `x`.
pub open spec fn grid_view(grid: Chip8Vram) -> Seq<Seq<bool>> {
    Seq::new(32, |y: int| grid[y]@)
}

/// The grid with every pixel off.
pub open spec fn blank_grid() -> Seq<Seq<bool>> {
    Seq::new(32, |y: int| Seq::new(64, |x: int| false))
}

/// That a call on a machine `before`, which was to make `expected` of it,
/// returned `result` and left the machine `after`: on success the machine is
/// the expected one, on failure the error is the expected one and the
/// machine is untouched.
pub open spec fn stepped(before: Machine, expected: Step, result: Result<(), Chip8Error>, after: Machine) -> bool {
    match expected {
        Ok(machine) => result is Ok && after == machine,
        Err(error) => result == Err::<(), Chip8Error>(error) && after == before,
    }
}

impl Machine {
    /// The sizes are those of the machine, and the register that awaits a
    /// key exists.
    pub open spec fn wf(self) -> bool {
        &&& self.registers.wf()
        &&& self.memory.len() == 4096
        &&& self.pixels.len() == 32
        &&& forall|y: int| 0 <= y < 32 ==> (#[trigger] self.pixels[y]).len() == 64
        &&& self.blocked_key_vx < 16
    }

    /// The machine right after `rom` was loaded: the glyphs at address 0,
    /// the program at 0x200, everything else zero, and the program counter
    /// at the program's first instruction.
    pub open spec fn boot(rom: Seq<u8>, config: Config) -> Machine {
        Machine {
            registers: RegisterFile { v: Seq::new(16, |x: int| 0u8), i: 0 },
            memory: Seq::new(
                4096,
                |a: int|
                    if a < 80 {
                        FONT[a]
                    } else if 0x200 <= a < 0x200 + rom.len() {
                        rom[a - 0x200]
                    } else {
                        0u8
                    },
            ),
            stack: Seq::empty(),
            delay_timer: 0,
            sound_timer: 0,
            pc: 0x200,
            pixels: blank_grid(),
            vram_changed: false,
            blocked: false,
            blocked_key_vx: 0,
            config,
            vblank: VBLank::Free,
        }
    }

    /// The value of register `x`.
    pub open spec fn v(self, x: int) -> u8 {
        self.registers.v[x]
    }

    /// The machine with register `x` holding `val`.
    pub open spec fn with_v(self, x: int, val: u8) -> Machine {
        Machine { registers: self.registers.set(x, val), ..self }
    }

    /// The machine with the flag register holding `val`.
    pub open spec fn with_flag(self, val: u8) -> Machine {
        Machine { registers: self.registers.set_flag(val), ..self }
    }

    /// The machine with the index register holding `i`.
    pub open spec fn with_i(self, i: u16) -> Machine {
        Machine { registers: self.registers.set_index(i), ..self }
    }

    /// The machine with the memory cells from `start` on holding `data`.
    pub open spec fn load_to_memory(self, data: Seq<u8>, start: int) -> Machine {
        Machine {
            memory: Seq::new(
                4096,
                |a: int|
                    if start <= a < start + data.len() {
                        data[a - start]
                    } else {
                        self.memory[a]
                    },
            ),
            ..self
        }
    }

    /// The machine with the pixel in row `y`, column `x` set to `val`.
    pub open spec fn set_pixel(self, y: int, x: int, val: bool) -> Machine {
        Machine { pixels: self.pixels.update(y, self.pixels[y].update(x, val)), ..self }
    }

    /// The instruction word at the program counter: two bytes, the high one
    /// first.
    pub open spec fn word_at_pc(self) -> u16 {
        (256 * self.memory[self.pc as int] + self.memory[self.pc + 1]) as u16
    }

    /// The program counter moves on by one instruction, if that
    /// instruction lies within the memory.
    pub open spec fn fetch(self) -> Step {
        if self.pc + 1 < 4096 {
            Ok(Machine { pc: (self.pc + 2) as u16, ..self })
        } else {
            Err(Chip8Error::AddressOutOfRange)
        }
    }

    /// The program counter moves past the next instruction.
    pub open spec fn skip(self) -> Step {
        if self.pc + 2 <= u16::MAX {
            Ok(Machine { pc: (self.pc + 2) as u16, ..self })
        } else {
            Err(Chip8Error::AddressOutOfRange)
        }
    }

    /// Skips the next instruction where `condition` holds.
    pub open spec fn skip_if(self, condition: bool) -> Step {
        if condition {
            self.skip()
        } else {
            Ok(self)
        }
    }

    /// `00E0`: every pixel goes off.
    pub open spec fn clear_display(self) -> Machine {
        Machine { pixels: blank_grid(), vram_changed: true, ..self }
    }

    /// `ANNN`: the index register takes the address.
    pub open spec fn set_i(self, addr: u16) -> Machine {
        self.with_i(addr)
    }

    /// `6XNN`: register `x` takes the value.
    pub open spec fn set_register_to(self, x: int, val: u8) -> Machine {
        self.with_v(x, val)
    }

    /// `7XNN`: the value is added to register `x`, modulo 256. The flag
    /// register is not touched.
    pub open spec fn add_value_to_register(self, x: int, val: u8) -> Machine {
        self.with_v(x, ((self.v(x) + val) % 256) as u8)
    }

    /// `1NNN`: execution goes on at the address.
    pub open spec fn jump(self, addr: u16) -> Machine {
        Machine { pc: addr, ..self }
    }

    /// `8XY0`: register `x` takes the value of register `y`.
    pub open spec fn set_x_to_y(self, x: int, y: int) -> Machine {
        self.with_v(x, self.v(y))
    }

    /// Register `x` takes the result of a bitwise operation, after which
    /// the flag register is reset where the dialect does so.
    pub open spec fn logical(self, x: int, val: u8) -> Machine {
        let machine = self.with_v(x, val);
        if self.config.quirks.vf_reset {
            machine.with_flag(0)
        } else {
            machine
        }
    }

    /// `8XY1`: bitwise or of registers `x` and `y`.
    pub open spec fn set_x_to_y_or(self, x: int, y: int) -> Machine {
        self.logical(x, self.v(x) | self.v(y))
    }

    /// `8XY2`: bitwise and of registers `x` and `y`.
    pub open spec fn set_x_to_y_and(self, x: int, y: int) -> Machine {
        self.logical(x, self.v(x) & self.v(y))
    }

    /// `8XY3`: bitwise exclusive or of registers `x` and `y`.
    pub open spec fn set_x_to_y_xor(self, x: int, y: int) -> Machine {
        self.logical(x, self.v(x) ^ self.v(y))
    }

    /// `8XY4`: register `y` is added to register `x`, modulo 256. The flag
    /// is 1 where the sum did not fit into a byte, else 0.
    pub open spec fn add_y_to_x(self, x: int, y: int) -> Machine {
        let sum = self.v(x) + self.v(y);
        self.with_v(x, (sum % 256) as u8).with_flag(
            if sum > 255 {
                1
            } else {
                0
            },
        )
    }

    /// `8XY5`: register `y` is subtracted from register `x`, modulo 256. The
    /// flag is 1 where nothing had to be borrowed, else 0.
    pub open spec fn subtract_y_from_x(self, x: int, y: int) -> Machine {
        let minuend = self.v(x);
        let subtrahend = self.v(y);
        self.with_v(x, ((minuend - subtrahend) % 256) as u8).with_flag(
            if minuend >= subtrahend {
                1
            } else {
                0
            },
        )
    }

    /// `8XY7`: register `x` takes register `y` minus register `x`, modulo
    /// 256. The flag is 1 where nothing had to be borrowed, else 0.
    pub open spec fn subtract_x_from_y_and_assign_to_x(self, x: int, y: int) -> Machine {
        let minuend = self.v(y);
        let subtrahend = self.v(x);
        self.with_v(x, ((minuend - subtrahend) % 256) as u8).with_flag(
            if minuend >= subtrahend {
                1
            } else {
                0
            },
        )
    }

    /// The value that a shift instruction shifts: that of register `x`
    /// where the dialect shifts in place, else that of register `y`.
    pub open spec fn shift_source(self, x: int, y: int) -> u8 {
        if self.config.quirks.shifting {
            self.v(x)
        } else {
            self.v(y)
        }
    }

    /// `8XY6`: register `x` takes the shifted value halved. The flag is the
    /// bit that fell off, the lowest one.
    pub open spec fn shift_right(self, x: int, y: int) -> Machine {
        let source = self.shift_source(x, y);
        self.with_v(x, source / 2).with_flag(source % 2)
    }

    /// `8XYE`: register `x` takes the shifted value doubled, modulo 256. The
    /// flag is the bit that fell off, the highest one.
    pub open spec fn shift_left(self, x: int, y: int) -> Machine {
        let source = self.shift_source(x, y);
        self.with_v(x, ((source * 2) % 256) as u8).with_flag(source / 128)
    }

    /// `3XNN`: skips where register `x` holds the value.
    pub open spec fn skip_if_equal(self, x: int, val: u8) -> Step {
        self.skip_if(self.v(x) == val)
    }

    /// `4XNN`: skips where register `x` does not hold the value.
    pub open spec fn skip_if_not_equal(self, x: int, val: u8) -> Step {
        self.skip_if(self.v(x) != val)
    }

    /// `5XY0`: skips where registers `x` and `y` hold the same.
    pub open spec fn skip_if_registers_equal(self, x: int, y: int) -> Step {
        self.skip_if(self.v(x) == self.v(y))
    }

    /// `9XY0`: skips where registers `x` and `y` differ.
    pub open spec fn skip_if_registers_not_equal(self, x: int, y: int) -> Step {
        self.skip_if(self.v(x) != self.v(y))
    }

    /// The register whose value a jump with offset adds: the one that the
    /// leading nibble `n1` of the address names where the dialect says so,
    /// else register 0.
    pub open spec fn jump_register(self, n1: int) -> int {
        if self.config.quirks.jumping {
            n1
        } else {
            0
        }
    }

    /// `BNNN`: execution goes on at the address plus the value of a
    /// register. `n1` is the leading nibble of the address.
    pub open spec fn jump_plus_v0(self, n1: int, addr: u16) -> Machine {
        Machine { pc: (addr + self.v(self.jump_register(n1))) as u16, ..self }
    }

    /// `FX07`: register `x` takes the delay timer.
    pub open spec fn set_vx_to_delay(self, x: int) -> Machine {
        self.with_v(x, self.delay_timer)
    }

    /// `FX15`: the delay timer takes register `x`.
    pub open spec fn set_delay_timer(self, x: int) -> Machine {
        Machine { delay_timer: self.v(x), ..self }
    }

    /// `FX18`: the sound timer takes register `x`.
    pub open spec fn set_sound_timer(self, x: int) -> Machine {
        Machine { sound_timer: self.v(x), ..self }
    }

    /// `FX1E`: register `x` is added to the index register, which has to
    /// hold the sum.
    pub open spec fn add_vx_to_i(self, x: int) -> Step {
        let sum = self.registers.i + self.v(x);
        if sum <= u16::MAX {
            Ok(self.with_i(sum as u16))
        } else {
            Err(Chip8Error::AddressOutOfRange)
        }
    }

    /// `2NNN`: the program counter goes on the stack, and execution goes on
    /// at the address.
    pub open spec fn call(self, addr: u16) -> Machine {
        Machine { stack: seq![self.pc] + self.stack, pc: addr, ..self }
    }

    /// `00EE`: execution goes on at the address that the latest call left
    /// on the stack.
    pub open spec fn return_sub(self) -> Step {
        if self.stack.len() > 0 {
            Ok(
                Machine {
                    pc: self.stack[0],
                    stack: self.stack.subrange(1, self.stack.len() as int),
                    ..self
                },
            )
        } else {
            Err(Chip8Error::EmptyStack)
        }
    }

    /// `EX9E`: skips where the key pressed is the one in register `x`.
    /// Without a key it never skips.
    pub open spec fn skip_if_pressed(self, x: int, key: Option<u8>) -> Step {
        self.skip_if(key == Some(self.v(x)))
    }

    /// `EXA1`: skips unless the key pressed is the one in register `x`.
    /// Without a key it always skips.
    pub open spec fn skip_if_not_pressed(self, x: int, key: Option<u8>) -> Step {
        self.skip_if(key != Some(self.v(x)))
    }

    /// `FX33`: the decimal digits of register `x` go to the three cells at
    /// the index register, the hundreds first.
    pub open spec fn binary_coded_decimal(self, x: int) -> Step {
        let i = self.registers.i as int;
        let val = self.v(x);
        if i + 2 < 4096 {
            Ok(
                Machine {
                    memory: self.memory.update(i, val / 100).update(i + 1, (val / 10) % 10).update(
                        i + 2,
                        val % 10,
                    ),
                    ..self
                },
            )
        } else {
            Err(Chip8Error::AddressOutOfRange)
        }
    }

    /// After a dump or load of the registers up to `x`, the index register
    /// moves past the cells used where the dialect says so.
    pub open spec fn advance_index(self, x: int) -> Machine {
        if self.config.quirks.memory {
            self.with_i((self.registers.i + x + 1) as u16)
        } else {
            self
        }
    }

    /// `FX55`: registers 0 to `x` go to the cells at the index register.
    pub open spec fn reg_dump(self, x: int) -> Step {
        let i = self.registers.i as int;
        if i + x < 4096 {
            Ok(
                Machine {
                    memory: Seq::new(
                        4096,
                        |a: int|
                            if i <= a <= i + x {
                                self.v(a - i)
                            } else {
                                self.memory[a]
                            },
                    ),
                    ..self
                }.advance_index(x),
            )
        } else {
            Err(Chip8Error::AddressOutOfRange)
        }
    }

    /// `FX65`: registers 0 to `x` are read from the cells at the index
    /// register.
    pub open spec fn reg_load(self, x: int) -> Step {
        let i = self.registers.i as int;
        if i + x < 4096 {
            Ok(
                Machine {
                    registers: RegisterFile {
                        v: Seq::new(
                            16,
                            |r: int|
                                if r <= x {
                                    self.memory[i + r]
                                } else {
                                    self.v(r)
                                },
                        ),
                        i: self.registers.i,
                    },
                    ..self
                }.advance_index(x),
            )
        } else {
            Err(Chip8Error::AddressOutOfRange)
        }
    }

    /// `CXNN`: register `x` takes the random byte, masked by the value.
    pub open spec fn set_vx_to_rand_and_nn(self, x: int, mask: u8, random: u8) -> Machine {
        self.with_v(x, random & mask)
    }

    /// `FX0A`: the machine waits for a key, which is to go to register `x`.
    pub open spec fn get_key(self, x: int) -> Machine {
        Machine { blocked: true, blocked_key_vx: x as u8, ..self }
    }

    /// `FX29`: the index register takes the address of the glyph for the
    /// value of register `x`, five bytes per glyph. The address has to fit
    /// into a byte.
    pub open spec fn set_i_to_sprite(self, x: int) -> Step {
        let offset = 5 * self.v(x);
        if offset <= u8::MAX {
            Ok(self.with_i(offset as u16))
        } else {
            Err(Chip8Error::AddressOutOfRange)
        }
    }

    /// The column of the grid at which a sprite drawn at register `x`
    /// starts.
    pub open spec fn sprite_left(self, x: int) -> int {
        (self.v(x) % 64) as int
    }

    /// The row of the grid at which a sprite drawn at register `y` starts.
    pub open spec fn sprite_top(self, y: int) -> int {
        (self.v(y) % 32) as int
    }

    /// Whether the sprite at the index register has its pixel in row `row`,
    /// column `col` set. A row is one byte, its leftmost pixel the highest
    /// bit.
    pub open spec fn sprite_bit(self, row: int, col: int) -> bool {
        bit_at(self.memory[self.registers.i + row] as u16, (7 - col) as u8)
    }

    /// The row of a sprite drawn at register `y` that lands on row `py` of
    /// the grid.
    pub open spec fn sprite_row_at(self, y: int, py: int) -> int {
        if self.config.quirks.clipping {
            py - self.sprite_top(y)
        } else {
            (py - self.sprite_top(y)) % 32
        }
    }

    /// The column of a sprite drawn at register `x` that lands on column
    /// `px` of the grid.
    pub open spec fn sprite_col_at(self, x: int, px: int) -> int {
        if self.config.quirks.clipping {
            px - self.sprite_left(x)
        } else {
            (px - self.sprite_left(x)) % 64
        }
    }

    /// Whether a set pixel of the sprite of `n` rows, drawn at registers
    /// `x` and `y`, lands on the pixel in row `py`, column `px` of the grid.
    pub open spec fn lit(self, x: int, y: int, n: int, py: int, px: int) -> bool {
        let row = self.sprite_row_at(y, py);
        let col = self.sprite_col_at(x, px);
        0 <= row < n && 0 <= col < 8 && self.sprite_bit(row, col)
    }

    /// Whether the sprite lands on any pixel of the grid.
    pub open spec fn touches(self, x: int, y: int, n: int) -> bool {
        exists|py: int, px: int| 0 <= py < 32 && 0 <= px < 64 && #[trigger] self.lit(x, y, n, py, px)
    }

    /// Whether the sprite lands on a pixel of the grid that is on.
    pub open spec fn collides(self, x: int, y: int, n: int) -> bool {
        exists|py: int, px: int|
            0 <= py < 32 && 0 <= px < 64 && #[trigger] self.lit(x, y, n, py, px)
                && self.pixels[py][px]
    }

    /// The grid with the sprite drawn: each pixel that the sprite lands on
    /// is flipped.
    pub open spec fn blit(self, x: int, y: int, n: int) -> Seq<Seq<bool>> {
        Seq::new(
            32,
            |py: int| Seq::new(64, |px: int| self.pixels[py][px] != self.lit(x, y, n, py, px)),
        )
    }

    /// `DXYN`: draws the sprite of `n` rows at the index register, at the
    /// column and row that registers `x` and `y` give. Where the dialect
    /// makes draws wait for the vertical blank and one has been made since
    /// the last, nothing is drawn and the program counter goes back to the
    /// draw instruction. Else the pixels that the sprite lands on are
    /// flipped, and the flag is 1 where one of them went off, else 0.
    pub open spec fn draw(self, x: int, y: int, n: int) -> Step {
        let quirks = self.config.quirks;
        if quirks.must_wait(self.vblank) {
            if self.pc >= 2 {
                Ok(
                    Machine {
                        pc: (self.pc - 2) as u16,
                        vblank: quirks.next_vblank(self.vblank),
                        ..self
                    },
                )
            } else {
                Err(Chip8Error::AddressOutOfRange)
            }
        } else if n > 0 && self.registers.i + n > 4096 {
            Err(Chip8Error::AddressOutOfRange)
        } else {
            Ok(
                Machine {
                    pixels: self.blit(x, y, n),
                    vram_changed: self.vram_changed || self.touches(x, y, n),
                    vblank: quirks.next_vblank(self.vblank),
                    ..self
                }.with_flag(
                    if self.collides(x, y, n) {
                        1
                    } else {
                        0
                    },
                ),
            )
        }
    }

    /// What an instruction makes of the machine, with `key` the key that is
    /// pressed, if any, and `random` the byte that chance gives.
    #[verifier::opaque]
    pub open spec fn apply(self, instruction: Instruction, key: Option<u8>, random: u8) -> Step {
        match instruction {
            Instruction::ClearDisplay => Ok(self.clear_display()),
            Instruction::ReturnSub => self.return_sub(),
            Instruction::Jump { addr } => Ok(self.jump(addr)),
            Instruction::Call { addr } => Ok(self.call(addr)),
            Instruction::SkipIfEqual { x, value } => self.skip_if_equal(x, value),
            Instruction::SkipIfNotEqual { x, value } => self.skip_if_not_equal(x, value),
            Instruction::SkipIfRegistersEqual { x, y } => self.skip_if_registers_equal(x, y),
            Instruction::SetRegisterTo { x, value } => Ok(self.set_register_to(x, value)),
            Instruction::AddValueToRegister { x, value } => Ok(
                self.add_value_to_register(x, value),
            ),
            Instruction::SetXToY { x, y } => Ok(self.set_x_to_y(x, y)),
            Instruction::SetXToYOr { x, y } => Ok(self.set_x_to_y_or(x, y)),
            Instruction::SetXToYAnd { x, y } => Ok(self.set_x_to_y_and(x, y)),
            Instruction::SetXToYXor { x, y } => Ok(self.set_x_to_y_xor(x, y)),
            Instruction::AddYToX { x, y } => Ok(self.add_y_to_x(x, y)),
            Instruction::SubtractYFromX { x, y } => Ok(self.subtract_y_from_x(x, y)),
            Instruction::ShiftRight { x, y } => Ok(self.shift_right(x, y)),
            Instruction::SubtractXFromY { x, y } => Ok(
                self.subtract_x_from_y_and_assign_to_x(x, y),
            ),
            Instruction::ShiftLeft { x, y } => Ok(self.shift_left(x, y)),
            Instruction::SkipIfRegistersNotEqual { x, y } => self.skip_if_registers_not_equal(
                x,
                y,
            ),
            Instruction::SetI { addr } => Ok(self.set_i(addr)),
            Instruction::JumpPlusV0 { n1, addr } => Ok(self.jump_plus_v0(n1, addr)),
            Instruction::Random { x, mask } => Ok(self.set_vx_to_rand_and_nn(x, mask, random)),
            Instruction::Draw { x, y, n } => self.draw(x, y, n),
            Instruction::SkipIfPressed { x } => self.skip_if_pressed(x, key),
            Instruction::SkipIfNotPressed { x } => self.skip_if_not_pressed(x, key),
            Instruction::SetVxToDelay { x } => Ok(self.set_vx_to_delay(x)),
            Instruction::GetKey { x } => Ok(self.get_key(x)),
            Instruction::SetDelayTimer { x } => Ok(self.set_delay_timer(x)),
            Instruction::SetSoundTimer { x } => Ok(self.set_sound_timer(x)),
            Instruction::AddVxToI { x } => self.add_vx_to_i(x),
            Instruction::SetIToSprite { x } => self.set_i_to_sprite(x),
            Instruction::BinaryCodedDecimal { x } => self.binary_coded_decimal(x),
            Instruction::RegDump { x } => self.reg_dump(x),
            Instruction::RegLoad { x } => self.reg_load(x),
        }
    }

    /// What the instruction word `word` makes of the machine, with `key` the
    /// key that is pressed, if any, and `random` the byte that chance gives.
    #[verifier::opaque]
    pub open spec fn execute(self, word: u16, key: Option<u8>, random: u8) -> Step {
        match decode(word) {
            Ok(instruction) => self.apply(instruction, key, random),
            Err(error) => Err(error),
        }
    }

    /// One cycle: the instruction at the program counter is fetched and
    /// executed. A machine that waits for a key does nothing.
    pub open spec fn cycle(self, key: Option<u8>, random: u8) -> Step {
        if self.blocked {
            Ok(self)
        } else {
            match self.fetch() {
                Ok(fetched) => fetched.execute(self.word_at_pc(), key, random),
                Err(error) => Err(error),
            }
        }
    }

    /// A key arrives: it goes to the register that awaits it, and the
    /// machine no longer waits.
    pub open spec fn set_key(self, key: u8) -> Machine {
        Machine { blocked: false, ..self.with_v(self.blocked_key_vx as int, key) }
    }

    /// Both timers go down by one, and stay at zero.
    pub open spec fn decrement_timers(self) -> Machine {
        Machine {
            delay_timer: if self.delay_timer > 0 {
                (self.delay_timer - 1) as u8
            } else {
                0
            },
            sound_timer: if self.sound_timer > 0 {
                (self.sound_timer - 1) as u8
            } else {
                0
            },
            ..self
        }
    }

    /// The end of a frame: the vertical blank, then a tick of both timers.
    pub open spec fn end_frame(self) -> Machine {
        self.handle_vblank().decrement_timers()
    }

    /// The vertical blank: a draw that was put off may go ahead.
    pub open spec fn handle_vblank(self) -> Machine {
        Machine {
            vblank: if self.vblank == VBLank::WaitForInterrupt {
                VBLank::Free
            } else {
                self.vblank
            },
            ..self
        }
    }
}

/// What `apply` makes of each instruction. The definition is kept from the
/// prover, which would else take every instruction into account wherever
/// one is applied; this hands it out for one instruction at a time.
pub proof fn lemma_apply(machine: Machine, instruction: Instruction, key: Option<u8>, random: u8)
    ensures
        machine.apply(instruction, key, random) == match instruction {
            Instruction::ClearDisplay => Ok(machine.clear_display()),
            Instruction::ReturnSub => machine.return_sub(),
            Instruction::Jump { addr } => Ok(machine.jump(addr)),
            Instruction::Call { addr } => Ok(machine.call(addr)),
            Instruction::SkipIfEqual { x, value } => machine.skip_if_equal(x, value),
            Instruction::SkipIfNotEqual { x, value } => machine.skip_if_not_equal(x, value),
            Instruction::SkipIfRegistersEqual { x, y } => machine.skip_if_registers_equal(x, y),
            Instruction::SetRegisterTo { x, value } => Ok(machine.set_register_to(x, value)),
            Instruction::AddValueToRegister { x, value } => Ok(
                machine.add_value_to_register(x, value),
            ),
            Instruction::SetXToY { x, y } => Ok(machine.set_x_to_y(x, y)),
            Instruction::SetXToYOr { x, y } => Ok(machine.set_x_to_y_or(x, y)),
            Instruction::SetXToYAnd { x, y } => Ok(machine.set_x_to_y_and(x, y)),
            Instruction::SetXToYXor { x, y } => Ok(machine.set_x_to_y_xor(x, y)),
            Instruction::AddYToX { x, y } => Ok(machine.add_y_to_x(x, y)),
            Instruction::SubtractYFromX { x, y } => Ok(machine.subtract_y_from_x(x, y)),
            Instruction::ShiftRight { x, y } => Ok(machine.shift_right(x, y)),
            Instruction::SubtractXFromY { x, y } => Ok(
                machine.subtract_x_from_y_and_assign_to_x(x, y),
            ),
            Instruction::ShiftLeft { x, y } => Ok(machine.shift_left(x, y)),
            Instruction::SkipIfRegistersNotEqual { x, y } => machine.skip_if_registers_not_equal(
                x,
                y,
            ),
            Instruction::SetI { addr } => Ok(machine.set_i(addr)),
            Instruction::JumpPlusV0 { n1, addr } => Ok(machine.jump_plus_v0(n1, addr)),
            Instruction::Random { x, mask } => Ok(machine.set_vx_to_rand_and_nn(x, mask, random)),
            Instruction::Draw { x, y, n } => machine.draw(x, y, n),
            Instruction::SkipIfPressed { x } => machine.skip_if_pressed(x, key),
            Instruction::SkipIfNotPressed { x } => machine.skip_if_not_pressed(x, key),
            Instruction::SetVxToDelay { x } => Ok(machine.set_vx_to_delay(x)),
            Instruction::GetKey { x } => Ok(machine.get_key(x)),
            Instruction::SetDelayTimer { x } => Ok(machine.set_delay_timer(x)),
            Instruction::SetSoundTimer { x } => Ok(machine.set_sound_timer(x)),
            Instruction::AddVxToI { x } => machine.add_vx_to_i(x),
            Instruction::SetIToSprite { x } => machine.set_i_to_sprite(x),
            Instruction::BinaryCodedDecimal { x } => machine.binary_coded_decimal(x),
            Instruction::RegDump { x } => machine.reg_dump(x),
            Instruction::RegLoad { x } => machine.reg_load(x),
        },
{
    reveal(Machine::apply);
}

} // verus!

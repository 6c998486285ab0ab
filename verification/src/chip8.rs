//! The execution engine.

use vstd::prelude::*;
use std::collections::VecDeque;
use crate::bit_ops::to_u16;
use crate::error::Chip8Error;
use crate::machine::{grid_view, lemma_apply, stepped, Instruction, Machine};
use crate::quirks::{ch8_quirks, Quirks};
use crate::registers::Registers;

verus! {

/// The glyphs of the sixteen hexadecimal digits, five bytes each, one byte
/// per row with the leftmost pixel in the highest bit.
pub const FONT: [u8; 80] = [
    0xF0, 0x90, 0x90, 0x90, 0xF0,
    0x20, 0x60, 0x20, 0x20, 0x70,
    0xF0, 0x10, 0xF0, 0x80, 0xF0,
    0xF0, 0x10, 0xF0, 0x10, 0xF0,
    0x90, 0x90, 0xF0, 0x10, 0x10,
    0xF0, 0x80, 0xF0, 0x10, 0xF0,
    0xF0, 0x80, 0xF0, 0x90, 0xF0,
    0xF0, 0x10, 0x20, 0x40, 0x40,
    0xF0, 0x90, 0xF0, 0x90, 0xF0,
    0xF0, 0x90, 0xF0, 0x10, 0xF0,
    0xF0, 0x90, 0xF0, 0x90, 0x90,
    0xE0, 0x90, 0xE0, 0x90, 0xE0,
    0xF0, 0x80, 0x80, 0x80, 0xF0,
    0xE0, 0x90, 0x90, 0x90, 0xE0,
    0xF0, 0x80, 0xF0, 0x80, 0xF0,
    0xF0, 0x80, 0xF0, 0x80, 0x80,
];

/// Where the glyphs lie in memory.
pub const FONT_POINTER: u16 = 0x000;

/// Where a program is loaded, and where its execution starts.
pub const PROGRAM_POINTER: u16 = 0x200;

/// The width of the pixel grid.
pub const CH8_WIDTH: u8 = 64;

/// The height of the pixel grid.
pub const CH8_HEIGHT: u8 = 32;

/// The pixel grid: 32 rows of 64 pixels, `true` for a lit pixel.
pub type Chip8Vram = [[bool; 64]; 32];

/// How far the draw instruction is from the next vertical blank.
#[derive(Clone, Copy, Debug, PartialEq, Eq, Structural)]
pub enum VBLank {
    /// A sprite has been drawn since the last vertical blank.
    WaitForDraw,
    /// A draw has been put off and waits for the vertical blank.
    WaitForInterrupt,
    /// No sprite has been drawn since the last vertical blank.
    Free,
}

/// How an engine is set up. It stays the same for the life of the engine.
#[derive(Clone, Copy, Debug, PartialEq, Eq, Structural)]
pub struct Config {
    /// Whether the program that drives the engine should log each
    /// instruction.
    pub print_debug_messages: bool,
    /// The dialect.
    pub quirks: Quirks,
}

impl Config {
    /// The CHIP-8 of the COSMAC VIP, without logging.
    pub open spec fn spec_default() -> Config {
        Config { print_debug_messages: false, quirks: ch8_quirks() }
    }

    /// A configuration with the given log toggle and dialect.
    pub fn new(print_debug_messages: bool, quirks: Quirks) -> (config: Self)
        ensures
            config == (Config { print_debug_messages, quirks }),
    {
        Config { print_debug_messages, quirks }
    }

    /// The CHIP-8 of the COSMAC VIP, without logging.
    #[verifier::when_used_as_spec(spec_default)]
    pub fn default() -> (config: Self)
        ensures
            config == Config::spec_default(),
    {
        Config { print_debug_messages: false, quirks: ch8_quirks() }
    }
}

/// `rand::Rng::gen_range` over `0..256`, on the generator that
/// `rand::thread_rng` hands out: some number of that range, which one is
/// left open. The generator is seeded by the operating system when a thread
/// first asks for it, and `rand` panics where that fails.
#[verifier::external_body]
fn random_below_256() -> (random: u16)
    ensures
        random < 256,
{
    rand::Rng::gen_range(&mut rand::thread_rng(), 0..256)
}

/// Taking a word apart by masks and shifts gives its four hexadecimal
/// digits.
proof fn lemma_nibbles(hex: u16)
    ensures
        (hex & 0xF000) >> 12u8 == hex / 4096,
        (hex & 0x0F00) >> 8u8 == (hex / 256) % 16,
        (hex & 0x00F0) >> 4u8 == (hex / 16) % 16,
        hex & 0x000F == hex % 16,
        hex >> 12u8 == hex / 4096,
        16 * ((hex / 16) % 16) + hex % 16 == hex % 256,
        256 * ((hex / 256) % 16) + 16 * ((hex / 16) % 16) + hex % 16 == hex % 4096,
{
    assert((hex & 0xF000) >> 12u8 == hex / 4096) by (bit_vector);
    assert((hex & 0x0F00) >> 8u8 == (hex / 256) % 16) by (bit_vector);
    assert((hex & 0x00F0) >> 4u8 == (hex / 16) % 16) by (bit_vector);
    assert(hex & 0x000F == hex % 16) by (bit_vector);
    assert(hex >> 12u8 == hex / 4096) by (bit_vector);
    assert(16 * ((hex / 16) % 16) + hex % 16 == hex % 256) by (bit_vector);
    assert(256 * ((hex / 256) % 16) + 16 * ((hex / 16) % 16) + hex % 16 == hex % 4096)
        by (bit_vector);
}

/// The engine: memory, registers, call stack, timers, program counter,
/// pixel grid, and the state of its waits for a key and for the vertical
/// blank.
pub struct Chip8 {
    /// The general registers and the index register.
    pub registers: Registers,
    pub(crate) memory: [u8; 4096],
    /// The return addresses of the calls outstanding, the latest in front.
    pub(crate) stack: VecDeque<u16>,
    pub(crate) delay_timer: u8,
    pub(crate) sound_timer: u8,
    pub(crate) pc: u16,
    /// The pixel grid: `vram[y][x]` is the pixel in row `y`, column `x`.
    pub vram: Chip8Vram,
    /// Whether a pixel was written since the renderer last took the grid.
    pub vram_changed: bool,
    /// Whether the machine waits for a key.
    pub blocked: bool,
    /// The register that the awaited key goes to.
    pub(crate) blocked_key_vx: u8,
    pub(crate) config: Config,
    /// How far the draw instruction is from the next vertical blank.
    pub vblank: VBLank,
}

impl View for Chip8 {
    type V = Machine;

    open(crate) spec fn view(&self) -> Machine {
        Machine {
            registers: self.registers@,
            memory: self.memory@,
            stack: self.stack@,
            delay_timer: self.delay_timer,
            sound_timer: self.sound_timer,
            pc: self.pc,
            pixels: grid_view(self.vram),
            vram_changed: self.vram_changed,
            blocked: self.blocked,
            blocked_key_vx: self.blocked_key_vx,
            config: self.config,
            vblank: self.vblank,
        }
    }
}

impl Chip8 {
    /// A CHIP-8 of the COSMAC VIP with `rom` loaded, about to execute its first
    /// instruction.
    pub fn new(rom: Vec<u8>) -> (chip8: Self)
        requires
            rom@.len() <= 4096 - 0x200,
        ensures
            chip8@ == Machine::boot(rom@, Config::default()),
            chip8@.wf(),
    {
        Chip8::with_config(rom, Config::default())
    }

    /// A machine of the given configuration with `rom` loaded, about to
    /// execute its first instruction.
    pub fn with_config(rom: Vec<u8>, config: Config) -> (chip8: Self)
        requires
            rom@.len() <= 4096 - 0x200,
        ensures
            chip8@ == Machine::boot(rom@, config),
            chip8@.wf(),
    {
        let mut chip8 = Chip8 {
            registers: Registers::default(),
            memory: [0;4096],
            stack: VecDeque::new(),
            delay_timer: 0,
            sound_timer: 0,
            pc: 0x200,
            vram: [[false;64];32],
            vram_changed: false,
            blocked: false,
            blocked_key_vx: 0,
            config,
            vblank: VBLank::Free,
        };

        chip8.load_to_memory(&FONT, FONT_POINTER);
        chip8.load_to_memory(rom.as_slice(), PROGRAM_POINTER);

        assert(chip8@.pixels =~~= Machine::boot(rom@, config).pixels);
        assert(chip8@.registers =~= Machine::boot(rom@, config).registers);
        assert(chip8@.memory =~= Machine::boot(rom@, config).memory);
        chip8
    }

    /// Reads the instruction word at the program counter, the high byte
    /// first, and moves the program counter past it. Fails where the word
    /// does not lie within the memory.
    pub fn fetch(&mut self) -> (res: Result<u16, Chip8Error>)
        ensures
            match old(self)@.fetch() {
                Ok(machine) => {
                    &&& res == Ok::<u16, Chip8Error>(old(self)@.word_at_pc())
                    &&& final(self)@ == machine
                },
                Err(error) => res == Err::<u16, Chip8Error>(error) && final(self)@ == old(self)@,
            },
    {
        if self.pc >= 4095 {
            return Err(Chip8Error::AddressOutOfRange);
        }
        let instruction = to_u16(self.memory[self.pc as usize], self.memory[(self.pc + 1) as usize]);
        self.pc += 2;
        Ok(instruction)
    }

    /// Executes the instruction `hex`, with `key` the key that is pressed,
    /// if any. The random instruction draws its byte from the thread's
    /// random number generator.
    ///
    /// Fails on a word that stands for no instruction, on a call of a
    /// machine code routine, on a return with no call outstanding, and on an
    /// address out of range; the machine is then left as it was.
    pub fn handle_op_code(&mut self, hex: u16, key: Option<u8>) -> (res: Result<(), Chip8Error>)
        requires
            old(self)@.wf(),
        ensures
            exists|random: u8|
                stepped(
                    old(self)@,
                    #[trigger] old(self)@.execute(hex, key, random),
                    res,
                    final(self)@,
                ),
            final(self)@.wf(),
    {
        proof {
            lemma_nibbles(hex);
        }
        let random: u8 = if hex >> 12 == 0xc {
            random_below_256() as u8
        } else {
            0
        };
        self.execute(hex, key, random)
    }

    /// Executes the instruction `hex`, with `key` the key that is pressed,
    /// if any, and `random` the byte that the random instruction is to use.
    ///
    /// Fails on a word that stands for no instruction, on a call of a
    /// machine code routine, on a return with no call outstanding, and on an
    /// address out of range; the machine is then left as it was.
    pub fn execute(&mut self, hex: u16, key: Option<u8>, random: u8) -> (res: Result<
        (),
        Chip8Error,
    >)
        requires
            old(self)@.wf(),
        ensures
            stepped(old(self)@, old(self)@.execute(hex, key, random), res, final(self)@),
            final(self)@.wf(),
    {
        proof {
            reveal(Machine::execute);
            lemma_nibbles(hex);
        }
        let nibbles = (
            ((hex & 0xF000) >> 12) as u8,
            ((hex & 0x0F00) >> 8) as u8,
            ((hex & 0x00F0) >> 4) as u8,
            (hex & 0x000F) as u8,
        );
        match nibbles {
            (0x0, 0x0, 0xe, 0x0) => {
                proof {
                    lemma_apply(old(self)@, Instruction::ClearDisplay, key, random);
                }
                self.clear_display();
                Ok(())
            },
            (0x0, 0x0, 0xe, 0xe) => {
                proof {
                    lemma_apply(old(self)@, Instruction::ReturnSub, key, random);
                }
                self.return_sub()
            },
            (0x0, _, _, _) => Err(Chip8Error::MachineCodeRoutine(hex)),
            (0x1, n1, n2, n3) => {
                proof {
                    lemma_apply(
                        old(self)@,
                        Instruction::Jump { addr: (hex % 4096) as u16 },
                        key,
                        random,
                    );
                }
                self.jump(n1, n2, n3);
                Ok(())
            },
            (0x2, n1, n2, n3) => {
                proof {
                    lemma_apply(
                        old(self)@,
                        Instruction::Call { addr: (hex % 4096) as u16 },
                        key,
                        random,
                    );
                }
                self.call(n1, n2, n3);
                Ok(())
            },
            (0x3, x, n1, n2) => {
                proof {
                    lemma_apply(
                        old(self)@,
                        Instruction::SkipIfEqual { x: x as int, value: (hex % 256) as u8 },
                        key,
                        random,
                    );
                }
                self.skip_if_equal(x, n1, n2)
            },
            (0x4, x, n1, n2) => {
                proof {
                    lemma_apply(
                        old(self)@,
                        Instruction::SkipIfNotEqual { x: x as int, value: (hex % 256) as u8 },
                        key,
                        random,
                    );
                }
                self.skip_if_not_equal(x, n1, n2)
            },
            (0x5, x, y, 0x0) => {
                proof {
                    lemma_apply(
                        old(self)@,
                        Instruction::SkipIfRegistersEqual { x: x as int, y: y as int },
                        key,
                        random,
                    );
                }
                self.skip_if_registers_equal(x, y)
            },
            (0x6, x, n1, n2) => {
                proof {
                    lemma_apply(
                        old(self)@,
                        Instruction::SetRegisterTo { x: x as int, value: (hex % 256) as u8 },
                        key,
                        random,
                    );
                }
                self.set_register_to(x, n1, n2);
                Ok(())
            },
            (0x7, x, n1, n2) => {
                proof {
                    lemma_apply(
                        old(self)@,
                        Instruction::AddValueToRegister { x: x as int, value: (hex % 256) as u8 },
                        key,
                        random,
                    );
                }
                self.add_value_to_register(x, n1, n2);
                Ok(())
            },
            (0x8, x, y, 0x0) => {
                proof {
                    lemma_apply(
                        old(self)@,
                        Instruction::SetXToY { x: x as int, y: y as int },
                        key,
                        random,
                    );
                }
                self.set_x_to_y(x, y);
                Ok(())
            },
            (0x8, x, y, 0x1) => {
                proof {
                    lemma_apply(
                        old(self)@,
                        Instruction::SetXToYOr { x: x as int, y: y as int },
                        key,
                        random,
                    );
                }
                self.set_x_to_y_or(x, y);
                Ok(())
            },
            (0x8, x, y, 0x2) => {
                proof {
                    lemma_apply(
                        old(self)@,
                        Instruction::SetXToYAnd { x: x as int, y: y as int },
                        key,
                        random,
                    );
                }
                self.set_x_to_y_and(x, y);
                Ok(())
            },
            (0x8, x, y, 0x3) => {
                proof {
                    lemma_apply(
                        old(self)@,
                        Instruction::SetXToYXor { x: x as int, y: y as int },
                        key,
                        random,
                    );
                }
                self.set_x_to_y_xor(x, y);
                Ok(())
            },
            (0x8, x, y, 0x4) => {
                proof {
                    lemma_apply(
                        old(self)@,
                        Instruction::AddYToX { x: x as int, y: y as int },
                        key,
                        random,
                    );
                }
                self.add_y_to_x(x, y);
                Ok(())
            },
            (0x8, x, y, 0x5) => {
                proof {
                    lemma_apply(
                        old(self)@,
                        Instruction::SubtractYFromX { x: x as int, y: y as int },
                        key,
                        random,
                    );
                }
                self.subtract_y_from_x(x, y);
                Ok(())
            },
            (0x8, x, y, 0x6) => {
                proof {
                    lemma_apply(
                        old(self)@,
                        Instruction::ShiftRight { x: x as int, y: y as int },
                        key,
                        random,
                    );
                }
                self.shift_right(x, y);
                Ok(())
            },
            (0x8, x, y, 0x7) => {
                proof {
                    lemma_apply(
                        old(self)@,
                        Instruction::SubtractXFromY { x: x as int, y: y as int },
                        key,
                        random,
                    );
                }
                self.subtract_x_from_y_and_assign_to_x(x, y);
                Ok(())
            },
            (0x8, x, y, 0xe) => {
                proof {
                    lemma_apply(
                        old(self)@,
                        Instruction::ShiftLeft { x: x as int, y: y as int },
                        key,
                        random,
                    );
                }
                self.shift_left(x, y);
                Ok(())
            },
            (0x9, x, y, 0x0) => {
                proof {
                    lemma_apply(
                        old(self)@,
                        Instruction::SkipIfRegistersNotEqual { x: x as int, y: y as int },
                        key,
                        random,
                    );
                }
                self.skip_if_registers_not_equal(x, y)
            },
            (0xa, n1, n2, n3) => {
                proof {
                    lemma_apply(
                        old(self)@,
                        Instruction::SetI { addr: (hex % 4096) as u16 },
                        key,
                        random,
                    );
                }
                self.set_i(n1, n2, n3);
                Ok(())
            },
            (0xb, n1, n2, n3) => {
                proof {
                    lemma_apply(
                        old(self)@,
                        Instruction::JumpPlusV0 { n1: n1 as int, addr: (hex % 4096) as u16 },
                        key,
                        random,
                    );
                }
                self.jump_plus_v0(n1, n2, n3);
                Ok(())
            },
            (0xc, x, n1, n2) => {
                proof {
                    lemma_apply(
                        old(self)@,
                        Instruction::Random { x: x as int, mask: (hex % 256) as u8 },
                        key,
                        random,
                    );
                }
                self.set_vx_to_rand_and_nn(x, n1, n2, random);
                Ok(())
            },
            (0xd, x, y, n) => {
                proof {
                    lemma_apply(
                        old(self)@,
                        Instruction::Draw { x: x as int, y: y as int, n: n as int },
                        key,
                        random,
                    );
                }
                self.draw(x, y, n)
            },
            (0xe, x, 0x9, 0xe) => {
                proof {
                    lemma_apply(
                        old(self)@,
                        Instruction::SkipIfPressed { x: x as int },
                        key,
                        random,
                    );
                }
                self.skip_if_pressed(x, key)
            },
            (0xe, x, 0xa, 0x1) => {
                proof {
                    lemma_apply(
                        old(self)@,
                        Instruction::SkipIfNotPressed { x: x as int },
                        key,
                        random,
                    );
                }
                self.skip_if_not_pressed(x, key)
            },
            (0xf, x, 0x0, 0x7) => {
                proof {
                    lemma_apply(old(self)@, Instruction::SetVxToDelay { x: x as int }, key, random);
                }
                self.set_vx_to_delay(x);
                Ok(())
            },
            (0xf, x, 0x0, 0xa) => {
                proof {
                    lemma_apply(old(self)@, Instruction::GetKey { x: x as int }, key, random);
                }
                self.get_key(x);
                Ok(())
            },
            (0xf, x, 0x1, 0x5) => {
                proof {
                    lemma_apply(
                        old(self)@,
                        Instruction::SetDelayTimer { x: x as int },
                        key,
                        random,
                    );
                }
                self.set_delay_timer(x);
                Ok(())
            },
            (0xf, x, 0x1, 0x8) => {
                proof {
                    lemma_apply(
                        old(self)@,
                        Instruction::SetSoundTimer { x: x as int },
                        key,
                        random,
                    );
                }
                self.set_sound_timer(x);
                Ok(())
            },
            (0xf, x, 0x1, 0xe) => {
                proof {
                    lemma_apply(old(self)@, Instruction::AddVxToI { x: x as int }, key, random);
                }
                self.add_vx_to_i(x)
            },
            (0xf, x, 0x2, 0x9) => {
                proof {
                    lemma_apply(old(self)@, Instruction::SetIToSprite { x: x as int }, key, random);
                }
                self.set_i_to_sprite(x)
            },
            (0xf, x, 0x3, 0x3) => {
                proof {
                    lemma_apply(
                        old(self)@,
                        Instruction::BinaryCodedDecimal { x: x as int },
                        key,
                        random,
                    );
                }
                self.binary_coded_decimal(x)
            },
            (0xf, x, 0x5, 0x5) => {
                proof {
                    lemma_apply(old(self)@, Instruction::RegDump { x: x as int }, key, random);
                }
                self.reg_dump(x)
            },
            (0xf, x, 0x6, 0x5) => {
                proof {
                    lemma_apply(old(self)@, Instruction::RegLoad { x: x as int }, key, random);
                }
                self.reg_load(x)
            },
            _ => Err(Chip8Error::UnrecognizedInstruction(hex)),
        }
    }

    /// Runs one cycle: fetches the instruction at the program counter and
    /// executes it, with `key` the key that is pressed, if any. A machine
    /// that waits for a key does nothing.
    ///
    /// Fails where the fetch or the instruction fails; the machine is then
    /// left as it was, its program counter at the instruction that failed.
    pub fn execute_next_opcode(&mut self, key: Option<u8>) -> (res: Result<(), Chip8Error>)
        requires
            old(self)@.wf(),
        ensures
            exists|random: u8|
                stepped(old(self)@, #[trigger] old(self)@.cycle(key, random), res, final(self)@),
            final(self)@.wf(),
    {
        if self.blocked {
            assert(stepped(old(self)@, old(self)@.cycle(key, 0), Ok(()), self@));
            return Ok(());
        }
        let pc = self.pc;
        let instruction = match self.fetch() {
            Ok(instruction) => instruction,
            Err(error) => {
                assert(stepped(old(self)@, old(self)@.cycle(key, 0), Err(error), self@));
                return Err(error);
            },
        };
        let ghost fetched = self@;
        let res = self.handle_op_code(instruction, key);
        let ghost handled = self@;
        if res.is_err() {
            self.pc = pc;
        }
        proof {
            let random = choose|random: u8|
                stepped(fetched, #[trigger] fetched.execute(instruction, key, random), res, handled);
            assert(stepped(old(self)@, old(self)@.cycle(key, random), res, self@));
        }
        res
    }

    /// Copies `data` into the memory cells from `start_point` on.
    pub fn load_to_memory(&mut self, data: &[u8], start_point: u16)
        requires
            start_point + data@.len() <= 4096,
        ensures
            final(self)@ == old(self)@.load_to_memory(data@, start_point as int),
    {
        let mut curr_point = start_point;
        let mut k: usize = 0;
        while k < data.len()
            invariant
                k <= data@.len(),
                curr_point == start_point + k,
                start_point + data@.len() <= 4096,
                self@ == old(self)@.load_to_memory(data@.take(k as int), start_point as int),
            decreases data@.len() - k,
        {
            self.memory[curr_point as usize] = data[k];
            curr_point += 1;
            k += 1;
        }
        assert(data@.take(k as int) =~= data@);
    }

    /// Hands the pixel grid to the renderer if a pixel was written since it
    /// last took the grid, and notes that it has the grid now.
    pub fn take_frame(&mut self) -> (frame: Option<Chip8Vram>)
        ensures
            final(self)@ == (Machine { vram_changed: false, ..old(self)@ }),
            match frame {
                Some(grid) => old(self)@.vram_changed && grid_view(grid) == old(self)@.pixels,
                None => !old(self)@.vram_changed,
            },
    {
        if self.vram_changed {
            self.vram_changed = false;
            Some(self.vram)
        } else {
            None
        }
    }

    /// The program counter.
    pub fn pc(&self) -> (pc: u16)
        ensures
            pc == self@.pc,
    {
        self.pc
    }

    /// The memory.
    pub fn memory(&self) -> (memory: &[u8; 4096])
        ensures
            memory@ == self@.memory,
    {
        &self.memory
    }

    /// The return addresses of the calls outstanding, the latest first.
    pub fn stack(&self) -> (stack: &VecDeque<u16>)
        ensures
            stack@ == self@.stack,
    {
        &self.stack
    }

    /// The delay timer.
    pub fn delay_timer(&self) -> (timer: u8)
        ensures
            timer == self@.delay_timer,
    {
        self.delay_timer
    }

    /// The sound timer.
    pub fn sound_timer(&self) -> (timer: u8)
        ensures
            timer == self@.sound_timer,
    {
        self.sound_timer
    }

    /// The configuration that the engine was made with.
    pub fn config(&self) -> (config: Config)
        ensures
            config == self@.config,
    {
        self.config
    }

    /// Sets the pixel in row `y`, column `x`.
    pub fn set_pixel(&mut self, y: u8, x: u8, val: bool)
        requires
            y < CH8_HEIGHT,
            x < CH8_WIDTH,
        ensures
            final(self)@ == old(self)@.set_pixel(y as int, x as int, val),
    {
        self.vram[y as usize][x as usize] = val;
        assert(self@.pixels =~~= old(self)@.set_pixel(y as int, x as int, val).pixels);
    }

    /// The pixel in row `y`, column `x`.
    pub fn get_pixel(&self, y: u8, x: u8) -> (val: bool)
        requires
            y < CH8_HEIGHT,
            x < CH8_WIDTH,
        ensures
            val == self@.pixels[y as int][x as int],
    {
        self.vram[y as usize][x as usize]
    }
}

} // verus!

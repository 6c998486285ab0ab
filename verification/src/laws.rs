//! What holds of the instructions, of any machine and any operands.

use vstd::prelude::*;
use vstd::arithmetic::div_mod::lemma_fundamental_div_mod_converse;
use crate::bit_ops::bit_at;
use crate::chip8::VBLank;
use crate::chip8_runner::{before_cycle, run};
use crate::error::Chip8Error;
use crate::instructions::lemma_shift_of_byte;
use crate::machine::{decode, lemma_apply, Instruction, Machine};
use crate::sprite::lemma_one_pixel_each;

verus! {

/// Whether a set pixel of the sprite of `n` rows, drawn at registers `x` and
/// `y`, lands on a pixel of the grid that is off.
pub open spec fn lands_on_dark(machine: Machine, x: int, y: int, n: int) -> bool {
    exists|py: int, px: int|
        0 <= py < 32 && 0 <= px < 64 && #[trigger] machine.lit(x, y, n, py, px)
            && !machine.pixels[py][px]
}

/// That a machine `again` draws the sprite that `machine` draws, at the
/// same place and in the same dialect.
pub open spec fn same_sprite_same_place(machine: Machine, again: Machine, x: int, y: int, n: int) -> bool {
    &&& again.sprite_left(x) == machine.sprite_left(x)
    &&& again.sprite_top(y) == machine.sprite_top(y)
    &&& again.config.quirks.clipping == machine.config.quirks.clipping
    &&& forall|row: int, col: int|
        0 <= row < n && 0 <= col < 8 ==> #[trigger] again.sprite_bit(row, col)
            == machine.sprite_bit(row, col)
}

/// A word made of four hexadecimal digits gives these digits back when it is
/// taken apart.
pub proof fn word_of_four_digits(op: int, x: int, y: int, n: int)
    requires
        0 <= op < 16,
        0 <= x < 16,
        0 <= y < 16,
        0 <= n < 16,
    ensures
        ({
            let word = (4096 * op + 256 * x + 16 * y + n) as u16;
            &&& word == 4096 * op + 256 * x + 16 * y + n
            &&& word / 4096 == op
            &&& (word / 256) % 16 == x
            &&& (word / 16) % 16 == y
            &&& word % 16 == n
            &&& word % 256 == 16 * y + n
            &&& word % 4096 == 256 * x + 16 * y + n
        }),
{
    let word = 4096 * op + 256 * x + 16 * y + n;
    lemma_fundamental_div_mod_converse(word, 4096, op, 256 * x + 16 * y + n);
    lemma_fundamental_div_mod_converse(word, 256, 16 * op + x, 16 * y + n);
    lemma_fundamental_div_mod_converse(16 * op + x, 16, op, x);
    lemma_fundamental_div_mod_converse(word, 16, 256 * op + 16 * x + y, n);
    lemma_fundamental_div_mod_converse(256 * op + 16 * x + y, 16, 16 * op + x, y);
}

/// Every instruction, and the end of a frame, leaves the machine with its
/// sixteen registers, its 4096 cells, its grid of 32 by 64 pixels and an
/// existing register to await a key.
pub proof fn execute_keeps_machine_whole(machine: Machine, word: u16, key: Option<u8>, random: u8)
    requires
        machine.wf(),
    ensures
        machine.execute(word, key, random) matches Ok(after) ==> after.wf(),
        machine.cycle(key, random) matches Ok(after) ==> after.wf(),
        machine.end_frame().wf(),
{
    lemma_execute_keeps_whole(machine, word, key, random);
    if machine.fetch() is Ok {
        lemma_execute_keeps_whole(machine.fetch()->Ok_0, machine.word_at_pc(), key, random);
    }
}

proof fn lemma_execute_keeps_whole(machine: Machine, word: u16, key: Option<u8>, random: u8)
    requires
        machine.wf(),
    ensures
        machine.execute(word, key, random) matches Ok(after) ==> after.wf(),
{
    reveal(Machine::execute);
    if let Ok(instruction) = decode(word) {
        let x = ((word / 256) % 16) as int;
        let y = ((word / 16) % 16) as int;
        assert(0 <= x < 16 && 0 <= y < 16);
        assert(names_registers(instruction));
        lemma_apply_keeps_whole(machine, instruction, key, random);
    }
}

/// Whether the registers that an instruction names exist.
pub open spec fn names_registers(instruction: Instruction) -> bool {
    match instruction {
        Instruction::ClearDisplay => true,
        Instruction::ReturnSub => true,
        Instruction::Jump { addr } => true,
        Instruction::Call { addr } => true,
        Instruction::SkipIfEqual { x, value } => 0 <= x < 16,
        Instruction::SkipIfNotEqual { x, value } => 0 <= x < 16,
        Instruction::SkipIfRegistersEqual { x, y } => 0 <= x < 16 && 0 <= y < 16,
        Instruction::SetRegisterTo { x, value } => 0 <= x < 16,
        Instruction::AddValueToRegister { x, value } => 0 <= x < 16,
        Instruction::SetXToY { x, y } => 0 <= x < 16 && 0 <= y < 16,
        Instruction::SetXToYOr { x, y } => 0 <= x < 16 && 0 <= y < 16,
        Instruction::SetXToYAnd { x, y } => 0 <= x < 16 && 0 <= y < 16,
        Instruction::SetXToYXor { x, y } => 0 <= x < 16 && 0 <= y < 16,
        Instruction::AddYToX { x, y } => 0 <= x < 16 && 0 <= y < 16,
        Instruction::SubtractYFromX { x, y } => 0 <= x < 16 && 0 <= y < 16,
        Instruction::ShiftRight { x, y } => 0 <= x < 16 && 0 <= y < 16,
        Instruction::SubtractXFromY { x, y } => 0 <= x < 16 && 0 <= y < 16,
        Instruction::ShiftLeft { x, y } => 0 <= x < 16 && 0 <= y < 16,
        Instruction::SkipIfRegistersNotEqual { x, y } => 0 <= x < 16 && 0 <= y < 16,
        Instruction::SetI { addr } => true,
        Instruction::JumpPlusV0 { n1, addr } => 0 <= n1 < 16,
        Instruction::Random { x, mask } => 0 <= x < 16,
        Instruction::Draw { x, y, n } => 0 <= x < 16 && 0 <= y < 16,
        Instruction::SkipIfPressed { x } => 0 <= x < 16,
        Instruction::SkipIfNotPressed { x } => 0 <= x < 16,
        Instruction::SetVxToDelay { x } => 0 <= x < 16,
        Instruction::GetKey { x } => 0 <= x < 16,
        Instruction::SetDelayTimer { x } => 0 <= x < 16,
        Instruction::SetSoundTimer { x } => 0 <= x < 16,
        Instruction::AddVxToI { x } => 0 <= x < 16,
        Instruction::SetIToSprite { x } => 0 <= x < 16,
        Instruction::BinaryCodedDecimal { x } => 0 <= x < 16,
        Instruction::RegDump { x } => 0 <= x < 16,
        Instruction::RegLoad { x } => 0 <= x < 16,
    }
}

/// An instruction that names registers that exist leaves the machine
/// whole.
pub proof fn lemma_apply_keeps_whole(
    machine: Machine,
    instruction: Instruction,
    key: Option<u8>,
    random: u8,
)
    requires
        machine.wf(),
        names_registers(instruction),
    ensures
        machine.apply(instruction, key, random) matches Ok(after) ==> after.wf(),
{
    lemma_apply(machine, instruction, key, random);
    match instruction {
        Instruction::SetRegisterTo { x, value } => {
            lemma_registers_stay_whole(machine, x, x, value, random);
        },
        Instruction::AddValueToRegister { x, value } => {
            lemma_registers_stay_whole(machine, x, x, value, random);
        },
        Instruction::SetXToY { x, y } => {
            lemma_registers_stay_whole(machine, x, y, 0, random);
        },
        Instruction::SetXToYOr { x, y } => {
            lemma_registers_stay_whole(machine, x, y, 0, random);
        },
        Instruction::SetXToYAnd { x, y } => {
            lemma_registers_stay_whole(machine, x, y, 0, random);
        },
        Instruction::SetXToYXor { x, y } => {
            lemma_registers_stay_whole(machine, x, y, 0, random);
        },
        Instruction::AddYToX { x, y } => {
            lemma_registers_stay_whole(machine, x, y, 0, random);
        },
        Instruction::SubtractYFromX { x, y } => {
            lemma_registers_stay_whole(machine, x, y, 0, random);
        },
        Instruction::ShiftRight { x, y } => {
            lemma_registers_stay_whole(machine, x, y, 0, random);
        },
        Instruction::SubtractXFromY { x, y } => {
            lemma_registers_stay_whole(machine, x, y, 0, random);
        },
        Instruction::ShiftLeft { x, y } => {
            lemma_registers_stay_whole(machine, x, y, 0, random);
        },
        Instruction::Random { x, mask } => {
            lemma_registers_stay_whole(machine, x, x, mask, random);
        },
        Instruction::SetVxToDelay { x } => {
            lemma_registers_stay_whole(machine, x, x, 0, random);
        },
        Instruction::GetKey { x } => {
            lemma_registers_stay_whole(machine, x, x, 0, random);
        },
        Instruction::RegLoad { x } => {
            lemma_registers_stay_whole(machine, x, x, 0, random);
        },
        Instruction::BinaryCodedDecimal { x } => {
            lemma_memory_stays_whole(machine, x);
        },
        Instruction::RegDump { x } => {
            lemma_memory_stays_whole(machine, x);
        },
        Instruction::ClearDisplay => {
            lemma_grid_stays_whole(machine, 0, 0, 0);
        },
        Instruction::Draw { x, y, n } => {
            lemma_grid_stays_whole(machine, x, y, n);
        },
        _ => {},
    }
}

/// The instructions that write registers leave sixteen of them.
proof fn lemma_registers_stay_whole(machine: Machine, x: int, y: int, value: u8, random: u8)
    requires
        machine.wf(),
        0 <= x < 16,
        0 <= y < 16,
    ensures
        machine.set_register_to(x, value).wf(),
        machine.add_value_to_register(x, value).wf(),
        machine.set_x_to_y(x, y).wf(),
        machine.set_x_to_y_or(x, y).wf(),
        machine.set_x_to_y_and(x, y).wf(),
        machine.set_x_to_y_xor(x, y).wf(),
        machine.add_y_to_x(x, y).wf(),
        machine.subtract_y_from_x(x, y).wf(),
        machine.subtract_x_from_y_and_assign_to_x(x, y).wf(),
        machine.shift_right(x, y).wf(),
        machine.shift_left(x, y).wf(),
        machine.set_vx_to_rand_and_nn(x, value, random).wf(),
        machine.set_vx_to_delay(x).wf(),
        machine.get_key(x).wf(),
        machine.reg_load(x) matches Ok(after) ==> after.wf(),
{
}

/// The instructions that write memory leave 4096 cells.
proof fn lemma_memory_stays_whole(machine: Machine, x: int)
    requires
        machine.wf(),
        0 <= x < 16,
    ensures
        machine.binary_coded_decimal(x) matches Ok(after) ==> after.wf(),
        machine.reg_dump(x) matches Ok(after) ==> after.wf(),
{
}

/// The instructions that write pixels leave a grid of 32 by 64.
proof fn lemma_grid_stays_whole(machine: Machine, x: int, y: int, n: int)
    requires
        machine.wf(),
        0 <= x < 16,
        0 <= y < 16,
    ensures
        machine.clear_display().wf(),
        machine.draw(x, y, n) matches Ok(after) ==> after.wf(),
{
}

/// A sprite that lands on no pixel leaves the grid as it is.
proof fn lemma_untouched_grid(machine: Machine, x: int, y: int, n: int)
    requires
        machine.wf(),
        !machine.touches(x, y, n),
    ensures
        machine.blit(x, y, n) == machine.pixels,
{
    assert forall|py: int, px: int| 0 <= py < 32 && 0 <= px < 64 implies !#[trigger] machine.lit(
        x,
        y,
        n,
        py,
        px,
    ) by {}
    assert(machine.blit(x, y, n) =~~= machine.pixels);
}

/// No instruction changes the configuration, ends a wait for a key, or
/// takes back the note that the grid has changed; and one that changes a
/// pixel leaves that note.
pub proof fn what_no_instruction_does(machine: Machine, word: u16, key: Option<u8>, random: u8)
    requires
        machine.wf(),
    ensures
        machine.execute(word, key, random) matches Ok(after) ==> {
            &&& after.config == machine.config
            &&& machine.blocked ==> after.blocked
            &&& machine.vram_changed ==> after.vram_changed
            &&& after.pixels != machine.pixels ==> after.vram_changed
        },
{
    reveal(Machine::execute);
    if let Ok(instruction) = decode(word) {
        lemma_apply(machine, instruction, key, random);
        if let Instruction::Draw { x, y, n } = instruction {
            if !machine.touches(x, y, n) {
                lemma_untouched_grid(machine, x, y, n);
            }
        }
    }
}

/// The random byte matters to the random instruction only.
pub proof fn only_cxnn_is_random(machine: Machine, word: u16, key: Option<u8>, random: u8, other: u8)
    requires
        word / 4096 != 0xC,
    ensures
        machine.execute(word, key, random) == machine.execute(word, key, other),
{
    reveal(Machine::execute);
    if let Ok(instruction) = decode(word) {
        lemma_apply(machine, instruction, key, random);
        lemma_apply(machine, instruction, key, other);
    }
}

/// After `Vx += Vy` the flag register is 1 if and only if the sum of the
/// two values is more than 255, and otherwise 0. Register `x`, unless it is
/// the flag register, holds the sum modulo 256.
pub proof fn add_sets_flag_on_carry(
    machine: Machine,
    x: int,
    y: int,
    key: Option<u8>,
    random: u8,
)
    requires
        machine.wf(),
        0 <= x < 16,
        0 <= y < 16,
    ensures
        machine.add_y_to_x(x, y).v(15) == 1 <==> machine.v(x) + machine.v(y) > 255,
        machine.add_y_to_x(x, y).v(15) == 0 <==> machine.v(x) + machine.v(y) <= 255,
        x != 15 ==> machine.add_y_to_x(x, y).v(x) == (machine.v(x) + machine.v(y)) % 256,
        machine.execute((0x8004 + 256 * x + 16 * y) as u16, key, random) == Ok::<Machine, Chip8Error>(
            machine.add_y_to_x(x, y),
        ),
{
    word_of_four_digits(8, x, y, 4);
    reveal(Machine::execute);
    lemma_apply(machine, Instruction::AddYToX { x, y }, key, random);
}

/// After `Vx -= Vy` the flag register is 1 if and only if the value of
/// register `x` was at least that of register `y`, and otherwise 0: it
/// tells that nothing was borrowed. After `Vx = Vy - Vx` it is 1 if and
/// only if the value of register `y` was at least that of register `x`.
pub proof fn subtract_sets_flag_without_borrow(
    machine: Machine,
    x: int,
    y: int,
    key: Option<u8>,
    random: u8,
)
    requires
        machine.wf(),
        0 <= x < 16,
        0 <= y < 16,
    ensures
        machine.subtract_y_from_x(x, y).v(15) == 1 <==> machine.v(x) >= machine.v(y),
        machine.subtract_y_from_x(x, y).v(15) == 0 <==> machine.v(x) < machine.v(y),
        x != 15 ==> machine.subtract_y_from_x(x, y).v(x) == (machine.v(x) - machine.v(y)) % 256,
        machine.subtract_x_from_y_and_assign_to_x(x, y).v(15) == 1 <==> machine.v(y) >= machine.v(
            x,
        ),
        machine.subtract_x_from_y_and_assign_to_x(x, y).v(15) == 0 <==> machine.v(y) < machine.v(x),
        x != 15 ==> machine.subtract_x_from_y_and_assign_to_x(x, y).v(x) == (machine.v(y)
            - machine.v(x)) % 256,
        machine.execute((0x8005 + 256 * x + 16 * y) as u16, key, random) == Ok::<Machine, Chip8Error>(
            machine.subtract_y_from_x(x, y),
        ),
        machine.execute((0x8007 + 256 * x + 16 * y) as u16, key, random) == Ok::<Machine, Chip8Error>(
            machine.subtract_x_from_y_and_assign_to_x(x, y),
        ),
{
    word_of_four_digits(8, x, y, 5);
    word_of_four_digits(8, x, y, 7);
    reveal(Machine::execute);
    lemma_apply(machine, Instruction::SubtractYFromX { x, y }, key, random);
    lemma_apply(machine, Instruction::SubtractXFromY { x, y }, key, random);
}

/// A shift to the right leaves the value shifted by one bit, with the flag
/// the lowest bit of the value before the shift. A shift to the left leaves
/// the value shifted by one bit, cut to eight bits, with the flag the
/// highest bit of the value before the shift. The value is that of register
/// `x` or of register `y`, as the dialect has it.
pub proof fn shift_sets_flag_to_lost_bit(
    machine: Machine,
    x: int,
    y: int,
    key: Option<u8>,
    random: u8,
)
    requires
        machine.wf(),
        0 <= x < 16,
        0 <= y < 16,
    ensures
        ({
            let value = machine.shift_source(x, y);
            &&& machine.shift_right(x, y).v(15) == 1 <==> bit_at(value as u16, 0)
            &&& machine.shift_right(x, y).v(15) == 0 <==> !bit_at(value as u16, 0)
            &&& x != 15 ==> machine.shift_right(x, y).v(x) == value >> 1u8
            &&& machine.shift_left(x, y).v(15) == 1 <==> bit_at(value as u16, 7)
            &&& machine.shift_left(x, y).v(15) == 0 <==> !bit_at(value as u16, 7)
            &&& x != 15 ==> machine.shift_left(x, y).v(x) == value << 1u8
            &&& machine.execute((0x8006 + 256 * x + 16 * y) as u16, key, random) == Ok::<
                Machine,
                Chip8Error,
            >(machine.shift_right(x, y))
            &&& machine.execute((0x800E + 256 * x + 16 * y) as u16, key, random) == Ok::<
                Machine,
                Chip8Error,
            >(machine.shift_left(x, y))
        }),
{
    lemma_shift_of_byte(machine.shift_source(x, y));
    word_of_four_digits(8, x, y, 6);
    word_of_four_digits(8, x, y, 0xE);
    reveal(Machine::execute);
    lemma_apply(machine, Instruction::ShiftRight { x, y }, key, random);
    lemma_apply(machine, Instruction::ShiftLeft { x, y }, key, random);
}

/// The decimal digits of register `x` go to the three cells at the index
/// register: `[v / 100, (v / 10) % 10, v % 10]`. Each is a digit, and
/// together they make up the value.
pub proof fn bcd_writes_three_digits(machine: Machine, x: int, key: Option<u8>, random: u8)
    requires
        machine.wf(),
        0 <= x < 16,
        machine.registers.i + 2 < 4096,
    ensures
        ({
            let i = machine.registers.i as int;
            let value = machine.v(x);
            &&& machine.binary_coded_decimal(x) matches Ok(after)
            &&& after.memory.subrange(i, i + 3) == seq![value / 100, (value / 10) % 10, value % 10]
            &&& after.memory[i] <= 2 && after.memory[i + 1] <= 9 && after.memory[i + 2] <= 9
            &&& 100 * after.memory[i] + 10 * after.memory[i + 1] + after.memory[i + 2] == value
            &&& forall|a: int| 0 <= a < 4096 && !(i <= a < i + 3) ==> after.memory[a]
                == machine.memory[a]
            &&& after == (Machine { memory: after.memory, ..machine })
            &&& machine.execute((0xF033 + 256 * x) as u16, key, random) == Ok::<
                Machine,
                Chip8Error,
            >(after)
        }),
{
    word_of_four_digits(0xF, x, 3, 3);
    reveal(Machine::execute);
    lemma_apply(machine, Instruction::BinaryCodedDecimal { x }, key, random);
    let i = machine.registers.i as int;
    let after = machine.binary_coded_decimal(x)->Ok_0;
    let value = machine.v(x);
    assert(after.memory.subrange(i, i + 3) =~= seq![value / 100, (value / 10) % 10, value % 10]);
}

/// Whether the sprite's pixel in row `row`, column `col` is set and lands
/// on the pixel in row `py`, column `px` of the grid, going by where the
/// dialect puts a pixel that lies `col` columns right and `row` rows below
/// the sprite's corner.
pub open spec fn lands_on(
    machine: Machine,
    x: int,
    y: int,
    row: int,
    col: int,
    py: int,
    px: int,
) -> bool {
    machine.sprite_bit(row, col) && machine.config.quirks.pixel_position(
        machine.sprite_left(x),
        col,
        machine.sprite_top(y),
        row,
    ) == (px, py)
}

/// A pixel of the grid is flipped by a draw just where a set pixel of the
/// sprite lands on it, and no two pixels of a sprite land on the same pixel
/// of the grid.
pub proof fn sprite_pixels_land_one_each(machine: Machine, x: int, y: int, n: int, py: int, px: int)
    requires
        0 <= n < 16,
        0 <= py < 32,
        0 <= px < 64,
    ensures
        machine.lit(x, y, n, py, px) <==> exists|row: int, col: int|
            0 <= row < n && 0 <= col < 8 && #[trigger] lands_on(machine, x, y, row, col, py, px),
        forall|row: int, col: int, other_row: int, other_col: int|
            0 <= row < n && 0 <= col < 8 && 0 <= other_row < n && 0 <= other_col < 8
                && #[trigger] lands_on(machine, x, y, row, col, py, px) && #[trigger] lands_on(
                machine,
                x,
                y,
                other_row,
                other_col,
                py,
                px,
            ) ==> row == other_row && col == other_col,
{
    let at_row = machine.sprite_row_at(y, py);
    let at_col = machine.sprite_col_at(x, px);
    if machine.lit(x, y, n, py, px) {
        lemma_one_pixel_each(machine, x, y, at_row, at_col, py, px);
        assert(lands_on(machine, x, y, at_row, at_col, py, px));
    }
    assert forall|row: int, col: int|
        0 <= row < n && 0 <= col < 8 && #[trigger] lands_on(
            machine,
            x,
            y,
            row,
            col,
            py,
            px,
        ) implies row == at_row && col == at_col by {
        lemma_one_pixel_each(machine, x, y, row, col, py, px);
    }
}

/// Drawing is its own inverse: where a machine draws the sprite that was
/// just drawn, at the same place, the grid is again what it was before the
/// first draw. The second draw finds a pixel on, and so reports 1 in the
/// flag register, if and only if the sprite landed on a pixel that was off
/// before the first draw.
pub proof fn drawing_twice_restores_the_grid(machine: Machine, again: Machine, x: int, y: int, n: int)
    requires
        machine.wf(),
        again.pixels == machine.blit(x, y, n),
        same_sprite_same_place(machine, again, x, y, n),
    ensures
        again.blit(x, y, n) == machine.pixels,
        again.collides(x, y, n) == lands_on_dark(machine, x, y, n),
{
    assert forall|py: int, px: int| 0 <= py < 32 && 0 <= px < 64 implies #[trigger] again.lit(
        x,
        y,
        n,
        py,
        px,
    ) == machine.lit(x, y, n, py, px) by {
        let row = machine.sprite_row_at(y, py);
        let col = machine.sprite_col_at(x, px);
        if 0 <= row < n && 0 <= col < 8 {
            assert(again.sprite_bit(row, col) == machine.sprite_bit(row, col));
        }
    }
    assert(again.blit(x, y, n) =~~= machine.pixels);
    if again.collides(x, y, n) {
        let (py, px) = choose|py: int, px: int|
            0 <= py < 32 && 0 <= px < 64 && #[trigger] again.lit(x, y, n, py, px)
                && again.pixels[py][px];
        assert(machine.lit(x, y, n, py, px));
    }
    if lands_on_dark(machine, x, y, n) {
        let (py, px) = choose|py: int, px: int|
            0 <= py < 32 && 0 <= px < 64 && #[trigger] machine.lit(x, y, n, py, px)
                && !machine.pixels[py][px];
        assert(again.lit(x, y, n, py, px));
    }
}

/// Two machines with the same grid, memory, registers and dialect draw the
/// same.
pub proof fn drawing_again_sees_the_same(machine: Machine, other: Machine, x: int, y: int, n: int)
    requires
        other.pixels == machine.pixels,
        other.memory == machine.memory,
        other.registers == machine.registers,
        other.config == machine.config,
    ensures
        other.blit(x, y, n) == machine.blit(x, y, n),
        other.touches(x, y, n) == machine.touches(x, y, n),
        other.collides(x, y, n) == machine.collides(x, y, n),
{
    assert forall|py: int, px: int| #[trigger]
        other.lit(x, y, n, py, px) == machine.lit(x, y, n, py, px) by {}
    assert(other.blit(x, y, n) =~~= machine.blit(x, y, n));
    if other.touches(x, y, n) {
        let (py, px) = choose|py: int, px: int|
            0 <= py < 32 && 0 <= px < 64 && #[trigger] other.lit(x, y, n, py, px);
        assert(machine.lit(x, y, n, py, px));
    }
    if machine.touches(x, y, n) {
        let (py, px) = choose|py: int, px: int|
            0 <= py < 32 && 0 <= px < 64 && #[trigger] machine.lit(x, y, n, py, px);
        assert(other.lit(x, y, n, py, px));
    }
    if other.collides(x, y, n) {
        let (py, px) = choose|py: int, px: int|
            0 <= py < 32 && 0 <= px < 64 && #[trigger] other.lit(x, y, n, py, px)
                && other.pixels[py][px];
        assert(machine.lit(x, y, n, py, px));
    }
    if machine.collides(x, y, n) {
        let (py, px) = choose|py: int, px: int|
            0 <= py < 32 && 0 <= px < 64 && #[trigger] machine.lit(x, y, n, py, px)
                && machine.pixels[py][px];
        assert(other.lit(x, y, n, py, px));
    }
}

/// The same of the draw instruction itself, in a dialect whose draws do not
/// wait: drawn twice, with the coordinates still in their registers, a
/// sprite leaves the grid as it was, and the flag register at 1 if it
/// landed on a pixel that was off at first.
pub proof fn draw_instruction_twice(machine: Machine, x: int, y: int, n: int)
    requires
        machine.wf(),
        0 <= x < 16,
        0 <= y < 16,
        0 <= n < 16,
        !machine.config.quirks.display_wait,
        machine.draw(x, y, n) matches Ok(once) && once.sprite_left(x) == machine.sprite_left(x)
            && once.sprite_top(y) == machine.sprite_top(y),
    ensures
        ({
            let once = machine.draw(x, y, n)->Ok_0;
            &&& once.draw(x, y, n) matches Ok(twice)
            &&& twice.pixels == machine.pixels
            &&& twice.v(15) == 1 <==> lands_on_dark(machine, x, y, n)
            &&& twice.v(15) == 0 <==> !lands_on_dark(machine, x, y, n)
        }),
{
    let once = machine.draw(x, y, n)->Ok_0;
    assert forall|row: int, col: int| 0 <= row < n && 0 <= col < 8 implies #[trigger] once.sprite_bit(
        row,
        col,
    ) == machine.sprite_bit(row, col) by {}
    drawing_twice_restores_the_grid(machine, once, x, y, n);
}

/// With the display wait, of two draws issued within one frame only the
/// first is made. The second leaves the grid alone, and with it the
/// program counter stays at the draw, however often the cycle is repeated.
/// After the end of the frame the same cycle makes the draw and moves on.
pub proof fn second_draw_waits_for_the_frame(
    machine: Machine,
    key: Option<u8>,
    random: u8,
)
    requires
        machine.wf(),
        !machine.blocked,
        machine.config.quirks.display_wait,
        machine.vblank == VBLank::Free,
        machine.pc + 3 < 4096,
        machine.word_at_pc() / 4096 == 0xD,
        (Machine { pc: (machine.pc + 2) as u16, ..machine }).word_at_pc() / 4096 == 0xD,
        machine.cycle(key, random) is Ok,
    ensures
        ({
            let first = machine.word_at_pc();
            let second = (Machine { pc: (machine.pc + 2) as u16, ..machine }).word_at_pc();
            let once = machine.cycle(key, random)->Ok_0;
            let waiting = Machine { vblank: VBLank::WaitForInterrupt, ..once };
            &&& once.pixels == machine.blit(
                ((first / 256) % 16) as int,
                ((first / 16) % 16) as int,
                (first % 16) as int,
            )
            &&& once.pc == machine.pc + 2
            &&& once.cycle(key, random) == Ok::<Machine, Chip8Error>(waiting)
            &&& waiting.cycle(key, random) == Ok::<Machine, Chip8Error>(waiting)
            &&& waiting.end_frame().vblank == VBLank::Free
            &&& waiting.end_frame().cycle(key, random) matches Ok(after) ==> after.pc == once.pc
                + 2 && after.pixels == once.blit(
                ((second / 256) % 16) as int,
                ((second / 16) % 16) as int,
                (second % 16) as int,
            )
        }),
{
    reveal(Machine::execute);
    let first = machine.word_at_pc();
    let once = machine.cycle(key, random)->Ok_0;
    let fetched = machine.fetch()->Ok_0;
    lemma_apply(
        fetched,
        Instruction::Draw {
            x: ((first / 256) % 16) as int,
            y: ((first / 16) % 16) as int,
            n: (first % 16) as int,
        },
        key,
        random,
    );
    drawing_again_sees_the_same(
        machine,
        fetched,
        ((first / 256) % 16) as int,
        ((first / 16) % 16) as int,
        (first % 16) as int,
    );
    assert(once.memory == machine.memory);
    assert(once.pc == machine.pc + 2);
    assert(once.vblank == VBLank::WaitForDraw);
    assert(once.word_at_pc() == (Machine { pc: (machine.pc + 2) as u16, ..machine }).word_at_pc());
    let waiting = Machine { vblank: VBLank::WaitForInterrupt, ..once };
    waiting_draw_changes_nothing(once, key, random);
    waiting_draw_changes_nothing(waiting, key, random);
    let released = waiting.end_frame();
    let second = released.word_at_pc();
    if released.cycle(key, random) is Ok {
        lemma_apply(
            released.fetch()->Ok_0,
            Instruction::Draw {
                x: ((second / 256) % 16) as int,
                y: ((second / 16) % 16) as int,
                n: (second % 16) as int,
            },
            key,
            random,
        );
        drawing_again_sees_the_same(
            once,
            released.fetch()->Ok_0,
            ((second / 256) % 16) as int,
            ((second / 16) % 16) as int,
            (second % 16) as int,
        );
    }
}

/// A draw that has to wait changes nothing: the cycle leaves the machine as
/// it was, but for the note that a draw waits.
pub proof fn waiting_draw_changes_nothing(machine: Machine, key: Option<u8>, random: u8)
    requires
        !machine.blocked,
        machine.config.quirks.must_wait(machine.vblank),
        machine.pc + 1 < 4096,
        machine.word_at_pc() / 4096 == 0xD,
    ensures
        machine.cycle(key, random) == Ok::<Machine, Chip8Error>(
            Machine { vblank: VBLank::WaitForInterrupt, ..machine },
        ),
{
    reveal(Machine::execute);
    let fetched = machine.fetch()->Ok_0;
    let word = machine.word_at_pc();
    lemma_apply(
        fetched,
        Instruction::Draw {
            x: ((word / 256) % 16) as int,
            y: ((word / 16) % 16) as int,
            n: (word % 16) as int,
        },
        key,
        random,
    );
}

/// The jump with offset adds register 0 whatever the address, unless the
/// dialect takes the register from the address: then it adds the register
/// that the leading nibble of the address names.
pub proof fn jump_adds_the_register_of_the_dialect(machine: Machine, addr: u16, key: Option<u8>, random: u8)
    requires
        machine.wf(),
        addr < 4096,
    ensures
        ({
            let n1 = (addr / 256) as int;
            let word = (0xB000 + addr) as u16;
            &&& machine.execute(word, key, random) == Ok::<Machine, Chip8Error>(
                machine.jump_plus_v0(n1, addr),
            )
            &&& !machine.config.quirks.jumping ==> machine.jump_plus_v0(n1, addr).pc == addr
                + machine.v(0)
            &&& machine.config.quirks.jumping ==> machine.jump_plus_v0(n1, addr).pc == addr
                + machine.v(n1)
            &&& machine.jump_plus_v0(n1, addr) == (Machine {
                pc: machine.jump_plus_v0(n1, addr).pc,
                ..machine
            })
        }),
{
    let n1 = (addr / 256) as int;
    let n2 = ((addr / 16) % 16) as int;
    let n3 = (addr % 16) as int;
    word_of_four_digits(0xB, n1, n2, n3);
    reveal(Machine::execute);
    lemma_apply(machine, Instruction::JumpPlusV0 { n1, addr }, key, random);
}

/// The wait for a key: the instruction makes the machine wait, and notes
/// the register. While it waits, a cycle does nothing. The key that is
/// delivered goes to that register and ends the wait, and the next cycle
/// fetches the instruction after the wait.
pub proof fn key_wait_blocks_until_a_key_arrives(
    machine: Machine,
    x: int,
    delivered: u8,
    key: Option<u8>,
    random: u8,
)
    requires
        machine.wf(),
        0 <= x < 16,
    ensures
        ({
            let waiting = machine.get_key(x);
            let resumed = waiting.set_key(delivered);
            &&& machine.execute((0xF00A + 256 * x) as u16, key, random) == Ok::<
                Machine,
                Chip8Error,
            >(waiting)
            &&& waiting.blocked
            &&& waiting.cycle(key, random) == Ok::<Machine, Chip8Error>(waiting)
            &&& !resumed.blocked
            &&& resumed.v(x) == delivered
            &&& resumed == (Machine {
                blocked: false,
                blocked_key_vx: x as u8,
                ..machine.with_v(x, delivered)
            })
            &&& resumed.cycle(key, random) == match resumed.fetch() {
                Ok(fetched) => fetched.execute(resumed.word_at_pc(), key, random),
                Err(error) => Err(error),
            }
        }),
{
    word_of_four_digits(0xF, x, 0, 0xA);
    reveal(Machine::execute);
    lemma_apply(machine, Instruction::GetKey { x }, key, random);
}

/// A timer goes down by one per frame, and not below zero.
pub proof fn timers_tick_down_to_zero(machine: Machine)
    ensures
        ({
            let after = machine.end_frame();
            &&& after.delay_timer == if machine.delay_timer == 0 {
                0
            } else {
                machine.delay_timer - 1
            }
            &&& after.sound_timer == if machine.sound_timer == 0 {
                0
            } else {
                machine.sound_timer - 1
            }
            &&& after == (Machine {
                delay_timer: after.delay_timer,
                sound_timer: after.sound_timer,
                vblank: after.vblank,
                ..machine
            })
        }),
{
}

/// A run keeps the machine whole, whatever its length and its random
/// bytes.
pub proof fn run_keeps_machine_whole(start: Machine, cycles: nat, draws: Seq<u8>)
    requires
        start.wf(),
        draws.len() >= cycles,
    ensures
        run(start, cycles, draws).machine.wf(),
        before_cycle(start, cycles, draws).wf(),
    decreases cycles,
{
    if cycles > 0 {
        run_keeps_machine_whole(start, (cycles - 1) as nat, draws);
        let machine = before_cycle(start, (cycles - 1) as nat, draws);
        execute_keeps_machine_whole(machine, 0, None, draws[cycles - 1]);
    }
    execute_keeps_machine_whole(run(start, cycles, draws).machine, 0, None, 0);
}

} // verus!

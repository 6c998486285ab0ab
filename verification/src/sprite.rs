//! The draw instruction.

use vstd::prelude::*;
use crate::bit_ops::get_bit_at;
use crate::chip8::{Chip8, CH8_HEIGHT, CH8_WIDTH};
use crate::error::Chip8Error;
use crate::machine::{stepped, Machine};

verus! {

/// Masking a byte to its low six or five bits takes it modulo 64 or 32.
proof fn lemma_mask_is_modulo(val: u8)
    ensures
        val & 63 == val % 64,
        val & 31 == val % 32,
{
    assert(val & 63 == val % 64) by (bit_vector);
    assert(val & 31 == val % 32) by (bit_vector);
}

/// Whether a set pixel of the sprite lands on the pixel in row `py`, column
/// `px`, and is among the first `k` pixels of the sprite, counted row by
/// row.
spec fn lit_before(start: Machine, x: int, y: int, n: int, k: int, py: int, px: int) -> bool {
    start.lit(x, y, n, py, px) && 8 * start.sprite_row_at(y, py) + start.sprite_col_at(x, px) < k
}

/// Whether one of the first `k` pixels of the sprite lands on the grid.
spec fn touches_before(start: Machine, x: int, y: int, n: int, k: int) -> bool {
    exists|py: int, px: int|
        0 <= py < 32 && 0 <= px < 64 && #[trigger] lit_before(start, x, y, n, k, py, px)
}

/// Whether one of the first `k` pixels of the sprite lands on a pixel that
/// is on.
spec fn collides_before(start: Machine, x: int, y: int, n: int, k: int) -> bool {
    exists|py: int, px: int|
        0 <= py < 32 && 0 <= px < 64 && #[trigger] lit_before(start, x, y, n, k, py, px)
            && start.pixels[py][px]
}

/// The grid after the first `k` pixels of the sprite were drawn.
spec fn drawn_before(start: Machine, grid: Seq<Seq<bool>>, x: int, y: int, n: int, k: int) -> bool {
    &&& grid.len() == 32
    &&& forall|py: int| 0 <= py < 32 ==> (#[trigger] grid[py]).len() == 64
    &&& forall|py: int, px: int|
        0 <= py < 32 && 0 <= px < 64 ==> grid[py][px] == (start.pixels[py][px] != lit_before(
            start,
            x,
            y,
            n,
            k,
            py,
            px,
        ))
}

/// Going `d` rows down from row `b` of the grid, around its lower edge,
/// ends in row `a` just where `a` lies `d` rows below `b`, around that edge.
proof fn lemma_wrap_rows(a: int, b: int, d: int)
    requires
        0 <= a < 32,
        0 <= b < 32,
        0 <= d < 32,
    ensures
        ((a - b) % 32 == d) <==> (a == (b + d) % 32),
{
    if a - b >= 0 {
        assert((a - b) % 32 == a - b);
    } else {
        assert((a - b) % 32 == a - b + 32);
    }
    if b + d < 32 {
        assert((b + d) % 32 == b + d);
    } else {
        assert((b + d) % 32 == b + d - 32);
    }
}

/// The same for the columns, around the right edge of the grid.
proof fn lemma_wrap_columns(a: int, b: int, d: int)
    requires
        0 <= a < 64,
        0 <= b < 64,
        0 <= d < 64,
    ensures
        ((a - b) % 64 == d) <==> (a == (b + d) % 64),
{
    if a - b >= 0 {
        assert((a - b) % 64 == a - b);
    } else {
        assert((a - b) % 64 == a - b + 64);
    }
    if b + d < 64 {
        assert((b + d) % 64 == b + d);
    } else {
        assert((b + d) % 64 == b + d - 64);
    }
}

/// The pixel of the grid that the sprite's pixel in row `row`, column `col`
/// lands on is the only one that this pixel of the sprite lands on.
pub proof fn lemma_one_pixel_each(start: Machine, x: int, y: int, row: int, col: int, py: int, px: int)
    requires
        0 <= row < 16,
        0 <= col < 8,
        0 <= py < 32,
        0 <= px < 64,
    ensures
        (start.sprite_row_at(y, py) == row && start.sprite_col_at(x, px) == col) <==> (px, py)
            == start.config.quirks.pixel_position(
            start.sprite_left(x),
            col,
            start.sprite_top(y),
            row,
        ),
{
    let left = start.sprite_left(x);
    let top = start.sprite_top(y);
    assert(0 <= left < 64 && 0 <= top < 32);
    if !start.config.quirks.clipping {
        lemma_wrap_rows(py, top, row);
        lemma_wrap_columns(px, left, col);
    }
}

/// What drawing the sprite's pixel number `k`, in row `row` and column
/// `col`, adds to what the pixels before it did.
proof fn lemma_next_pixel(start: Machine, x: int, y: int, n: int, row: int, col: int)
    requires
        0 <= row < n <= 15,
        0 <= col < 8,
    ensures
        ({
            let k = 8 * row + col;
            let (tx, ty) = start.config.quirks.pixel_position(
                start.sprite_left(x),
                col,
                start.sprite_top(y),
                row,
            );
            let lands = start.sprite_bit(row, col) && 0 <= tx < 64 && 0 <= ty < 32;
            &&& forall|py: int, px: int|
                0 <= py < 32 && 0 <= px < 64 ==> #[trigger] lit_before(start, x, y, n, k + 1, py, px)
                    == (lit_before(start, x, y, n, k, py, px) || (lands && py == ty && px == tx))
            &&& lands ==> !lit_before(start, x, y, n, k, ty, tx)
            &&& touches_before(start, x, y, n, k + 1) == (touches_before(start, x, y, n, k)
                || lands)
            &&& collides_before(start, x, y, n, k + 1) == (collides_before(start, x, y, n, k) || (
            lands && start.pixels[ty][tx]))
        }),
{
    let k = 8 * row + col;
    let (tx, ty) = start.config.quirks.pixel_position(
        start.sprite_left(x),
        col,
        start.sprite_top(y),
        row,
    );
    let lands = start.sprite_bit(row, col) && 0 <= tx < 64 && 0 <= ty < 32;
    assert forall|py: int, px: int| 0 <= py < 32 && 0 <= px < 64 implies #[trigger] lit_before(
        start,
        x,
        y,
        n,
        k + 1,
        py,
        px,
    ) == (lit_before(start, x, y, n, k, py, px) || (lands && py == ty && px == tx)) by {
        lemma_one_pixel_each(start, x, y, row, col, py, px);
    }
    if lands {
        lemma_one_pixel_each(start, x, y, row, col, ty, tx);
        assert(lit_before(start, x, y, n, k + 1, ty, tx));
    }
    if touches_before(start, x, y, n, k + 1) {
        let (py, px) = choose|py: int, px: int|
            0 <= py < 32 && 0 <= px < 64 && #[trigger] lit_before(start, x, y, n, k + 1, py, px);
        assert(lit_before(start, x, y, n, k, py, px) || lands);
    }
    if touches_before(start, x, y, n, k) {
        let (py, px) = choose|py: int, px: int|
            0 <= py < 32 && 0 <= px < 64 && #[trigger] lit_before(start, x, y, n, k, py, px);
        assert(lit_before(start, x, y, n, k + 1, py, px));
    }
    if collides_before(start, x, y, n, k + 1) {
        let (py, px) = choose|py: int, px: int|
            0 <= py < 32 && 0 <= px < 64 && #[trigger] lit_before(start, x, y, n, k + 1, py, px)
                && start.pixels[py][px];
        assert(lit_before(start, x, y, n, k, py, px) || (lands && py == ty && px == tx));
    }
    if collides_before(start, x, y, n, k) {
        let (py, px) = choose|py: int, px: int|
            0 <= py < 32 && 0 <= px < 64 && #[trigger] lit_before(start, x, y, n, k, py, px)
                && start.pixels[py][px];
        assert(lit_before(start, x, y, n, k + 1, py, px));
    }
}

/// All of the sprite's pixels are among its first `8 * n`.
proof fn lemma_lit_before_all(start: Machine, x: int, y: int, n: int, py: int, px: int)
    ensures
        lit_before(start, x, y, n, 8 * n, py, px) == start.lit(x, y, n, py, px),
{
}

/// Once all of its pixels are drawn, the sprite is drawn.
proof fn lemma_all_pixels(start: Machine, grid: Seq<Seq<bool>>, x: int, y: int, n: int)
    requires
        drawn_before(start, grid, x, y, n, 8 * n),
    ensures
        grid == start.blit(x, y, n),
        touches_before(start, x, y, n, 8 * n) == start.touches(x, y, n),
        collides_before(start, x, y, n, 8 * n) == start.collides(x, y, n),
{
    assert forall|py: int, px: int| 0 <= py < 32 && 0 <= px < 64 implies grid[py][px]
        == start.blit(x, y, n)[py][px] by {
        lemma_lit_before_all(start, x, y, n, py, px);
    }
    assert(grid =~~= start.blit(x, y, n));
    if touches_before(start, x, y, n, 8 * n) {
        let (py, px) = choose|py: int, px: int|
            0 <= py < 32 && 0 <= px < 64 && #[trigger] lit_before(start, x, y, n, 8 * n, py, px);
        lemma_lit_before_all(start, x, y, n, py, px);
    }
    if start.touches(x, y, n) {
        let (py, px) = choose|py: int, px: int|
            0 <= py < 32 && 0 <= px < 64 && #[trigger] start.lit(x, y, n, py, px);
        lemma_lit_before_all(start, x, y, n, py, px);
    }
    if collides_before(start, x, y, n, 8 * n) {
        let (py, px) = choose|py: int, px: int|
            0 <= py < 32 && 0 <= px < 64 && #[trigger] lit_before(start, x, y, n, 8 * n, py, px)
                && start.pixels[py][px];
        lemma_lit_before_all(start, x, y, n, py, px);
    }
    if start.collides(x, y, n) {
        let (py, px) = choose|py: int, px: int|
            0 <= py < 32 && 0 <= px < 64 && #[trigger] start.lit(x, y, n, py, px)
                && start.pixels[py][px];
        lemma_lit_before_all(start, x, y, n, py, px);
    }
}

impl Chip8 {
    /// `DXYN`: draws the sprite of `n` rows that lies at the index register,
    /// its top left corner at the column and row that registers `x` and `y`
    /// give, both taken modulo the size of the grid. Each set pixel of the
    /// sprite flips the pixel that it lands on; one that falls off the grid
    /// is dropped or wrapped around as the dialect has it. The flag register
    /// becomes 1 where a pixel went off, else 0.
    ///
    /// Where the dialect makes draws wait for the vertical blank, only the
    /// first draw after a vertical blank is made: any other draws nothing
    /// and takes the program counter back to the draw instruction.
    ///
    /// Fails where the sprite does not lie within the memory, or where the
    /// program counter cannot go back.
    pub fn draw(&mut self, x: u8, y: u8, n: u8) -> (res: Result<(), Chip8Error>)
        requires
            x < 16,
            y < 16,
            n < 16,
            old(self)@.wf(),
        ensures
            stepped(old(self)@, old(self)@.draw(x as int, y as int, n as int), res, final(self)@),
            final(self)@.wf(),
    {
        let vblank = self.vblank;
        if self.config.quirks.display_wait(&mut self.vblank) {
            if self.pc < 2 {
                self.vblank = vblank;
                return Err(Chip8Error::AddressOutOfRange);
            }
            self.pc -= 2;
            return Ok(());
        }
        if n > 0 && self.registers.i > 4096 - n as u16 {
            self.vblank = vblank;
            return Err(Chip8Error::AddressOutOfRange);
        }
        let vx = self.registers.get(x) & 63;
        let vy = self.registers.get(y) & 31;
        let mut flipped = false;
        let ghost start = old(self)@;
        proof {
            lemma_mask_is_modulo(start.v(x as int));
            lemma_mask_is_modulo(start.v(y as int));
        }

        let mut row: u8 = 0;
        while row < n
            invariant
                row <= n < 16,
                x < 16,
                y < 16,
                n > 0 ==> start.registers.i + n <= 4096,
                start.wf(),
                vx == start.sprite_left(x as int),
                vy == start.sprite_top(y as int),
                self@ == (Machine {
                    pixels: self@.pixels,
                    vram_changed: self@.vram_changed,
                    vblank: start.config.quirks.next_vblank(start.vblank),
                    ..start
                }),
                drawn_before(start, self@.pixels, x as int, y as int, n as int, 8 * row),
                self@.vram_changed == (start.vram_changed || touches_before(
                    start,
                    x as int,
                    y as int,
                    n as int,
                    8 * row,
                )),
                flipped == collides_before(start, x as int, y as int, n as int, 8 * row),
            decreases n - row,
        {
            let mut pix: u8 = 0;
            while pix < 8
                invariant
                    row < n < 16,
                    pix <= 8,
                    x < 16,
                    y < 16,
                    start.registers.i + n <= 4096,
                    start.wf(),
                    vx == start.sprite_left(x as int),
                    vy == start.sprite_top(y as int),
                    self@ == (Machine {
                        pixels: self@.pixels,
                        vram_changed: self@.vram_changed,
                        vblank: start.config.quirks.next_vblank(start.vblank),
                        ..start
                    }),
                    drawn_before(start, self@.pixels, x as int, y as int, n as int, 8 * row + pix),
                    self@.vram_changed == (start.vram_changed || touches_before(
                        start,
                        x as int,
                        y as int,
                        n as int,
                        8 * row + pix,
                    )),
                    flipped == collides_before(
                        start,
                        x as int,
                        y as int,
                        n as int,
                        8 * row + pix,
                    ),
                decreases 8 - pix,
            {
                let i_val = self.memory[self.registers.i as usize + row as usize];
                let i_bit = get_bit_at(i_val as u16, 7 - pix);
                let (curr_x, curr_y) = self.config.quirks.clipping(vx, pix, vy, row);
                proof {
                    lemma_next_pixel(start, x as int, y as int, n as int, row as int, pix as int);
                }

                if i_bit && curr_x < CH8_WIDTH && curr_y < CH8_HEIGHT {
                    let current_pixel = self.get_pixel(curr_y, curr_x);
                    let screen_val = i_bit ^ current_pixel;
                    if !screen_val && current_pixel {
                        flipped = true
                    };

                    self.set_pixel(curr_y, curr_x, screen_val);
                    self.vram_changed = true;
                }
                pix += 1;
            }
            row += 1;
        }

        self.registers.set_vf(
            if flipped {
                1
            } else {
                0
            },
        );
        proof {
            lemma_all_pixels(start, self@.pixels, x as int, y as int, n as int);
        }
        Ok(())
    }
}

} // verus!

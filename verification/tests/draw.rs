use yac8::chip8::{Chip8, Chip8Vram, Config, VBLank};
use yac8::chip8_runner::end_frame;
use yac8::error::Chip8Error;
use yac8::quirks::{ch8_quirks, schip_quirks, xochip_quirks, Quirks};

const BLANK: Chip8Vram = [[false; 64]; 32];

fn machine_with(quirks: Quirks) -> Chip8 {
    Chip8::with_config(vec![], Config::new(false, quirks))
}

fn run(chip8: &mut Chip8, words: &[u16]) {
    for word in words {
        assert_eq!(chip8.execute(*word, None, 0), Ok(()), "{:#06x}", word);
    }
}

fn lit(grid: &Chip8Vram) -> Vec<(usize, usize)> {
    let mut pixels = Vec::new();
    for y in 0..32 {
        for x in 0..64 {
            if grid[y][x] {
                pixels.push((x, y));
            }
        }
    }
    pixels
}

/// The pixels of a sprite drawn at a column and a row, the parts off the
/// grid dropped or wrapped around.
fn sprite(rows: &[u8], left: usize, top: usize, wrap: bool) -> Vec<(usize, usize)> {
    let mut pixels = Vec::new();
    for (row, byte) in rows.iter().enumerate() {
        for col in 0..8 {
            if byte & (0x80 >> col) != 0 {
                let (x, y) = (left + col, top + row);
                if wrap {
                    pixels.push((x % 64, y % 32));
                } else if x < 64 && y < 32 {
                    pixels.push((x, y));
                }
            }
        }
    }
    pixels.sort_by_key(|(x, y)| (*y, *x));
    pixels
}

#[test]
fn a_glyph_in_the_corner() {
    let mut chip8 = machine_with(schip_quirks());
    run(&mut chip8, &[0x6002, 0xf029, 0x6100, 0xd115]);
    assert_eq!(lit(&chip8.vram), sprite(&[0xF0, 0x10, 0xF0, 0x80, 0xF0], 0, 0, false));
    assert_eq!(chip8.registers.get(0xf), 0);
    assert!(chip8.vram_changed);
    assert_eq!(chip8.pc(), 0x200);
}

#[test]
fn the_highest_bit_is_the_leftmost_pixel() {
    let mut chip8 = machine_with(schip_quirks());
    chip8.load_to_memory(&[0x80, 0x01, 0x42], 0x300);
    run(&mut chip8, &[0xa300, 0x600a, 0x6105, 0xd013]);
    assert_eq!(lit(&chip8.vram), vec![(10, 5), (17, 6), (11, 7), (16, 7)]);
}

#[test]
fn coordinates_are_taken_modulo_the_grid() {
    for quirks in [ch8_quirks(), schip_quirks(), xochip_quirks()] {
        let mut chip8 = machine_with(quirks);
        run(&mut chip8, &[0x6001, 0xf029, 0x6042 + 0x64, 0x61ff, 0xd015]);
        assert_eq!(chip8.registers.get(0), 0xa6);
        assert_eq!(
            lit(&chip8.vram),
            sprite(&[0x20, 0x60, 0x20, 0x20, 0x70], 0xa6 % 64, 0xff % 32, !quirks.clipping)
        );
    }
}

#[test]
fn pixels_off_the_grid_are_dropped_or_wrapped() {
    let rows = [0xff, 0x81, 0xff, 0x81, 0xff, 0x81];
    for quirks in [ch8_quirks(), schip_quirks(), xochip_quirks()] {
        let mut chip8 = machine_with(quirks);
        chip8.load_to_memory(&rows, 0x300);
        run(&mut chip8, &[0xa300, 0x603c, 0x611e, 0xd016]);
        let expected = sprite(&rows, 60, 30, !quirks.clipping);
        assert_eq!(lit(&chip8.vram), expected);
        assert_eq!(expected.len(), if quirks.clipping { 4 + 1 } else { 8 + 2 + 8 + 2 + 8 + 2 });
        assert_eq!(chip8.registers.get(0xf), 0);
    }
}

#[test]
fn a_sprite_that_is_all_off_the_grid_wraps_in_one_piece() {
    let mut chip8 = machine_with(xochip_quirks());
    run(&mut chip8, &[0x6008, 0xf029, 0x603f, 0x611f, 0xd015]);
    assert_eq!(lit(&chip8.vram), sprite(&[0xF0, 0x90, 0xF0, 0x90, 0xF0], 63, 31, true));
    assert!(chip8.vram[31][63]);
    assert!(chip8.vram[31][0]);
    assert!(chip8.vram[0][63]);
    assert!(!chip8.vram[0][0]);
    assert!(chip8.vram[3][2]);
}

#[test]
fn drawing_twice_erases() {
    for quirks in [schip_quirks(), xochip_quirks()] {
        for (x, y) in [(0u16, 0u16), (0x1e, 0x0d), (0x3c, 0x1e), (0x3f, 0x1f)] {
            let mut chip8 = machine_with(quirks);
            run(&mut chip8, &[0x600b, 0xf029, 0x6100 | x, 0x6200 | y, 0xd125]);
            assert_ne!(chip8.vram, BLANK);
            assert_eq!(chip8.registers.get(0xf), 0);
            run(&mut chip8, &[0xd125]);
            assert_eq!(chip8.vram, BLANK);
            assert_eq!(chip8.registers.get(0xf), 1);
        }
    }
}

#[test]
fn drawing_twice_restores_any_grid() {
    let mut chip8 = machine_with(schip_quirks());
    for y in 0..32u8 {
        for x in 0..64u8 {
            chip8.set_pixel(y, x, (x as u32 * 7 + y as u32 * 13) % 5 < 2);
        }
    }
    let before = chip8.vram;
    chip8.load_to_memory(&[0xa5, 0x5a, 0xff, 0x00, 0x3c, 0xc3, 0x18], 0x300);
    run(&mut chip8, &[0xa300, 0x6111, 0x6207, 0xd127]);
    assert_ne!(chip8.vram, before);
    assert_eq!(chip8.registers.get(0xf), 1);
    run(&mut chip8, &[0xd127]);
    assert_eq!(chip8.vram, before);
    assert_eq!(chip8.registers.get(0xf), 1);
}

#[test]
fn second_draw_of_a_sprite_that_only_erased_reports_no_collision() {
    let mut chip8 = machine_with(schip_quirks());
    for y in 0..32u8 {
        for x in 0..64u8 {
            chip8.set_pixel(y, x, true);
        }
    }
    let before = chip8.vram;
    run(&mut chip8, &[0x6003, 0xf029, 0x6105, 0xd115]);
    assert_eq!(chip8.registers.get(0xf), 1);
    run(&mut chip8, &[0xd115]);
    assert_eq!(chip8.vram, before);
    assert_eq!(chip8.registers.get(0xf), 0);
}

#[test]
fn an_empty_sprite_changes_nothing() {
    let mut chip8 = machine_with(schip_quirks());
    run(&mut chip8, &[0xa300, 0x6f01, 0xd005]);
    assert_eq!(chip8.vram, BLANK);
    assert!(!chip8.vram_changed);
    assert_eq!(chip8.registers.get(0xf), 0);
    run(&mut chip8, &[0x6f01, 0xa000, 0xd000]);
    assert_eq!(chip8.vram, BLANK);
    assert!(!chip8.vram_changed);
    assert_eq!(chip8.registers.get(0xf), 0);
}

#[test]
fn collision_where_one_pixel_goes_off() {
    let mut chip8 = machine_with(schip_quirks());
    chip8.load_to_memory(&[0x80], 0x300);
    run(&mut chip8, &[0xa300, 0x6005, 0x6105, 0xd011]);
    assert_eq!(lit(&chip8.vram), vec![(5, 5)]);
    run(&mut chip8, &[0x6006, 0xa000, 0xd015]);
    assert_eq!(chip8.registers.get(0xf), 0);
    assert!(chip8.vram[5][5]);
    run(&mut chip8, &[0x6002, 0xd015]);
    assert_eq!(chip8.registers.get(0xf), 1);
    assert!(!chip8.vram[5][5]);
}

#[test]
fn coordinates_in_the_flag_register() {
    let mut chip8 = machine_with(schip_quirks());
    run(&mut chip8, &[0x6f14, 0x6005, 0xa000, 0xdf05]);
    assert_eq!(lit(&chip8.vram), sprite(&[0xF0, 0x90, 0x90, 0x90, 0xF0], 20, 5, false));
    assert_eq!(chip8.registers.get(0xf), 0);
    run(&mut chip8, &[0xdf05]);
    assert_eq!(chip8.registers.get(0xf), 0);
    assert_eq!(lit(&chip8.vram).len(), 2 * 14);
}

#[test]
fn a_sprite_at_the_end_of_memory() {
    let mut chip8 = machine_with(schip_quirks());
    chip8.load_to_memory(&[0xff, 0xff], 0xffe);
    run(&mut chip8, &[0xaffe, 0xd002]);
    assert_eq!(lit(&chip8.vram).len(), 16);
    assert_eq!(chip8.execute(0xd003, None, 0), Err(Chip8Error::AddressOutOfRange));
    assert_eq!(lit(&chip8.vram).len(), 16);
    run(&mut chip8, &[0xafff]);
    assert_eq!(chip8.execute(0xd002, None, 0), Err(Chip8Error::AddressOutOfRange));
    run(&mut chip8, &[0xd001, 0xd000]);
    chip8.registers.i = 0xffff;
    run(&mut chip8, &[0xd000]);
    assert_eq!(chip8.execute(0xd001, None, 0), Err(Chip8Error::AddressOutOfRange));
}

#[test]
fn the_draw_method() {
    let mut chip8 = machine_with(schip_quirks());
    chip8.registers.set(1, 8);
    chip8.registers.set(2, 9);
    chip8.registers.i = 5 * 7;
    assert_eq!(chip8.draw(1, 2, 5), Ok(()));
    assert_eq!(lit(&chip8.vram), sprite(&[0xF0, 0x10, 0x20, 0x40, 0x40], 8, 9, false));
    chip8.registers.i = 4095;
    assert_eq!(chip8.draw(1, 2, 2), Err(Chip8Error::AddressOutOfRange));
}

#[test]
fn display_wait_makes_one_draw_per_frame() {
    let mut chip8 = Chip8::new(vec![0xa0, 0x00, 0xd0, 0x05, 0xd1, 0x15, 0x62, 0x07]);
    chip8.registers.set(1, 8);
    assert_eq!(chip8.vblank, VBLank::Free);
    assert_eq!(chip8.execute_next_opcode(None), Ok(()));
    assert_eq!(chip8.execute_next_opcode(None), Ok(()));
    assert_eq!(chip8.pc(), 0x204);
    assert_eq!(chip8.vblank, VBLank::WaitForDraw);
    let one_glyph = chip8.vram;
    assert_eq!(lit(&one_glyph), sprite(&[0xF0, 0x90, 0x90, 0x90, 0xF0], 0, 0, false));
    for _ in 0..20 {
        assert_eq!(chip8.execute_next_opcode(None), Ok(()));
        assert_eq!(chip8.pc(), 0x204);
        assert_eq!(chip8.vblank, VBLank::WaitForInterrupt);
        assert_eq!(chip8.vram, one_glyph);
        assert_eq!(chip8.registers.get(2), 0);
    }
    end_frame(&mut chip8);
    assert_eq!(chip8.vblank, VBLank::Free);
    assert_eq!(chip8.execute_next_opcode(None), Ok(()));
    assert_eq!(chip8.pc(), 0x206);
    assert_eq!(chip8.vblank, VBLank::WaitForDraw);
    let mut two_glyphs = sprite(&[0xF0, 0x90, 0x90, 0x90, 0xF0], 0, 0, false);
    two_glyphs.extend(sprite(&[0xF0, 0x90, 0x90, 0x90, 0xF0], 8, 8, false));
    two_glyphs.sort_by_key(|(x, y)| (*y, *x));
    assert_eq!(lit(&chip8.vram), two_glyphs);
    assert_eq!(chip8.execute_next_opcode(None), Ok(()));
    assert_eq!(chip8.registers.get(2), 7);
}

#[test]
fn the_vertical_blank_frees_only_a_draw_that_waits() {
    let mut chip8 = Chip8::new(vec![]);
    chip8.handle_vblank();
    assert_eq!(chip8.vblank, VBLank::Free);
    chip8.vblank = VBLank::WaitForDraw;
    chip8.handle_vblank();
    assert_eq!(chip8.vblank, VBLank::WaitForDraw);
    chip8.vblank = VBLank::WaitForInterrupt;
    chip8.handle_vblank();
    assert_eq!(chip8.vblank, VBLank::Free);
}

#[test]
fn without_display_wait_every_draw_is_made() {
    for quirks in [schip_quirks(), xochip_quirks()] {
        let mut chip8 = machine_with(quirks);
        run(&mut chip8, &[0xa000, 0xd005, 0x6108, 0xd115, 0x6110, 0xd115]);
        assert_eq!(lit(&chip8.vram).len(), 3 * 14);
        assert_eq!(chip8.vblank, VBLank::Free);
    }
}

#[test]
fn a_waiting_draw_cannot_go_back_before_address_zero() {
    let mut chip8 = Chip8::new(vec![]);
    run(&mut chip8, &[0xd005, 0x1000]);
    assert_eq!(chip8.pc(), 0);
    assert_eq!(chip8.vblank, VBLank::WaitForDraw);
    assert_eq!(chip8.execute(0xd005, None, 0), Err(Chip8Error::AddressOutOfRange));
    assert_eq!(chip8.vblank, VBLank::WaitForDraw);
    run(&mut chip8, &[0x1002, 0xd005]);
    assert_eq!(chip8.pc(), 0);
    assert_eq!(chip8.vblank, VBLank::WaitForInterrupt);
}

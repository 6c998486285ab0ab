use yac8::chip8::{Chip8, Config, VBLank, CH8_HEIGHT, CH8_WIDTH, FONT, FONT_POINTER, PROGRAM_POINTER};
use yac8::error::Chip8Error;
use yac8::quirks::{ch8_quirks, schip_quirks};

#[test]
fn a_new_machine() {
    let rom = vec![0x12, 0x34, 0x56, 0x78, 0x9a];
    let chip8 = Chip8::new(rom.clone());
    assert_eq!(chip8.pc(), 0x200);
    assert_eq!(chip8.registers.i, 0);
    for x in 0..16u8 {
        assert_eq!(chip8.registers.get(x), 0);
    }
    assert_eq!(chip8.delay_timer(), 0);
    assert_eq!(chip8.sound_timer(), 0);
    assert!(chip8.stack().is_empty());
    assert_eq!(chip8.vram, [[false; 64]; 32]);
    assert!(!chip8.vram_changed);
    assert!(!chip8.blocked);
    assert_eq!(chip8.vblank, VBLank::Free);
    assert_eq!(chip8.config(), Config::new(false, ch8_quirks()));
    let memory = chip8.memory();
    assert_eq!(&memory[0..80], &FONT[..]);
    assert!(memory[80..0x200].iter().all(|byte| *byte == 0));
    assert_eq!(&memory[0x200..0x205], &rom[..]);
    assert!(memory[0x205..].iter().all(|byte| *byte == 0));
}

#[test]
fn the_constants() {
    assert_eq!(CH8_WIDTH, 64);
    assert_eq!(CH8_HEIGHT, 32);
    assert_eq!(FONT_POINTER, 0x000);
    assert_eq!(PROGRAM_POINTER, 0x200);
    assert_eq!(FONT.len(), 80);
    assert_eq!(&FONT[0..5], &[0xF0, 0x90, 0x90, 0x90, 0xF0]);
    assert_eq!(&FONT[75..80], &[0xF0, 0x80, 0xF0, 0x80, 0x80]);
}

#[test]
fn the_largest_program_fits() {
    let rom = vec![0xee; 4096 - 0x200];
    let chip8 = Chip8::new(rom);
    assert_eq!(chip8.memory()[0x200], 0xee);
    assert_eq!(chip8.memory()[4095], 0xee);
    assert_eq!(chip8.memory()[0x1ff], 0);
}

#[test]
fn an_empty_program() {
    let mut chip8 = Chip8::new(vec![]);
    assert!(chip8.memory()[0x200..].iter().all(|byte| *byte == 0));
    assert_eq!(chip8.execute_next_opcode(None), Err(Chip8Error::MachineCodeRoutine(0x0000)));
}

#[test]
fn a_machine_of_another_dialect() {
    let config = Config::new(true, schip_quirks());
    let chip8 = Chip8::with_config(vec![0x00, 0xe0], config);
    assert_eq!(chip8.config(), config);
    assert!(chip8.config().print_debug_messages);
    assert_eq!(chip8.config().quirks, schip_quirks());
    assert_eq!(Config::default(), Config::new(false, ch8_quirks()));
}

#[test]
fn load_to_memory_overwrites_what_was_there() {
    let mut chip8 = Chip8::new(vec![1, 2, 3, 4]);
    chip8.load_to_memory(&[9, 8], 0x201);
    assert_eq!(&chip8.memory()[0x200..0x204], &[1, 9, 8, 4]);
    chip8.load_to_memory(&[], 0x200);
    assert_eq!(&chip8.memory()[0x200..0x204], &[1, 9, 8, 4]);
    chip8.load_to_memory(&[7], 4095);
    assert_eq!(chip8.memory()[4095], 7);
    chip8.load_to_memory(&[], 4096);
    chip8.load_to_memory(&[0xaa], 0);
    assert_eq!(chip8.memory()[0], 0xaa);
    assert_eq!(chip8.memory()[1], FONT[1]);
}

#[test]
fn fetch_reads_the_high_byte_first() {
    let mut chip8 = Chip8::new(vec![0x12, 0x34, 0xab, 0xcd]);
    assert_eq!(chip8.fetch(), Ok(0x1234));
    assert_eq!(chip8.pc(), 0x202);
    assert_eq!(chip8.fetch(), Ok(0xabcd));
    assert_eq!(chip8.pc(), 0x204);
    assert_eq!(chip8.fetch(), Ok(0x0000));
}

#[test]
fn fetch_stops_at_the_end_of_memory() {
    let mut chip8 = Chip8::new(vec![0x1f, 0xfe]);
    chip8.load_to_memory(&[0x60, 0x01], 0xffe);
    assert_eq!(chip8.execute_next_opcode(None), Ok(()));
    assert_eq!(chip8.pc(), 0xffe);
    assert_eq!(chip8.fetch(), Ok(0x6001));
    assert_eq!(chip8.pc(), 0x1000);
    assert_eq!(chip8.fetch(), Err(Chip8Error::AddressOutOfRange));
    assert_eq!(chip8.pc(), 0x1000);
    let mut chip8 = Chip8::new(vec![0x1f, 0xff]);
    assert_eq!(chip8.execute_next_opcode(None), Ok(()));
    assert_eq!(chip8.fetch(), Err(Chip8Error::AddressOutOfRange));
    assert_eq!(chip8.pc(), 0xfff);
}

#[test]
fn pixels_are_set_and_read_by_row_and_column() {
    let mut chip8 = Chip8::new(vec![]);
    chip8.set_pixel(3, 10, true);
    assert!(chip8.get_pixel(3, 10));
    assert!(!chip8.get_pixel(10, 3));
    assert!(chip8.vram[3][10]);
    chip8.set_pixel(31, 63, true);
    assert!(chip8.get_pixel(31, 63));
    chip8.set_pixel(3, 10, false);
    assert!(!chip8.get_pixel(3, 10));
    let lit: usize = chip8.vram.iter().map(|row| row.iter().filter(|p| **p).count()).sum();
    assert_eq!(lit, 1);
}

#[test]
fn the_renderer_takes_a_frame_only_after_a_change() {
    let mut chip8 = Chip8::new(vec![0xa0, 0x00, 0xd0, 0x05, 0x60, 0x00]);
    assert_eq!(chip8.take_frame(), None);
    assert_eq!(chip8.execute_next_opcode(None), Ok(()));
    assert_eq!(chip8.take_frame(), None);
    assert_eq!(chip8.execute_next_opcode(None), Ok(()));
    assert!(chip8.vram_changed);
    let frame = chip8.take_frame();
    assert_eq!(frame, Some(chip8.vram));
    assert!(!chip8.vram_changed);
    assert_eq!(chip8.take_frame(), None);
    assert_eq!(chip8.execute_next_opcode(None), Ok(()));
    assert_eq!(chip8.take_frame(), None);
}

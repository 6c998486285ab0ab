use yac8::chip8::{Chip8, Config};
use yac8::chip8_runner::{
    end_frame, run_cycle, run_for_cycles, run_stop_on_blocked, CLOCK_SPEED, CYCLES_PER_FRAME,
    REFRESH_RATE,
};
use yac8::error::Chip8Error;
use yac8::quirks::schip_quirks;

fn program(words: &[u16]) -> Vec<u8> {
    let mut rom = Vec::new();
    for word in words {
        rom.push((word >> 8) as u8);
        rom.push(*word as u8);
    }
    rom
}

/// Sets the delay timer to 100 and then counts cycles in V1, one per two
/// cycles.
const COUNTER: [u16; 4] = [0x6064, 0xf015, 0x7101, 0x1204];

#[test]
fn eight_cycles_make_a_frame() {
    assert_eq!(CLOCK_SPEED, 500);
    assert_eq!(REFRESH_RATE, 60);
    assert_eq!(CYCLES_PER_FRAME, 8);
}

#[test]
fn timers_tick_once_per_frame() {
    let cases: [(u16, u8, u8); 11] = [
        (1, 0, 0),
        (2, 100, 0),
        (3, 100, 1),
        (8, 100, 3),
        (9, 99, 4),
        (10, 99, 4),
        (16, 99, 7),
        (17, 98, 8),
        (800, 1, 143),
        (801, 0, 144),
        (1000, 0, 243),
    ];
    for (cycles, timer, counted) in cases {
        let mut chip8 = Chip8::new(program(&COUNTER));
        assert_eq!(run_for_cycles(&mut chip8, cycles), Ok(()));
        assert_eq!(chip8.delay_timer(), timer, "after {} cycles", cycles);
        assert_eq!(chip8.registers.get(1), counted, "after {} cycles", cycles);
    }
}

#[test]
fn a_run_is_the_same_in_one_piece_or_cycle_by_cycle() {
    let mut whole = Chip8::new(program(&COUNTER));
    assert_eq!(run_for_cycles(&mut whole, 100), Ok(()));
    let mut stepped = Chip8::new(program(&COUNTER));
    for cycle in 0..100 {
        if cycle > 0 && cycle % 8 == 0 {
            end_frame(&mut stepped);
        }
        assert_eq!(stepped.execute_next_opcode(None), Ok(()));
    }
    assert_eq!(stepped.delay_timer(), whole.delay_timer());
    assert_eq!(stepped.registers.get(1), whole.registers.get(1));
    assert_eq!(stepped.pc(), whole.pc());
}

#[test]
fn end_of_frame() {
    let mut chip8 = Chip8::new(program(&[0x6003, 0xf015, 0x6001, 0xf018]));
    assert_eq!(run_for_cycles(&mut chip8, 4), Ok(()));
    assert_eq!((chip8.delay_timer(), chip8.sound_timer()), (3, 1));
    end_frame(&mut chip8);
    assert_eq!((chip8.delay_timer(), chip8.sound_timer()), (2, 0));
    end_frame(&mut chip8);
    assert_eq!((chip8.delay_timer(), chip8.sound_timer()), (1, 0));
    end_frame(&mut chip8);
    end_frame(&mut chip8);
    assert_eq!((chip8.delay_timer(), chip8.sound_timer()), (0, 0));
}

#[test]
fn run_stops_when_the_machine_waits_for_a_key() {
    let mut chip8 = Chip8::new(program(&[0x6105, 0xf30a, 0x6207]));
    assert_eq!(run_stop_on_blocked(&mut chip8, 1000), Ok(true));
    assert!(chip8.blocked);
    assert_eq!(chip8.pc(), 0x204);
    assert_eq!(chip8.registers.get(1), 5);
    assert_eq!(chip8.registers.get(2), 0);
}

#[test]
fn a_machine_that_waits_executes_nothing() {
    let mut chip8 = Chip8::new(program(&[0xf30a, 0x6207, 0x6308]));
    assert_eq!(chip8.execute_next_opcode(None), Ok(()));
    assert!(chip8.blocked);
    for key in [None, Some(4)] {
        assert_eq!(chip8.execute_next_opcode(key), Ok(()));
        assert!(chip8.blocked);
        assert_eq!(chip8.pc(), 0x202);
        assert_eq!(chip8.registers.get(2), 0);
    }
    assert_eq!(run_for_cycles(&mut chip8, 50), Ok(()));
    assert_eq!(run_stop_on_blocked(&mut chip8, 50), Ok(true));
    assert_eq!(chip8.pc(), 0x202);
    assert_eq!(chip8.registers.get(2), 0);
}

#[test]
fn the_key_goes_to_the_register_that_waits() {
    let mut chip8 = Chip8::new(program(&[0xf30a, 0x6207, 0xfe0a]));
    assert_eq!(chip8.execute_next_opcode(None), Ok(()));
    assert!(chip8.blocked);
    chip8.set_key(0xb);
    assert!(!chip8.blocked);
    assert_eq!(chip8.registers.get(3), 0xb);
    assert_eq!(chip8.pc(), 0x202);
    assert_eq!(chip8.execute_next_opcode(None), Ok(()));
    assert_eq!(chip8.registers.get(2), 7);
    assert_eq!(chip8.execute_next_opcode(None), Ok(()));
    assert!(chip8.blocked);
    chip8.set_key(0x0);
    assert_eq!(chip8.registers.get(0xe), 0);
    assert_eq!(chip8.registers.get(3), 0xb);
    assert!(!chip8.blocked);
}

#[test]
fn an_interactive_cycle_forwards_the_key_to_a_machine_that_waits() {
    let mut chip8 = Chip8::new(program(&[0xf30a, 0x6207, 0xe39e, 0x6401, 0x6502]));
    assert_eq!(run_cycle(&mut chip8, Some(9)), Ok(()));
    assert!(chip8.blocked);
    assert_eq!(chip8.registers.get(3), 0);
    assert_eq!(run_cycle(&mut chip8, None), Ok(()));
    assert!(chip8.blocked);
    assert_eq!(chip8.pc(), 0x202);
    assert_eq!(run_cycle(&mut chip8, Some(9)), Ok(()));
    assert!(!chip8.blocked);
    assert_eq!(chip8.registers.get(3), 9);
    assert_eq!(chip8.pc(), 0x202);
    assert_eq!(run_cycle(&mut chip8, Some(9)), Ok(()));
    assert_eq!(chip8.registers.get(2), 7);
    assert_eq!(run_cycle(&mut chip8, Some(9)), Ok(()));
    assert_eq!(chip8.pc(), 0x208);
    assert_eq!(run_cycle(&mut chip8, Some(9)), Ok(()));
    assert_eq!(chip8.registers.get(4), 0);
    assert_eq!(chip8.registers.get(5), 2);
}

#[test]
fn a_run_ends_at_the_instruction_that_fails() {
    let mut chip8 = Chip8::new(program(&[0x6105, 0x7101, 0x8128, 0x6207]));
    assert_eq!(run_for_cycles(&mut chip8, 100), Err(Chip8Error::UnrecognizedInstruction(0x8128)));
    assert_eq!(chip8.pc(), 0x204);
    assert_eq!(chip8.registers.get(1), 6);
    assert_eq!(chip8.registers.get(2), 0);
    let mut chip8 = Chip8::new(program(&[0x6105, 0x00ee]));
    assert_eq!(run_stop_on_blocked(&mut chip8, 100), Err(Chip8Error::EmptyStack));
    assert_eq!(chip8.pc(), 0x202);
    let mut chip8 = Chip8::new(program(&[0x0123]));
    assert_eq!(run_cycle(&mut chip8, None), Err(Chip8Error::MachineCodeRoutine(0x0123)));
    assert_eq!(chip8.pc(), 0x200);
    let mut chip8 = Chip8::new(program(&[0xafff, 0xf033]));
    assert_eq!(chip8.execute_next_opcode(None), Ok(()));
    assert_eq!(chip8.execute_next_opcode(None), Err(Chip8Error::AddressOutOfRange));
    assert_eq!(chip8.pc(), 0x202);
}

#[test]
fn a_run_off_the_end_of_memory_fails() {
    let mut chip8 = Chip8::with_config(vec![0x60; 4096 - 0x200], Config::new(false, schip_quirks()));
    assert_eq!(run_stop_on_blocked(&mut chip8, 10_000), Err(Chip8Error::AddressOutOfRange));
    assert_eq!(chip8.pc(), 0x1000);
    assert_eq!(chip8.registers.get(0), 0x60);
}

#[test]
fn the_budget_bounds_a_run_that_never_waits() {
    let mut chip8 = Chip8::new(program(&COUNTER));
    assert_eq!(run_stop_on_blocked(&mut chip8, 17), Ok(false));
    assert_eq!(chip8.delay_timer(), 98);
    assert_eq!(chip8.registers.get(1), 8);
    let mut chip8 = Chip8::new(program(&COUNTER));
    assert_eq!(run_stop_on_blocked(&mut chip8, 16), Ok(false));
    assert_eq!(chip8.delay_timer(), 99);
    let mut chip8 = Chip8::new(program(&COUNTER));
    assert_eq!(run_stop_on_blocked(&mut chip8, 0), Ok(false));
    assert_eq!(chip8.pc(), 0x200);
}

#[test]
fn the_longest_run() {
    let mut chip8 = Chip8::new(program(&[0x7001, 0x1200]));
    assert_eq!(run_for_cycles(&mut chip8, u16::MAX), Ok(()));
    assert_eq!(chip8.registers.get(0), ((65535u32 + 1) / 2 % 256) as u8);
}

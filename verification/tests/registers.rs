use yac8::registers::Registers;

#[test]
fn registers_start_at_zero() {
    let registers = Registers::default();
    for x in 0..16u8 {
        assert_eq!(registers.get(x), 0);
    }
    assert_eq!(registers.i, 0);
}

#[test]
fn set_changes_one_register() {
    let mut registers = Registers::default();
    registers.set(3, 0xab);
    for x in 0..16u8 {
        assert_eq!(registers.get(x), if x == 3 { 0xab } else { 0 });
    }
    assert_eq!(registers.i, 0);
}

#[test]
fn every_register_can_be_told_apart() {
    let mut registers = Registers::default();
    for x in 0..16u8 {
        registers.set(x, 0x10 + x);
    }
    for x in 0..16u8 {
        assert_eq!(registers.get(x), 0x10 + x);
    }
}

#[test]
fn bitwise_operations() {
    let mut registers = Registers::default();
    registers.set(1, 0b1100_1010);
    registers.set(2, 0b1010_0110);
    registers.or(1, 2);
    assert_eq!(registers.get(1), 0b1110_1110);
    assert_eq!(registers.get(2), 0b1010_0110);
    registers.set(1, 0b1100_1010);
    registers.and(1, 2);
    assert_eq!(registers.get(1), 0b1000_0010);
    registers.set(1, 0b1100_1010);
    registers.xor(1, 2);
    assert_eq!(registers.get(1), 0b0110_1100);
    registers.xor(2, 2);
    assert_eq!(registers.get(2), 0);
}

#[test]
fn shifts_lose_the_bits_shifted_out() {
    let mut registers = Registers::default();
    registers.set(4, 0b1000_0011);
    registers.shift_left(4, 1);
    assert_eq!(registers.get(4), 0b0000_0110);
    registers.set(4, 0b1000_0011);
    registers.shift_right(4, 1);
    assert_eq!(registers.get(4), 0b0100_0001);
    registers.set(4, 0xff);
    registers.shift_left(4, 7);
    assert_eq!(registers.get(4), 0x80);
    registers.set(4, 0xff);
    registers.shift_right(4, 7);
    assert_eq!(registers.get(4), 0x01);
    registers.shift_right(4, 0);
    assert_eq!(registers.get(4), 0x01);
}

#[test]
fn flag_register_is_register_fifteen() {
    let mut registers = Registers::default();
    registers.set_vf(1);
    assert_eq!(registers.get(0xf), 1);
    for x in 0..15u8 {
        assert_eq!(registers.get(x), 0);
    }
    registers.set_vf(0);
    assert_eq!(registers.get(0xf), 0);
}

use yac8::bit_ops::{get_bit_at, to_address, to_u16, to_u8};

#[test]
fn byte_from_two_nibbles() {
    assert_eq!(to_u8(0x0, 0x0), 0x00);
    assert_eq!(to_u8(0xa, 0x5), 0xa5);
    assert_eq!(to_u8(0xf, 0xf), 0xff);
    for b1 in 0..16u8 {
        for b2 in 0..16u8 {
            assert_eq!(to_u8(b1, b2), 16 * b1 + b2);
        }
    }
}

#[test]
fn byte_from_wider_parts_loses_the_high_bits() {
    assert_eq!(to_u8(0x1f, 0x00), 0xf0);
    assert_eq!(to_u8(0x12, 0x81), 0xa1);
}

#[test]
fn word_from_two_bytes() {
    assert_eq!(to_u16(0x00, 0x00), 0x0000);
    assert_eq!(to_u16(0x12, 0x34), 0x1234);
    assert_eq!(to_u16(0xff, 0xff), 0xffff);
    assert_eq!(to_u16(0x00, 0xe0), 0x00e0);
}

#[test]
fn address_from_three_nibbles() {
    assert_eq!(to_address(0x2, 0x0, 0x0), 0x200);
    assert_eq!(to_address(0xf, 0xf, 0xf), 0xfff);
    assert_eq!(to_address(0x1, 0x2, 0x3), 0x123);
    assert_eq!(to_address(0x0, 0x0, 0x0), 0x000);
}

#[test]
fn bits_of_a_byte_and_of_a_word() {
    assert!(get_bit_at(0b0000_0001, 0));
    assert!(!get_bit_at(0b0000_0001, 1));
    assert!(get_bit_at(0x80, 7));
    assert!(!get_bit_at(0x7f, 7));
    assert!(get_bit_at(0x100, 8));
    assert!(!get_bit_at(0x0ff, 8));
    assert!(get_bit_at(0x8000, 15));
    for n in 0..16u8 {
        assert!(get_bit_at(0xffff, n));
        assert!(!get_bit_at(0x0000, n));
        assert_eq!(get_bit_at(0xa5c3, n), (0xa5c3u16 >> n) & 1 == 1);
    }
}

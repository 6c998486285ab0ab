use yac8::input::{poll_keys, to_chip8_key, KeyboardKey};

const BLOCK: [(KeyboardKey, u8); 16] = [
    (KeyboardKey::Num1, 0x1),
    (KeyboardKey::Num2, 0x2),
    (KeyboardKey::Num3, 0x3),
    (KeyboardKey::Num4, 0xc),
    (KeyboardKey::Q, 0x4),
    (KeyboardKey::W, 0x5),
    (KeyboardKey::E, 0x6),
    (KeyboardKey::R, 0xd),
    (KeyboardKey::A, 0x7),
    (KeyboardKey::S, 0x8),
    (KeyboardKey::D, 0x9),
    (KeyboardKey::F, 0xe),
    (KeyboardKey::Z, 0xa),
    (KeyboardKey::X, 0x0),
    (KeyboardKey::C, 0xb),
    (KeyboardKey::V, 0xf),
];

#[test]
fn keyboard_block_mirrors_the_keypad() {
    for (key, expected) in BLOCK {
        assert_eq!(to_chip8_key(key), Some(expected));
    }
    assert_eq!(to_chip8_key(KeyboardKey::Other), None);
}

#[test]
fn every_keypad_key_has_one_keyboard_key() {
    for wanted in 0..16u8 {
        assert_eq!(BLOCK.iter().filter(|(key, _)| to_chip8_key(*key) == Some(wanted)).count(), 1);
    }
}

#[test]
fn nothing_pressed() {
    assert_eq!(poll_keys(&vec![]), None);
    assert_eq!(poll_keys(&vec![(KeyboardKey::Q, false), (KeyboardKey::Other, false)]), None);
}

#[test]
fn other_keys_do_not_count() {
    assert_eq!(poll_keys(&vec![(KeyboardKey::Other, true)]), None);
    assert_eq!(
        poll_keys(&vec![(KeyboardKey::Other, true), (KeyboardKey::V, true)]),
        Some(0xf)
    );
}

#[test]
fn first_pressed_key_wins() {
    let keys = vec![
        (KeyboardKey::A, false),
        (KeyboardKey::Other, true),
        (KeyboardKey::W, true),
        (KeyboardKey::Num1, true),
    ];
    assert_eq!(poll_keys(&keys), Some(0x5));
    let keys = vec![(KeyboardKey::X, true), (KeyboardKey::W, true)];
    assert_eq!(poll_keys(&keys), Some(0x0));
}

//! The keys of a keyboard that stand for the sixteen keys of the machine's
//! keypad.

use vstd::prelude::*;

verus! {

/// A key of the keyboard, by where it lies: the sixteen keys of the block
/// from `1` to `V`, and any other.
#[derive(Clone, Copy, Debug, PartialEq, Eq, Structural)]
pub enum KeyboardKey {
    Num1,
    Num2,
    Num3,
    Num4,
    Q,
    W,
    E,
    R,
    A,
    S,
    D,
    F,
    Z,
    X,
    C,
    V,
    Other,
}

/// The key of the keypad that a key of the keyboard stands for. The block
/// of the keyboard mirrors the keypad, which reads `123C`, `456D`, `789E`
/// and `A0BF` row by row.
pub open spec fn keypad_key(key: KeyboardKey) -> Option<u8> {
    match key {
        KeyboardKey::Num1 => Some(0x1u8),
        KeyboardKey::Num2 => Some(0x2u8),
        KeyboardKey::Num3 => Some(0x3u8),
        KeyboardKey::Num4 => Some(0xcu8),
        KeyboardKey::Q => Some(0x4u8),
        KeyboardKey::W => Some(0x5u8),
        KeyboardKey::E => Some(0x6u8),
        KeyboardKey::R => Some(0xdu8),
        KeyboardKey::A => Some(0x7u8),
        KeyboardKey::S => Some(0x8u8),
        KeyboardKey::D => Some(0x9u8),
        KeyboardKey::F => Some(0xeu8),
        KeyboardKey::Z => Some(0xau8),
        KeyboardKey::X => Some(0x0u8),
        KeyboardKey::C => Some(0xbu8),
        KeyboardKey::V => Some(0xfu8),
        KeyboardKey::Other => None,
    }
}

/// Whether entry `i` of `keys` is a key of the keypad that is held down.
pub open spec fn held(keys: Seq<(KeyboardKey, bool)>, i: int) -> bool {
    keys[i].1 && keypad_key(keys[i].0) is Some
}

/// The key of the keypad that a key of the keyboard stands for, if it
/// stands for one.
pub fn to_chip8_key(key: KeyboardKey) -> (chip8_key: Option<u8>)
    ensures
        chip8_key == keypad_key(key),
        chip8_key matches Some(k) ==> k < 16,
{
    match key {
        KeyboardKey::Num1 => Some(0x1),
        KeyboardKey::Num2 => Some(0x2),
        KeyboardKey::Num3 => Some(0x3),
        KeyboardKey::Num4 => Some(0xc),
        KeyboardKey::Q => Some(0x4),
        KeyboardKey::W => Some(0x5),
        KeyboardKey::E => Some(0x6),
        KeyboardKey::R => Some(0xd),
        KeyboardKey::A => Some(0x7),
        KeyboardKey::S => Some(0x8),
        KeyboardKey::D => Some(0x9),
        KeyboardKey::F => Some(0xe),
        KeyboardKey::Z => Some(0xa),
        KeyboardKey::X => Some(0x0),
        KeyboardKey::C => Some(0xb),
        KeyboardKey::V => Some(0xf),
        KeyboardKey::Other => None,
    }
}

/// The key of the keypad that is pressed, given the state of the keyboard
/// as a list of keys, each with whether it is held down: the first in the
/// list that is held down and stands for a key of the keypad.
pub fn poll_keys(keys: &Vec<(KeyboardKey, bool)>) -> (pressed: Option<u8>)
    ensures
        match pressed {
            Some(k) => exists|i: int|
                0 <= i < keys@.len() && #[trigger] held(keys@, i) && keypad_key(keys@[i].0) == Some(
                    k,
                ) && forall|j: int| 0 <= j < i ==> !held(keys@, j),
            None => forall|i: int| 0 <= i < keys@.len() ==> !held(keys@, i),
        },
{
    let mut i: usize = 0;
    while i < keys.len()
        invariant
            i <= keys@.len(),
            forall|j: int| 0 <= j < i ==> !held(keys@, j),
        decreases keys@.len() - i,
    {
        let (key, down) = keys[i];
        match to_chip8_key(key) {
            Some(k) if down => {
                assert(held(keys@, i as int));
                return Some(k);
            },
            _ => {},
        }
        i += 1;
    }
    None
}

} // verus!

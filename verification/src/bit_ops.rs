//! Composition of bytes and addresses from 4-bit fields, and bit tests.

use vstd::prelude::*;

verus! {

/// Whether bit `n` of `value` is set, bit 0 being the least significant.
pub open spec fn bit_at(value: u16, n: u8) -> bool {
    (value >> n) & 1 == 1
}

/// `num::ToPrimitive::to_usize` on a `u8`. No `u8` is too large for a
/// `usize`, so the conversion always succeeds and keeps the value.
#[verifier::external_body]
pub(crate) fn to_usize(x: u8) -> (r: Option<usize>)
    ensures
        r == Some(x as usize),
{
    num::ToPrimitive::to_usize(&x)
}

/// Composes a byte from a high and a low part: `b1` shifted left by four
/// bits (bits shifted out are lost), or-ed with `b2`. For two 4-bit values
/// this is `16 * b1 + b2`.
pub fn to_u8(b1: u8, b2: u8) -> (r: u8)
    ensures
        r == (b1 << 4u8) | b2,
        b1 < 16 && b2 < 16 ==> r == 16 * b1 + b2,
{
    assert(b1 < 16 && b2 < 16 ==> ((b1 << 4u8) | b2) == 16 * b1 + b2) by (bit_vector);
    (b1 << 4) | b2
}

/// Composes a 16-bit word from its high byte `b1` and its low byte `b2`.
pub fn to_u16(b1: u8, b2: u8) -> (r: u16)
    ensures
        r == 256 * b1 + b2,
{
    assert((((b1 as u16) << 8u16) | (b2 as u16)) == 256 * b1 + b2) by (bit_vector);
    ((b1 as u16) << 8) | (b2 as u16)
}

/// Composes an address from three parts, most significant first: `n1`
/// shifted left by eight bits, `n2` by four, and `n3`, or-ed together. For
/// three 4-bit values this is `256 * n1 + 16 * n2 + n3`.
pub fn to_address(n1: u8, n2: u8, n3: u8) -> (r: u16)
    ensures
        r == ((n1 as u16) << 8u16) | ((n2 as u16) << 4u16) | (n3 as u16),
        n1 < 16 && n2 < 16 && n3 < 16 ==> r == 256 * n1 + 16 * n2 + n3,
{
    assert(n1 < 16 && n2 < 16 && n3 < 16 ==> (((n1 as u16) << 8u16) | ((n2 as u16) << 4u16) | (
    n3 as u16)) == 256 * n1 + 16 * n2 + n3) by (bit_vector);
    ((n1 as u16) << 8) | ((n2 as u16) << 4) | (n3 as u16)
}

/// Tests bit `n` of `byte`, bit 0 being the least significant.
pub fn get_bit_at(byte: u16, n: u8) -> (r: bool)
    requires
        n < 16,
    ensures
        r == bit_at(byte, n),
{
    let shift: usize = to_usize(n).unwrap();
    assert((byte & (1u16 << shift) != 0) == ((byte >> n) & 1 == 1)) by (bit_vector)
        requires
            shift == n,
            n < 16,
    ;
    byte & (1u16 << shift) != 0
}

} // verus!

//! Byte-order helpers for the 128-bit service and characteristic identifiers.
//!
//! Identifiers are carried as plain `u128` values; the `uuid` crate supplies
//! the canonical byte encodings through trusted wrappers, and the link-layer
//! (little-endian) form is computed and proved here.

use vstd::prelude::*;

verus! {

/// Byte `i` of a 128-bit value in big-endian order: byte 0 is the most
/// significant byte, byte 15 the least significant.
pub open spec fn be_byte(x: u128, i: int) -> u8 {
    (((x >> (((15 - i) * 8) as u128)) & 0xff) as u8)
}

/// The 16 bytes of a 128-bit value in big-endian order.
pub open spec fn be_bytes(x: u128) -> Seq<u8> {
    Seq::new(16, |i: int| be_byte(x, i))
}

/// Relies on `uuid::Uuid::from_u128` and `uuid::Uuid::as_bytes`: a UUID built
/// from a 128-bit value stores exactly that value's bytes in big-endian
/// order, and `as_bytes` returns that stored array.
#[verifier::external_body]
fn uuid_bytes_of(x: u128) -> (r: [u8; 16])
    ensures
        r@ == be_bytes(x),
{
    *uuid::Uuid::from_u128(x).as_bytes()
}

/// Relies on `uuid::Uuid::to_bytes_le`: the stored big-endian bytes come back
/// with the three leading fields byte-swapped, i.e. in the fixed order
/// 3,2,1,0, 5,4, 7,6, 8..=15.
#[verifier::external_body]
fn uuid_field_le_bytes_of(x: u128) -> (r: [u8; 16])
    ensures
        r@ == seq![
            be_byte(x, 3), be_byte(x, 2), be_byte(x, 1), be_byte(x, 0),
            be_byte(x, 5), be_byte(x, 4), be_byte(x, 7), be_byte(x, 6),
            be_byte(x, 8), be_byte(x, 9), be_byte(x, 10), be_byte(x, 11),
            be_byte(x, 12), be_byte(x, 13), be_byte(x, 14), be_byte(x, 15),
        ],
{
    uuid::Uuid::from_u128(x).to_bytes_le()
}

/// The two-byte short form of a service identifier: the first two bytes of
/// its field-little-endian encoding.
pub fn uuid_16(x: u128) -> (r: [u8; 2])
    ensures
        r@ == seq![be_byte(x, 3), be_byte(x, 2)],
{
    let raw = uuid_field_le_bytes_of(x);
    let r = [raw[0], raw[1]];
    proof {
        assert(r@ =~= seq![be_byte(x, 3), be_byte(x, 2)]);
    }
    r
}

/// The full 16-byte link-layer form of an identifier: the big-endian bytes
/// reversed, so byte `i` of the result is byte `15 - i` of the big-endian
/// encoding.
pub fn uuid_to_ble_bytes(x: u128) -> (r: [u8; 16])
    ensures
        r@.len() == 16,
        forall|i: int| 0 <= i < 16 ==> r@[i] == be_byte(x, 15 - i),
{
    let b = uuid_bytes_of(x);
    let r = [
        b[15], b[14], b[13], b[12],
        b[11], b[10], b[9], b[8],
        b[7], b[6], b[5], b[4],
        b[3], b[2], b[1], b[0],
    ];
    r
}

} // verus!

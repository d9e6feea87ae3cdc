//! Identifiers as eight bytes, least significant byte first.

use vstd::prelude::*;

verus! {

/// Bytes that an identifier takes in a frame.
pub const ID_SIZE: usize = 8;

/// The number that eight bytes stand for, least significant byte first.
pub open spec fn le_value(bytes: Seq<u8>) -> int
    recommends
        bytes.len() == ID_SIZE,
{
    bytes[0] as int + bytes[1] as int * 0x100 + bytes[2] as int * 0x1_0000 + bytes[3] as int
        * 0x100_0000 + bytes[4] as int * 0x1_0000_0000 + bytes[5] as int * 0x100_0000_0000
        + bytes[6] as int * 0x1_0000_0000_0000 + bytes[7] as int * 0x100_0000_0000_0000
}

/// The eight bytes that stand for an identifier, least significant byte
/// first.
pub open spec fn le_bytes(id: u64) -> Seq<u8> {
    seq![
        (id % 0x100) as u8,
        (id / 0x100 % 0x100) as u8,
        (id / 0x1_0000 % 0x100) as u8,
        (id / 0x100_0000 % 0x100) as u8,
        (id / 0x1_0000_0000 % 0x100) as u8,
        (id / 0x100_0000_0000 % 0x100) as u8,
        (id / 0x1_0000_0000_0000 % 0x100) as u8,
        (id / 0x100_0000_0000_0000 % 0x100) as u8,
    ]
}

/// The eight bytes of an identifier, least significant byte first.
pub fn id_to_bytes(id: u64) -> (bytes: [u8; 8])
    ensures
        bytes@ == le_bytes(id),
{
    let bytes = [
        (id % 0x100) as u8,
        (id / 0x100 % 0x100) as u8,
        (id / 0x1_0000 % 0x100) as u8,
        (id / 0x100_0000 % 0x100) as u8,
        (id / 0x1_0000_0000 % 0x100) as u8,
        (id / 0x100_0000_0000 % 0x100) as u8,
        (id / 0x1_0000_0000_0000 % 0x100) as u8,
        (id / 0x100_0000_0000_0000 % 0x100) as u8,
    ];
    bytes
}

/// The identifier that eight bytes stand for, least significant byte first.
pub fn id_from_bytes(bytes: [u8; 8]) -> (id: u64)
    ensures
        id == le_value(bytes@),
{
    let h7: u64 = bytes[7] as u64;
    let h6: u64 = h7 * 256 + bytes[6] as u64;
    let h5: u64 = h6 * 256 + bytes[5] as u64;
    let h4: u64 = h5 * 256 + bytes[4] as u64;
    let h3: u64 = h4 * 256 + bytes[3] as u64;
    let h2: u64 = h3 * 256 + bytes[2] as u64;
    let h1: u64 = h2 * 256 + bytes[1] as u64;
    h1 * 256 + bytes[0] as u64
}

/// The bytes of an identifier stand for that identifier.
pub proof fn lemma_value_of_bytes(id: u64)
    ensures
        le_bytes(id).len() == ID_SIZE,
        le_value(le_bytes(id)) == id,
{
    assert(id % 0x100 + (id / 0x100 % 0x100) * 0x100 + (id / 0x1_0000 % 0x100) * 0x1_0000 + (id
        / 0x100_0000 % 0x100) * 0x100_0000 + (id / 0x1_0000_0000 % 0x100) * 0x1_0000_0000 + (id
        / 0x100_0000_0000 % 0x100) * 0x100_0000_0000 + (id / 0x1_0000_0000_0000 % 0x100)
        * 0x1_0000_0000_0000 + (id / 0x100_0000_0000_0000 % 0x100) * 0x100_0000_0000_0000 == id)
        by (bit_vector);
}

/// The identifier that eight bytes stand for has just those bytes: no two
/// byte strings stand for one identifier.
pub proof fn lemma_bytes_of_value(bytes: Seq<u8>)
    requires
        bytes.len() == ID_SIZE,
    ensures
        0 <= le_value(bytes) <= u64::MAX,
        le_bytes(le_value(bytes) as u64) == bytes,
{
    let b0 = bytes[0];
    let b1 = bytes[1];
    let b2 = bytes[2];
    let b3 = bytes[3];
    let b4 = bytes[4];
    let b5 = bytes[5];
    let b6 = bytes[6];
    let b7 = bytes[7];
    let id = le_value(bytes) as u64;
    assert(id % 0x100 == b0 && id / 0x100 % 0x100 == b1 && id / 0x1_0000 % 0x100 == b2 && id
        / 0x100_0000 % 0x100 == b3 && id / 0x1_0000_0000 % 0x100 == b4 && id / 0x100_0000_0000
        % 0x100 == b5 && id / 0x1_0000_0000_0000 % 0x100 == b6 && id / 0x100_0000_0000_0000
        % 0x100 == b7) by (bit_vector)
        requires
            id == b0 + b1 * 0x100 + b2 * 0x1_0000 + b3 * 0x100_0000 + b4 * 0x1_0000_0000 + b5
                * 0x100_0000_0000 + b6 * 0x1_0000_0000_0000 + b7 * 0x100_0000_0000_0000,
    ;
    assert(le_bytes(id) =~= bytes);
}

} // verus!

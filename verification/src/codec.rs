use vstd::prelude::*;

verus! {

/// Width in bytes of a stored block height or commitment index.
pub const U32_WIDTH: usize = 4;

/// The number that four bytes encode, least significant byte first.
pub open spec fn le_u32(bytes: Seq<u8>) -> int
    recommends
        bytes.len() == 4,
{
    bytes[0] as int + 256 * (bytes[1] as int) + 65536 * (bytes[2] as int) + 16777216 * (
    bytes[3] as int)
}

/// The four bytes that encode `value`, least significant byte first.
pub open spec fn u32_le_bytes(value: u32) -> Seq<u8> {
    seq![
        (value as int % 256) as u8,
        (value as int / 256 % 256) as u8,
        (value as int / 65536 % 256) as u8,
        (value as int / 16777216) as u8,
    ]
}

/// Decodes a stored 32-bit integer; `None` if `bytes` is not exactly four bytes long.
pub fn bytes_to_u32(bytes: &[u8]) -> (value: Option<u32>)
    ensures
        value is Some <==> bytes@.len() == 4,
        value matches Some(v) ==> v as int == le_u32(bytes@),
{
    if bytes.len() != U32_WIDTH {
        return None;
    }
    let b0: u32 = bytes[0] as u32;
    let b1: u32 = bytes[1] as u32;
    let b2: u32 = bytes[2] as u32;
    let b3: u32 = bytes[3] as u32;
    Some(b0 + 256 * b1 + 65536 * b2 + 16777216 * b3)
}

/// Encodes a 32-bit integer as four bytes, least significant byte first.
pub fn u32_to_bytes(value: u32) -> (bytes: Vec<u8>)
    ensures
        bytes@ == u32_le_bytes(value),
{
    let mut bytes: Vec<u8> = Vec::with_capacity(4);
    bytes.push((value % 256) as u8);
    bytes.push((value / 256 % 256) as u8);
    bytes.push((value / 65536 % 256) as u8);
    bytes.push((value / 16777216) as u8);
    assert(bytes@ =~= u32_le_bytes(value));
    bytes
}

/// Decoding undoes encoding.
pub proof fn lemma_decode_encoded(value: u32)
    ensures
        u32_le_bytes(value).len() == 4,
        le_u32(u32_le_bytes(value)) == value as int,
{
    let v = value as int;
    let q1 = v / 256;
    let q2 = q1 / 256;
    let q3 = q2 / 256;
    assert(v == 256 * q1 + v % 256);
    assert(q1 == 256 * q2 + q1 % 256);
    assert(q2 == 256 * q3 + q2 % 256);
    assert(v / 65536 == q2);
    assert(v / 16777216 == q3);
    assert(0 <= q3 < 256);
}

/// Encoding undoes the decoding of any four bytes.
pub proof fn lemma_encode_decoded(bytes: Seq<u8>)
    requires
        bytes.len() == 4,
    ensures
        0 <= le_u32(bytes) <= u32::MAX,
        u32_le_bytes(le_u32(bytes) as u32) == bytes,
{
    let b0 = bytes[0] as int;
    let b1 = bytes[1] as int;
    let b2 = bytes[2] as int;
    let b3 = bytes[3] as int;
    let v = le_u32(bytes);
    let r1 = b1 + 256 * b2 + 65536 * b3;
    let r2 = b2 + 256 * b3;
    assert(v == 256 * r1 + b0);
    assert(v % 256 == b0 && v / 256 == r1);
    assert(r1 == 256 * r2 + b1);
    assert(r1 % 256 == b1 && r1 / 256 == r2);
    assert(r2 % 256 == b2 && r2 / 256 == b3);
    assert(v / 65536 == r2);
    assert(v / 16777216 == b3);
    assert(u32_le_bytes(v as u32) =~= bytes);
}

} // verus!

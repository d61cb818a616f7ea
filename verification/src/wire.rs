//! Integers on the wire: least significant byte first, negative numbers
//! as their two's complement.

use vstd::prelude::*;

verus! {

/// The u16 that the first 2 bytes of `bytes` carry.
pub open spec fn u16_from_le(bytes: Seq<u8>) -> u16
    recommends
        bytes.len() >= 2,
{
    (bytes[0] + 256 * bytes[1]) as u16
}

/// The 2 bytes that carry `x`.
pub open spec fn u16_to_le(x: u16) -> Seq<u8> {
    seq![
        (x % 256) as u8,
        (x / 256) as u8,
    ]
}

/// Reads a u16 from the front of `bytes`.
pub(crate) fn read_u16(bytes: &[u8]) -> (x: u16)
    requires
        bytes@.len() >= 2,
    ensures
        x == u16_from_le(bytes@),
{
    let b0: u16 = bytes[0] as u16;
    let b1: u16 = bytes[1] as u16;
    b0 + 256 * b1
}

/// The wire form of `x`.
pub fn write_u16(x: u16) -> (bytes: Vec<u8>)
    ensures
        bytes@ == u16_to_le(x),
{
    let mut bytes: Vec<u8> = Vec::new();
    bytes.push((x % 256) as u8);
    bytes.push((x / 256) as u8);
    assert(bytes@ =~= u16_to_le(x));
    bytes
}

/// A u16 comes back from its wire form as it went in.
pub proof fn lemma_u16_round_trip(x: u16)
    ensures
        u16_to_le(x).len() == 2,
        u16_from_le(u16_to_le(x)) == x,
{
}

/// The u32 that the first 4 bytes of `bytes` carry.
pub open spec fn u32_from_le(bytes: Seq<u8>) -> u32
    recommends
        bytes.len() >= 4,
{
    (bytes[0] + 256 * bytes[1] + 65536 * bytes[2] + 16777216 * bytes[3]) as u32
}

/// The 4 bytes that carry `x`.
pub open spec fn u32_to_le(x: u32) -> Seq<u8> {
    seq![
        (x % 256) as u8,
        ((x / 256) % 256) as u8,
        ((x / 65536) % 256) as u8,
        (x / 16777216) as u8,
    ]
}

/// Reads a u32 from the front of `bytes`.
pub(crate) fn read_u32(bytes: &[u8]) -> (x: u32)
    requires
        bytes@.len() >= 4,
    ensures
        x == u32_from_le(bytes@),
{
    let b0: u32 = bytes[0] as u32;
    let b1: u32 = bytes[1] as u32;
    let b2: u32 = bytes[2] as u32;
    let b3: u32 = bytes[3] as u32;
    b0 + 256 * b1 + 65536 * b2 + 16777216 * b3
}

/// The wire form of `x`.
pub fn write_u32(x: u32) -> (bytes: Vec<u8>)
    ensures
        bytes@ == u32_to_le(x),
{
    let mut bytes: Vec<u8> = Vec::new();
    bytes.push((x % 256) as u8);
    bytes.push(((x / 256) % 256) as u8);
    bytes.push(((x / 65536) % 256) as u8);
    bytes.push((x / 16777216) as u8);
    assert(bytes@ =~= u32_to_le(x));
    bytes
}

/// A u32 comes back from its wire form as it went in.
pub proof fn lemma_u32_round_trip(x: u32)
    ensures
        u32_to_le(x).len() == 4,
        u32_from_le(u32_to_le(x)) == x,
{
}

/// The u64 that the first 8 bytes of `bytes` carry.
pub open spec fn u64_from_le(bytes: Seq<u8>) -> u64
    recommends
        bytes.len() >= 8,
{
    (bytes[0] + 256 * bytes[1] + 65536 * bytes[2] + 16777216 * bytes[3] + 4294967296 * bytes[4] + 1099511627776 * bytes[5] + 281474976710656 * bytes[6] + 72057594037927936 * bytes[7]) as u64
}

/// The 8 bytes that carry `x`.
pub open spec fn u64_to_le(x: u64) -> Seq<u8> {
    seq![
        (x % 256) as u8,
        ((x / 256) % 256) as u8,
        ((x / 65536) % 256) as u8,
        ((x / 16777216) % 256) as u8,
        ((x / 4294967296) % 256) as u8,
        ((x / 1099511627776) % 256) as u8,
        ((x / 281474976710656) % 256) as u8,
        (x / 72057594037927936) as u8,
    ]
}

/// Reads a u64 from the front of `bytes`.
pub(crate) fn read_u64(bytes: &[u8]) -> (x: u64)
    requires
        bytes@.len() >= 8,
    ensures
        x == u64_from_le(bytes@),
{
    let b0: u64 = bytes[0] as u64;
    let b1: u64 = bytes[1] as u64;
    let b2: u64 = bytes[2] as u64;
    let b3: u64 = bytes[3] as u64;
    let b4: u64 = bytes[4] as u64;
    let b5: u64 = bytes[5] as u64;
    let b6: u64 = bytes[6] as u64;
    let b7: u64 = bytes[7] as u64;
    b0 + 256 * b1 + 65536 * b2 + 16777216 * b3 + 4294967296 * b4 + 1099511627776 * b5 + 281474976710656 * b6 + 72057594037927936 * b7
}

/// The wire form of `x`.
pub fn write_u64(x: u64) -> (bytes: Vec<u8>)
    ensures
        bytes@ == u64_to_le(x),
{
    let mut bytes: Vec<u8> = Vec::new();
    bytes.push((x % 256) as u8);
    bytes.push(((x / 256) % 256) as u8);
    bytes.push(((x / 65536) % 256) as u8);
    bytes.push(((x / 16777216) % 256) as u8);
    bytes.push(((x / 4294967296) % 256) as u8);
    bytes.push(((x / 1099511627776) % 256) as u8);
    bytes.push(((x / 281474976710656) % 256) as u8);
    bytes.push((x / 72057594037927936) as u8);
    assert(bytes@ =~= u64_to_le(x));
    bytes
}

/// A u64 comes back from its wire form as it went in.
pub proof fn lemma_u64_round_trip(x: u64)
    ensures
        u64_to_le(x).len() == 8,
        u64_from_le(u64_to_le(x)) == x,
{
    let q1 = x / 256;
    let q2 = q1 / 256;
    let q3 = q2 / 256;
    let q4 = q3 / 256;
    let q5 = q4 / 256;
    let q6 = q5 / 256;
    let q7 = q6 / 256;
    assert(x / 65536 == q2);
    assert(x / 16777216 == q3);
    assert(x / 4294967296 == q4);
    assert(x / 1099511627776 == q5);
    assert(x / 281474976710656 == q6);
    assert(x / 72057594037927936 == q7);
    assert(q7 < 256);
    let b = u64_to_le(x);
    assert(b[0] == x % 256 && b[1] == q1 % 256 && b[2] == q2 % 256 && b[3] == q3 % 256);
    assert(b[4] == q4 % 256 && b[5] == q5 % 256 && b[6] == q6 % 256 && b[7] == q7);
    assert(q6 == b[6] + 256 * b[7]);
    assert(q5 == b[5] + 256 * q6);
    assert(q4 == b[4] + 256 * q5);
    assert(q3 == b[3] + 256 * q4);
    assert(q2 == b[2] + 256 * q3);
    assert(q1 == b[1] + 256 * q2);
    assert(x == b[0] + 256 * q1);
}

/// The i8 whose two's complement is `raw`.
pub open spec fn i8_of(raw: u8) -> i8 {
    if raw >= 128 {
        (raw - 256) as i8
    } else {
        raw as i8
    }
}

/// The two's complement of `x`.
pub open spec fn i8_raw(x: i8) -> u8 {
    if x < 0 {
        (x + 256) as u8
    } else {
        x as u8
    }
}

/// The i8 whose two's complement is `raw`.
pub fn i8_from_raw(raw: u8) -> (x: i8)
    ensures
        x == i8_of(raw),
{
    if raw >= 128 {
        (raw as i16 - 256) as i8
    } else {
        raw as i8
    }
}

/// The two's complement of `x`.
pub fn i8_to_raw(x: i8) -> (raw: u8)
    ensures
        raw == i8_raw(x),
{
    if x < 0 {
        (x as i16 + 256) as u8
    } else {
        x as u8
    }
}

/// The i16 whose two's complement is `raw`.
pub open spec fn i16_of(raw: u16) -> i16 {
    if raw >= 32768 {
        (raw - 65536) as i16
    } else {
        raw as i16
    }
}

/// The two's complement of `x`.
pub open spec fn i16_raw(x: i16) -> u16 {
    if x < 0 {
        (x + 65536) as u16
    } else {
        x as u16
    }
}

/// The i16 whose two's complement is `raw`.
pub fn i16_from_raw(raw: u16) -> (x: i16)
    ensures
        x == i16_of(raw),
{
    if raw >= 32768 {
        (raw as i32 - 65536) as i16
    } else {
        raw as i16
    }
}

/// The two's complement of `x`.
pub fn i16_to_raw(x: i16) -> (raw: u16)
    ensures
        raw == i16_raw(x),
{
    if x < 0 {
        (x as i32 + 65536) as u16
    } else {
        x as u16
    }
}

/// The i32 whose two's complement is `raw`.
pub open spec fn i32_of(raw: u32) -> i32 {
    if raw >= 2147483648 {
        (raw - 4294967296) as i32
    } else {
        raw as i32
    }
}

/// The two's complement of `x`.
pub open spec fn i32_raw(x: i32) -> u32 {
    if x < 0 {
        (x + 4294967296) as u32
    } else {
        x as u32
    }
}

/// The i32 whose two's complement is `raw`.
pub fn i32_from_raw(raw: u32) -> (x: i32)
    ensures
        x == i32_of(raw),
{
    if raw >= 2147483648 {
        (raw as i64 - 4294967296) as i32
    } else {
        raw as i32
    }
}

/// The two's complement of `x`.
pub fn i32_to_raw(x: i32) -> (raw: u32)
    ensures
        raw == i32_raw(x),
{
    if x < 0 {
        (x as i64 + 4294967296) as u32
    } else {
        x as u32
    }
}

/// The i64 whose two's complement is `raw`.
pub open spec fn i64_of(raw: u64) -> i64 {
    if raw >= 9223372036854775808 {
        (raw - 18446744073709551616) as i64
    } else {
        raw as i64
    }
}

/// The two's complement of `x`.
pub open spec fn i64_raw(x: i64) -> u64 {
    if x < 0 {
        (x + 18446744073709551616) as u64
    } else {
        x as u64
    }
}

/// The i64 whose two's complement is `raw`.
pub fn i64_from_raw(raw: u64) -> (x: i64)
    ensures
        x == i64_of(raw),
{
    if raw >= 9223372036854775808 {
        (raw as i128 - 18446744073709551616) as i64
    } else {
        raw as i64
    }
}

/// The two's complement of `x`.
pub fn i64_to_raw(x: i64) -> (raw: u64)
    ensures
        raw == i64_raw(x),
{
    if x < 0 {
        (x as i128 + 18446744073709551616) as u64
    } else {
        x as u64
    }
}

/// A signed number comes back from its two's complement as it went in.
pub proof fn lemma_signed_round_trip(a: i8, b: i16, c: i32, d: i64)
    ensures
        i8_of(i8_raw(a)) == a,
        i16_of(i16_raw(b)) == b,
        i32_of(i32_raw(c)) == c,
        i64_of(i64_raw(d)) == d,
{
}

} // verus!

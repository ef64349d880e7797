//! Little-endian integers: what a run of bytes means as a number, and the
//! conversions themselves, which `byteorder` performs.

use byteorder::ByteOrder;
use byteorder::LittleEndian;
use vstd::prelude::*;

verus! {

/// The unsigned 16-bit integer stored, least significant byte first, in the
/// first two bytes of `s`.
pub open spec fn u16_le(s: Seq<u8>) -> u16 {
    (s[0] as int + 0x100 * (s[1] as int)) as u16
}

/// The unsigned 32-bit integer stored in the first four bytes of `s`.
pub open spec fn u32_le(s: Seq<u8>) -> u32 {
    (s[0] as int + 0x100 * (s[1] as int) + 0x1_0000 * (s[2] as int) + 0x100_0000 * (
    s[3] as int)) as u32
}

/// The unsigned 64-bit integer stored in the first eight bytes of `s`.
pub open spec fn u64_le(s: Seq<u8>) -> u64 {
    (u32_le(s) as int + 0x1_0000_0000 * (u32_le(s.skip(4)) as int)) as u64
}

/// The signed 8-bit integer with the two's complement pattern `b`.
pub open spec fn signed8(b: u8) -> i8 {
    if b < 0x80 {
        b as i8
    } else {
        (b as int - 0x100) as i8
    }
}

/// The signed 16-bit integer with the two's complement pattern `u`.
pub open spec fn signed16(u: u16) -> i16 {
    if u < 0x8000 {
        u as i16
    } else {
        (u as int - 0x1_0000) as i16
    }
}

/// The signed 32-bit integer with the two's complement pattern `u`.
pub open spec fn signed32(u: u32) -> i32 {
    if u < 0x8000_0000 {
        u as i32
    } else {
        (u as int - 0x1_0000_0000) as i32
    }
}

/// The two's complement pattern of `v`.
pub open spec fn pattern8(v: i8) -> u8 {
    if v >= 0 {
        v as u8
    } else {
        (v as int + 0x100) as u8
    }
}

/// The two's complement pattern of `v`.
pub open spec fn pattern16(v: i16) -> u16 {
    if v >= 0 {
        v as u16
    } else {
        (v as int + 0x1_0000) as u16
    }
}

/// The two's complement pattern of `v`.
pub open spec fn pattern32(v: i32) -> u32 {
    if v >= 0 {
        v as u32
    } else {
        (v as int + 0x1_0000_0000) as u32
    }
}

/// Byte `k` of `v`, counted from the least significant one.
#[verifier::opaque]
pub open spec fn byte_of(v: int, k: int) -> u8 {
    if k == 0 {
        (v % 0x100) as u8
    } else if k == 1 {
        (v / 0x100 % 0x100) as u8
    } else if k == 2 {
        (v / 0x1_0000 % 0x100) as u8
    } else {
        (v / 0x100_0000 % 0x100) as u8
    }
}

/// The two bytes of `v`, least significant first.
pub open spec fn u16_bytes(v: u16) -> Seq<u8> {
    seq![byte_of(v as int, 0), byte_of(v as int, 1)]
}

/// The four bytes of `v`, least significant first.
pub open spec fn u32_bytes(v: u32) -> Seq<u8> {
    seq![byte_of(v as int, 0), byte_of(v as int, 1), byte_of(v as int, 2), byte_of(v as int, 3)]
}

/// The eight bytes of `v`, least significant first.
pub open spec fn u64_bytes(v: u64) -> Seq<u8> {
    u32_bytes((v as int % 0x1_0000_0000) as u32) + u32_bytes((v as int / 0x1_0000_0000) as u32)
}

/// Reading back the bytes of a 16-bit integer gives the integer, whatever
/// follows them.
pub proof fn lemma_u16_round_trip(v: u16, rest: Seq<u8>)
    ensures
        u16_bytes(v).len() == 2,
        u16_le(u16_bytes(v) + rest) == v,
{
    reveal(byte_of);
}

/// Reading back the bytes of a 32-bit integer gives the integer, whatever
/// follows them.
pub proof fn lemma_u32_round_trip(v: u32, rest: Seq<u8>)
    ensures
        u32_bytes(v).len() == 4,
        u32_le(u32_bytes(v) + rest) == v,
{
    reveal(byte_of);
}

/// A signed integer and its pattern determine each other.
pub proof fn lemma_signed_patterns(a: i8, b: i16, c: i32)
    ensures
        signed8(pattern8(a)) == a,
        signed16(pattern16(b)) == b,
        signed32(pattern32(c)) == c,
{
}

/// `byteorder::LittleEndian::read_u16`: the integer whose low byte is
/// `buf[0]` and whose high byte is `buf[1]`. The outside function panics on a
/// shorter slice, which `requires` leaves out.
#[verifier::external_body]
pub(crate) fn read_u16_le(buf: &[u8]) -> (v: u16)
    requires
        buf@.len() >= 2,
    ensures
        v == u16_le(buf@),
{
    LittleEndian::read_u16(buf)
}

/// `byteorder::LittleEndian::read_u32`: the integer stored, least
/// significant byte first, in `buf[0..4]`. Panics on a shorter slice.
#[verifier::external_body]
pub(crate) fn read_u32_le(buf: &[u8]) -> (v: u32)
    requires
        buf@.len() >= 4,
    ensures
        v == u32_le(buf@),
{
    LittleEndian::read_u32(buf)
}

/// `byteorder::LittleEndian::read_u64`: the integer stored, least
/// significant byte first, in `buf[0..8]`. Panics on a shorter slice.
#[verifier::external_body]
pub(crate) fn read_u64_le(buf: &[u8]) -> (v: u64)
    requires
        buf@.len() >= 8,
    ensures
        v == u64_le(buf@),
{
    LittleEndian::read_u64(buf)
}

/// `byteorder::LittleEndian::read_i16`: `read_u16` reinterpreted in two's
/// complement. Panics on a slice shorter than two bytes.
#[verifier::external_body]
pub(crate) fn read_i16_le(buf: &[u8]) -> (v: i16)
    requires
        buf@.len() >= 2,
    ensures
        v == signed16(u16_le(buf@)),
{
    LittleEndian::read_i16(buf)
}

/// `byteorder::LittleEndian::read_i32`: `read_u32` reinterpreted in two's
/// complement. Panics on a slice shorter than four bytes.
#[verifier::external_body]
pub(crate) fn read_i32_le(buf: &[u8]) -> (v: i32)
    requires
        buf@.len() >= 4,
    ensures
        v == signed32(u32_le(buf@)),
{
    LittleEndian::read_i32(buf)
}

/// `byteorder::LittleEndian::write_u16` on a buffer of two bytes: the low
/// byte of `v`, then the high byte.
#[verifier::external_body]
pub(crate) fn write_u16_le(v: u16) -> (buf: [u8; 2])
    ensures
        buf@ == u16_bytes(v),
{
    let mut buf = [0u8; 2];
    LittleEndian::write_u16(&mut buf, v);
    buf
}

/// `byteorder::LittleEndian::write_u32` on a buffer of four bytes: the bytes
/// of `v`, least significant first.
#[verifier::external_body]
pub(crate) fn write_u32_le(v: u32) -> (buf: [u8; 4])
    ensures
        buf@ == u32_bytes(v),
{
    let mut buf = [0u8; 4];
    LittleEndian::write_u32(&mut buf, v);
    buf
}

/// `byteorder::LittleEndian::write_u64` on a buffer of eight bytes: the
/// bytes of `v`, least significant first.
#[verifier::external_body]
pub(crate) fn write_u64_le(v: u64) -> (buf: [u8; 8])
    ensures
        buf@ == u64_bytes(v),
{
    let mut buf = [0u8; 8];
    LittleEndian::write_u64(&mut buf, v);
    buf
}

/// `byteorder::LittleEndian::write_i16` on a buffer of two bytes: the bytes
/// of the two's complement pattern of `v`.
#[verifier::external_body]
pub(crate) fn write_i16_le(v: i16) -> (buf: [u8; 2])
    ensures
        buf@ == u16_bytes(pattern16(v)),
{
    let mut buf = [0u8; 2];
    LittleEndian::write_i16(&mut buf, v);
    buf
}

/// `byteorder::LittleEndian::write_i32` on a buffer of four bytes: the bytes
/// of the two's complement pattern of `v`.
#[verifier::external_body]
pub(crate) fn write_i32_le(v: i32) -> (buf: [u8; 4])
    ensures
        buf@ == u32_bytes(pattern32(v)),
{
    let mut buf = [0u8; 4];
    LittleEndian::write_i32(&mut buf, v);
    buf
}

} // verus!

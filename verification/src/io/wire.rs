//! The wire forms of the primitive values: what stands at an offset of a
//! byte sequence, and the bytes that a value is written as.

use crate::errors::Error;
use crate::io::endian::{
    pattern16, pattern32, pattern8, signed16, signed32, signed8, u16_bytes, u16_le, u32_bytes,
    u32_le, u64_bytes, u64_le,
};
use crate::io::text::{text_bytes, text_of};
use crate::utils::{Color4, Float32, Float64, Vector2, Vector3, Vector4};
use vstd::prelude::*;

verus! {

/// `n` more bytes can be had at `pos`.
pub open spec fn fits(s: Seq<u8>, pos: nat, n: nat) -> bool {
    pos + n <= s.len()
}

/// The `n` bytes at `pos`.
pub open spec fn run(s: Seq<u8>, pos: nat, n: nat) -> Seq<u8> {
    s.subrange(pos as int, (pos + n) as int)
}

/// The byte at `pos`.
pub open spec fn u8_at(s: Seq<u8>, pos: nat) -> u8 {
    s[pos as int]
}

/// The unsigned 16-bit integer at `pos`.
pub open spec fn u16_at(s: Seq<u8>, pos: nat) -> u16 {
    u16_le(run(s, pos, 2))
}

/// The unsigned 32-bit integer at `pos`.
pub open spec fn u32_at(s: Seq<u8>, pos: nat) -> u32 {
    u32_le(run(s, pos, 4))
}

/// The unsigned 64-bit integer at `pos`.
pub open spec fn u64_at(s: Seq<u8>, pos: nat) -> u64 {
    u64_le(run(s, pos, 8))
}

/// The signed 8-bit integer at `pos`.
pub open spec fn i8_at(s: Seq<u8>, pos: nat) -> i8 {
    signed8(u8_at(s, pos))
}

/// The signed 16-bit integer at `pos`.
pub open spec fn i16_at(s: Seq<u8>, pos: nat) -> i16 {
    signed16(u16_at(s, pos))
}

/// The signed 32-bit integer at `pos`.
pub open spec fn i32_at(s: Seq<u8>, pos: nat) -> i32 {
    signed32(u32_at(s, pos))
}

/// A flag is one byte: zero for false, anything else for true.
pub open spec fn bool_at(s: Seq<u8>, pos: nat) -> bool {
    u8_at(s, pos) != 0
}

/// The single at `pos`, by its bits.
pub open spec fn f32_at(s: Seq<u8>, pos: nat) -> Float32 {
    Float32 { bits: u32_at(s, pos) }
}

/// The double at `pos`, by its bits.
pub open spec fn f64_at(s: Seq<u8>, pos: nat) -> Float64 {
    Float64 { bits: u64_at(s, pos) }
}

/// The colour at `pos`: red, green, blue, alpha.
pub open spec fn color4_at(s: Seq<u8>, pos: nat) -> Color4 {
    Color4 {
        r: f32_at(s, pos),
        g: f32_at(s, pos + 4),
        b: f32_at(s, pos + 8),
        a: f32_at(s, pos + 12),
    }
}

/// The two singles at `pos`: `x`, `y`.
pub open spec fn vector2_f32_at(s: Seq<u8>, pos: nat) -> Vector2<Float32> {
    Vector2 { x: f32_at(s, pos), y: f32_at(s, pos + 4) }
}

/// The three singles at `pos`: `x`, `y`, `z`.
pub open spec fn vector3_f32_at(s: Seq<u8>, pos: nat) -> Vector3<Float32> {
    Vector3 { x: f32_at(s, pos), y: f32_at(s, pos + 4), z: f32_at(s, pos + 8) }
}

/// The three 16-bit integers at `pos`: `x`, `y`, `z`.
pub open spec fn vector3_i16_at(s: Seq<u8>, pos: nat) -> Vector3<i16> {
    Vector3 { x: i16_at(s, pos), y: i16_at(s, pos + 2), z: i16_at(s, pos + 4) }
}

/// The four singles at `pos`: `w`, `x`, `y`, `z`.
pub open spec fn vector4_f32_at(s: Seq<u8>, pos: nat) -> Vector4<Float32> {
    Vector4 {
        w: f32_at(s, pos),
        x: f32_at(s, pos + 4),
        y: f32_at(s, pos + 8),
        z: f32_at(s, pos + 12),
    }
}

/// The four 16-bit integers at `pos`: `w`, `x`, `y`, `z`.
pub open spec fn vector4_i16_at(s: Seq<u8>, pos: nat) -> Vector4<i16> {
    Vector4 {
        w: i16_at(s, pos),
        x: i16_at(s, pos + 2),
        y: i16_at(s, pos + 4),
        z: i16_at(s, pos + 6),
    }
}

/// The value `v` of width `n` read at `pos`, with the position after it, or
/// nothing where the stream is too short.
pub open spec fn fixed<T>(s: Seq<u8>, pos: nat, n: nat, v: T) -> Option<(T, nat)> {
    if fits(s, pos, n) {
        Some((v, pos + n))
    } else {
        None
    }
}

/// The offset of the first zero byte at or after `pos`, or the length of `s`
/// where there is none.
pub open spec fn nul_from(s: Seq<u8>, pos: nat) -> nat
    decreases s.len() - pos,
{
    if pos >= s.len() {
        s.len()
    } else if s[pos as int] == 0 {
        pos
    } else {
        nul_from(s, pos + 1)
    }
}

/// A null-terminated text at `pos`: the bytes up to the first zero byte,
/// the terminator consumed and left out. Without a terminator there is no
/// text.
pub open spec fn cstring_at(s: Seq<u8>, pos: nat) -> Option<(Seq<char>, nat)> {
    let end = nul_from(s, pos);
    if end < s.len() {
        Some((text_of(s.subrange(pos as int, end as int)), end + 1))
    } else {
        None
    }
}

/// A run of bytes without its last byte, where that byte is zero.
pub open spec fn without_trailing_nul(raw: Seq<u8>) -> Seq<u8> {
    if raw.len() > 0 && raw.last() == 0 {
        raw.drop_last()
    } else {
        raw
    }
}

/// A text of exactly `n` bytes at `pos`; one trailing zero byte, where
/// present, is not part of the text.
pub open spec fn string_at(s: Seq<u8>, pos: nat, n: nat) -> Option<(Seq<char>, nat)> {
    fixed(s, pos, n, text_of(without_trailing_nul(run(s, pos, n))))
}

/// A text after a length of one byte.
pub open spec fn string_u8_at(s: Seq<u8>, pos: nat) -> Option<(Seq<char>, nat)> {
    if fits(s, pos, 1) {
        string_at(s, pos + 1, u8_at(s, pos) as nat)
    } else {
        None
    }
}

/// A text after a length of two bytes.
pub open spec fn string_u16_at(s: Seq<u8>, pos: nat) -> Option<(Seq<char>, nat)> {
    if fits(s, pos, 2) {
        string_at(s, pos + 2, u16_at(s, pos) as nat)
    } else {
        None
    }
}

/// A text after a length of four bytes.
pub open spec fn string_u32_at(s: Seq<u8>, pos: nat) -> Option<(Seq<char>, nat)> {
    if fits(s, pos, 4) {
        string_at(s, pos + 4, u32_at(s, pos) as nat)
    } else {
        None
    }
}

/// A read has done what `want` says: on a value, it returned that value and
/// stopped at the position after it; on nothing, it reported the end of the
/// stream and stopped there.
pub open spec fn read_yields<T>(
    r: Result<T, Error>,
    stopped: nat,
    want: Option<(T, nat)>,
    len: nat,
) -> bool {
    match want {
        Some((v, next)) => r == Ok::<T, Error>(v) && stopped == next,
        None => r == Err::<T, Error>(Error::UnexpectedEof) && stopped == len,
    }
}

/// `read_yields` for a text, which is compared by its characters.
pub open spec fn text_yields(
    r: Result<String, Error>,
    stopped: nat,
    want: Option<(Seq<char>, nat)>,
    len: nat,
) -> bool {
    match want {
        Some((text, next)) => r is Ok && r->Ok_0@ == text && stopped == next,
        None => r == Err::<String, Error>(Error::UnexpectedEof) && stopped == len,
    }
}

/// `read_yields` for a run of items, which is compared by its items.
pub open spec fn run_yields<T>(
    r: Result<Vec<T>, Error>,
    stopped: nat,
    want: Option<(Seq<T>, nat)>,
    len: nat,
) -> bool {
    match want {
        Some((items, next)) => r is Ok && r->Ok_0@ == items && stopped == next,
        None => r == Err::<Vec<T>, Error>(Error::UnexpectedEof) && stopped == len,
    }
}

/// The stream `s` after `data` was written at `pos`: bytes in the way are
/// replaced, and the stream grows where the data runs past its end.
#[verifier::opaque]
pub open spec fn overwrite(s: Seq<u8>, pos: nat, data: Seq<u8>) -> Seq<u8> {
    Seq::new(
        if s.len() >= pos + data.len() {
            s.len()
        } else {
            pos + data.len()
        },
        |i: int|
            if pos <= i < pos + data.len() {
                data[i - pos]
            } else if i < s.len() {
                s[i]
            } else {
                0u8
            },
    )
}

/// A write has put `data` at the old position and stopped after it.
pub open spec fn wrote(
    before: Seq<u8>,
    started: nat,
    data: Seq<u8>,
    after: Seq<u8>,
    stopped: nat,
) -> bool {
    after == overwrite(before, started, data) && stopped == started + data.len()
}

/// The byte of a signed 8-bit integer.
pub open spec fn i8_bytes(v: i8) -> Seq<u8> {
    seq![pattern8(v)]
}

/// The two bytes of a signed 16-bit integer.
pub open spec fn i16_bytes(v: i16) -> Seq<u8> {
    u16_bytes(pattern16(v))
}

/// The four bytes of a signed 32-bit integer.
pub open spec fn i32_bytes(v: i32) -> Seq<u8> {
    u32_bytes(pattern32(v))
}

/// The byte of a flag: 1 for true, 0 for false.
pub open spec fn bool_bytes(v: bool) -> Seq<u8> {
    seq![if v { 1u8 } else { 0u8 }]
}

/// The four bytes of a single.
pub open spec fn f32_bytes(v: Float32) -> Seq<u8> {
    u32_bytes(v.bits)
}

/// The eight bytes of a double.
pub open spec fn f64_bytes(v: Float64) -> Seq<u8> {
    u64_bytes(v.bits)
}

/// The bytes of a colour: red, green, blue, alpha.
pub open spec fn color4_bytes(c: Color4) -> Seq<u8> {
    f32_bytes(c.r) + f32_bytes(c.g) + f32_bytes(c.b) + f32_bytes(c.a)
}

/// The bytes of two singles: `x`, `y`.
pub open spec fn vector2_f32_bytes(v: Vector2<Float32>) -> Seq<u8> {
    f32_bytes(v.x) + f32_bytes(v.y)
}

/// The bytes of three singles: `x`, `y`, `z`.
pub open spec fn vector3_f32_bytes(v: Vector3<Float32>) -> Seq<u8> {
    f32_bytes(v.x) + f32_bytes(v.y) + f32_bytes(v.z)
}

/// The bytes of three 16-bit integers: `x`, `y`, `z`.
pub open spec fn vector3_i16_bytes(v: Vector3<i16>) -> Seq<u8> {
    i16_bytes(v.x) + i16_bytes(v.y) + i16_bytes(v.z)
}

/// The bytes of four singles: `w`, `x`, `y`, `z`.
pub open spec fn vector4_f32_bytes(v: Vector4<Float32>) -> Seq<u8> {
    f32_bytes(v.w) + f32_bytes(v.x) + f32_bytes(v.y) + f32_bytes(v.z)
}

/// The bytes of four 16-bit integers: `w`, `x`, `y`, `z`.
pub open spec fn vector4_i16_bytes(v: Vector4<i16>) -> Seq<u8> {
    i16_bytes(v.w) + i16_bytes(v.x) + i16_bytes(v.y) + i16_bytes(v.z)
}

/// A text followed by its terminator.
pub open spec fn cstring_bytes(text: Seq<char>) -> Seq<u8> {
    text_bytes(text) + seq![0u8]
}

/// A text after its length in one byte. Defined for texts of at most 255
/// bytes.
pub open spec fn string_u8_bytes(text: Seq<char>) -> Seq<u8> {
    seq![text_bytes(text).len() as u8] + text_bytes(text)
}

/// A text after its length in two bytes. Defined for texts of at most
/// 65535 bytes.
pub open spec fn string_u16_bytes(text: Seq<char>) -> Seq<u8> {
    u16_bytes(text_bytes(text).len() as u16) + text_bytes(text)
}

/// A text after its length in four bytes. Defined for texts of less than
/// 2^32 bytes.
pub open spec fn string_u32_bytes(text: Seq<char>) -> Seq<u8> {
    u32_bytes(text_bytes(text).len() as u32) + text_bytes(text)
}

/// Two writes, one after the other, are one write of both runs.
pub proof fn lemma_overwrite_twice(s: Seq<u8>, pos: nat, a: Seq<u8>, b: Seq<u8>)
    ensures
        overwrite(overwrite(s, pos, a), pos + a.len(), b) == overwrite(s, pos, a + b),
{
    reveal(overwrite);
    assert(overwrite(overwrite(s, pos, a), pos + a.len(), b) =~= overwrite(s, pos, a + b));
}

/// Writing nothing inside the stream changes nothing.
pub proof fn lemma_overwrite_nothing(s: Seq<u8>, pos: nat)
    requires
        pos <= s.len(),
    ensures
        overwrite(s, pos, Seq::<u8>::empty()) == s,
{
    reveal(overwrite);
    assert(overwrite(s, pos, Seq::<u8>::empty()) =~= s);
}

} // verus!

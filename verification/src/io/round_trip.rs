//! Values read back from the bytes they were written as.

use crate::io::endian::{
    lemma_signed_patterns, lemma_u16_round_trip, lemma_u32_round_trip, pattern16, pattern32,
    u16_bytes, u32_bytes,
};
use crate::io::text::{lemma_text_round_trip, text_bytes};
use crate::io::wire::{
    bool_at, bool_bytes, color4_at, color4_bytes, cstring_at, cstring_bytes, f32_at, f32_bytes,
    i16_at, i16_bytes, i32_at, i32_bytes, nul_from, run, string_u16_at, string_u16_bytes,
    string_u8_at, string_u8_bytes, u16_at, u8_at, vector2_f32_at, vector2_f32_bytes, vector3_f32_at,
    vector3_f32_bytes, vector3_i16_at, vector3_i16_bytes, vector4_f32_at, vector4_f32_bytes,
    vector4_i16_at, vector4_i16_bytes,
};
use crate::utils::{Color4, Float32, Vector2, Vector3, Vector4};
use vstd::prelude::*;

verus! {

/// Where the first bytes of `e` are `p` and then `c`, the run of `e` after
/// `p` is `c`, and the first bytes of `e` are `p`.
pub proof fn lemma_chunk(e: Seq<u8>, p: Seq<u8>, c: Seq<u8>)
    requires
        p.len() + c.len() <= e.len(),
        e.take((p.len() + c.len()) as int) == p + c,
    ensures
        run(e, p.len(), c.len()) == c,
        e.take(p.len() as int) == p,
{
    let both = e.take((p.len() + c.len()) as int);
    assert(run(e, p.len(), c.len()) =~= both.subrange(p.len() as int, both.len() as int));
    assert((p + c).subrange(p.len() as int, (p + c).len() as int) =~= c);
    assert(e.take(p.len() as int) =~= both.take(p.len() as int));
    assert((p + c).take(p.len() as int) =~= p);
}

/// A run inside a run of `e` is a run of `e`.
pub proof fn lemma_run_within(e: Seq<u8>, o: nat, c: Seq<u8>, q: nat, n: nat)
    requires
        o + c.len() <= e.len(),
        run(e, o, c.len()) == c,
        q + n <= c.len(),
    ensures
        run(e, o + q, n) == run(c, q, n),
{
    assert(run(e, o + q, n) =~= run(e, o, c.len()).subrange(q as int, (q + n) as int));
}

/// The bytes of a 16-bit integer read back as that integer.
pub proof fn lemma_i16_at(e: Seq<u8>, o: nat, v: i16)
    requires
        run(e, o, 2) == i16_bytes(v),
    ensures
        i16_at(e, o) == v,
{
    lemma_u16_round_trip(pattern16(v), Seq::<u8>::empty());
    assert(u16_bytes(pattern16(v)) + Seq::<u8>::empty() =~= u16_bytes(pattern16(v)));
    lemma_signed_patterns(0, v, 0);
}

/// The bytes of a 32-bit integer read back as that integer.
pub proof fn lemma_i32_at(e: Seq<u8>, o: nat, v: i32)
    requires
        run(e, o, 4) == i32_bytes(v),
    ensures
        i32_at(e, o) == v,
{
    lemma_u32_round_trip(pattern32(v), Seq::<u8>::empty());
    assert(u32_bytes(pattern32(v)) + Seq::<u8>::empty() =~= u32_bytes(pattern32(v)));
    lemma_signed_patterns(0, 0, v);
}

/// The bytes of a single read back as that single.
pub proof fn lemma_f32_at(e: Seq<u8>, o: nat, v: Float32)
    requires
        run(e, o, 4) == f32_bytes(v),
    ensures
        f32_at(e, o) == v,
{
    lemma_u32_round_trip(v.bits, Seq::<u8>::empty());
    assert(u32_bytes(v.bits) + Seq::<u8>::empty() =~= u32_bytes(v.bits));
}

/// The bytes of a pair of singles read back as that pair.
pub proof fn lemma_vector2_f32_at(e: Seq<u8>, o: nat, v: Vector2<Float32>)
    requires
        o + 8 <= e.len(),
        run(e, o, 8) == vector2_f32_bytes(v),
    ensures
        vector2_f32_at(e, o) == v,
{
    let c = vector2_f32_bytes(v);
    lemma_run_within(e, o, c, 0, 4);
    lemma_run_within(e, o, c, 4, 4);
    assert(run(c, 0, 4) =~= f32_bytes(v.x));
    assert(run(c, 4, 4) =~= f32_bytes(v.y));
    lemma_f32_at(e, o, v.x);
    lemma_f32_at(e, o + 4, v.y);
}

/// The bytes of a triple of singles read back as that triple.
pub proof fn lemma_vector3_f32_at(e: Seq<u8>, o: nat, v: Vector3<Float32>)
    requires
        o + 12 <= e.len(),
        run(e, o, 12) == vector3_f32_bytes(v),
    ensures
        vector3_f32_at(e, o) == v,
{
    let c = vector3_f32_bytes(v);
    lemma_run_within(e, o, c, 0, 4);
    lemma_run_within(e, o, c, 4, 4);
    lemma_run_within(e, o, c, 8, 4);
    assert(run(c, 0, 4) =~= f32_bytes(v.x));
    assert(run(c, 4, 4) =~= f32_bytes(v.y));
    assert(run(c, 8, 4) =~= f32_bytes(v.z));
    lemma_f32_at(e, o, v.x);
    lemma_f32_at(e, o + 4, v.y);
    lemma_f32_at(e, o + 8, v.z);
}

/// The bytes of four singles read back as those four.
pub proof fn lemma_vector4_f32_at(e: Seq<u8>, o: nat, v: Vector4<Float32>)
    requires
        o + 16 <= e.len(),
        run(e, o, 16) == vector4_f32_bytes(v),
    ensures
        vector4_f32_at(e, o) == v,
{
    let c = vector4_f32_bytes(v);
    lemma_run_within(e, o, c, 0, 4);
    lemma_run_within(e, o, c, 4, 4);
    lemma_run_within(e, o, c, 8, 4);
    lemma_run_within(e, o, c, 12, 4);
    assert(run(c, 0, 4) =~= f32_bytes(v.w));
    assert(run(c, 4, 4) =~= f32_bytes(v.x));
    assert(run(c, 8, 4) =~= f32_bytes(v.y));
    assert(run(c, 12, 4) =~= f32_bytes(v.z));
    lemma_f32_at(e, o, v.w);
    lemma_f32_at(e, o + 4, v.x);
    lemma_f32_at(e, o + 8, v.y);
    lemma_f32_at(e, o + 12, v.z);
}

/// The bytes of a colour read back as that colour.
pub proof fn lemma_color4_at(e: Seq<u8>, o: nat, v: Color4)
    requires
        o + 16 <= e.len(),
        run(e, o, 16) == color4_bytes(v),
    ensures
        color4_at(e, o) == v,
{
    let c = color4_bytes(v);
    lemma_run_within(e, o, c, 0, 4);
    lemma_run_within(e, o, c, 4, 4);
    lemma_run_within(e, o, c, 8, 4);
    lemma_run_within(e, o, c, 12, 4);
    assert(run(c, 0, 4) =~= f32_bytes(v.r));
    assert(run(c, 4, 4) =~= f32_bytes(v.g));
    assert(run(c, 8, 4) =~= f32_bytes(v.b));
    assert(run(c, 12, 4) =~= f32_bytes(v.a));
    lemma_f32_at(e, o, v.r);
    lemma_f32_at(e, o + 4, v.g);
    lemma_f32_at(e, o + 8, v.b);
    lemma_f32_at(e, o + 12, v.a);
}

/// The bytes of a triple of 16-bit integers read back as that triple.
pub proof fn lemma_vector3_i16_at(e: Seq<u8>, o: nat, v: Vector3<i16>)
    requires
        o + 6 <= e.len(),
        run(e, o, 6) == vector3_i16_bytes(v),
    ensures
        vector3_i16_at(e, o) == v,
{
    let c = vector3_i16_bytes(v);
    lemma_run_within(e, o, c, 0, 2);
    lemma_run_within(e, o, c, 2, 2);
    lemma_run_within(e, o, c, 4, 2);
    assert(run(c, 0, 2) =~= i16_bytes(v.x));
    assert(run(c, 2, 2) =~= i16_bytes(v.y));
    assert(run(c, 4, 2) =~= i16_bytes(v.z));
    lemma_i16_at(e, o, v.x);
    lemma_i16_at(e, o + 2, v.y);
    lemma_i16_at(e, o + 4, v.z);
}

/// The bytes of four 16-bit integers read back as those four.
pub proof fn lemma_vector4_i16_at(e: Seq<u8>, o: nat, v: Vector4<i16>)
    requires
        o + 8 <= e.len(),
        run(e, o, 8) == vector4_i16_bytes(v),
    ensures
        vector4_i16_at(e, o) == v,
{
    let c = vector4_i16_bytes(v);
    lemma_run_within(e, o, c, 0, 2);
    lemma_run_within(e, o, c, 2, 2);
    lemma_run_within(e, o, c, 4, 2);
    lemma_run_within(e, o, c, 6, 2);
    assert(run(c, 0, 2) =~= i16_bytes(v.w));
    assert(run(c, 2, 2) =~= i16_bytes(v.x));
    assert(run(c, 4, 2) =~= i16_bytes(v.y));
    assert(run(c, 6, 2) =~= i16_bytes(v.z));
    lemma_i16_at(e, o, v.w);
    lemma_i16_at(e, o + 2, v.x);
    lemma_i16_at(e, o + 4, v.y);
    lemma_i16_at(e, o + 6, v.z);
}

/// A flag that was written reads back as it was.
pub proof fn lemma_bool_at(e: Seq<u8>, o: nat, v: bool)
    requires
        o + 1 <= e.len(),
        run(e, o, 1) == bool_bytes(v),
    ensures
        bool_at(e, o) == v,
{
    assert(run(e, o, 1)[0] == e[o as int]);
    assert(bool_bytes(v)[0] == if v {
        1u8
    } else {
        0u8
    });
}

/// Where no byte from `o` up to `end` is zero, the first zero byte from `o`
/// on is the first from `end` on.
pub proof fn lemma_nul_from_skips(e: Seq<u8>, o: nat, end: nat)
    requires
        o <= end <= e.len(),
        forall|i: int| o <= i < end ==> e[i] != 0,
    ensures
        nul_from(e, o) == nul_from(e, end),
    decreases end - o,
{
    if o < end {
        lemma_nul_from_skips(e, o + 1, end);
    }
}

/// A text without a zero byte that was written with a terminator reads
/// back as it was.
pub proof fn lemma_cstring_at(e: Seq<u8>, o: nat, text: Seq<char>)
    requires
        o + text_bytes(text).len() + 1 <= e.len(),
        run(e, o, text_bytes(text).len() + 1) == cstring_bytes(text),
        forall|i: int| 0 <= i < text_bytes(text).len() ==> text_bytes(text)[i] != 0,
    ensures
        cstring_at(e, o) == Some((text, (o + text_bytes(text).len() + 1) as nat)),
{
    let raw = text_bytes(text);
    let end = o + raw.len();
    let c = cstring_bytes(text);
    assert forall|i: int| o <= i < end implies e[i] != 0 by {
        assert(e[i] == run(e, o, raw.len() + 1)[i - o]);
        assert(c[i - o] == raw[i - o]);
    }
    assert(e[end as int] == run(e, o, raw.len() + 1)[raw.len() as int]);
    assert(c[raw.len() as int] == 0);
    lemma_nul_from_skips(e, o, end as nat);
    assert(e.subrange(o as int, end as int) =~= raw) by {
        assert forall|i: int| 0 <= i < raw.len() implies e.subrange(o as int, end as int)[i]
            == raw[i] by {
            assert(e[o + i] == run(e, o, raw.len() + 1)[i]);
            assert(c[i] == raw[i]);
        }
    }
    lemma_text_round_trip(text);
}

/// A text reads back as it is: its bytes do not end in a zero byte, which a
/// read would take for padding and drop.
pub open spec fn settled(text: Seq<char>) -> bool {
    text_bytes(text).len() > 0 ==> text_bytes(text).last() != 0
}

/// A settled text reads back, after a length of two bytes, as it was.
pub proof fn lemma_string_u16_at(e: Seq<u8>, o: nat, text: Seq<char>)
    requires
        text_bytes(text).len() <= 0xffff,
        o + 2 + text_bytes(text).len() <= e.len(),
        run(e, o, 2 + text_bytes(text).len()) == string_u16_bytes(text),
        settled(text),
    ensures
        string_u16_at(e, o) == Some((text, (o + 2 + text_bytes(text).len()) as nat)),
{
    let raw = text_bytes(text);
    let head = u16_bytes(raw.len() as u16);
    let c = string_u16_bytes(text);
    lemma_run_within(e, o, c, 0, 2);
    assert(run(c, 0, 2) =~= head);
    lemma_u16_round_trip(raw.len() as u16, Seq::<u8>::empty());
    assert(head + Seq::<u8>::empty() =~= head);
    assert(u16_at(e, o) == raw.len());
    lemma_run_within(e, o, c, 2, raw.len());
    assert(run(c, 2, raw.len()) =~= raw);
    lemma_text_round_trip(text);
}

/// A settled text reads back, after a length of one byte, as it was.
pub proof fn lemma_string_u8_at(e: Seq<u8>, o: nat, text: Seq<char>)
    requires
        text_bytes(text).len() <= 0xff,
        o + 1 + text_bytes(text).len() <= e.len(),
        run(e, o, 1 + text_bytes(text).len()) == string_u8_bytes(text),
        settled(text),
    ensures
        string_u8_at(e, o) == Some((text, (o + 1 + text_bytes(text).len()) as nat)),
{
    let raw = text_bytes(text);
    let c = string_u8_bytes(text);
    assert(e[o as int] == run(e, o, 1 + raw.len())[0]);
    assert(c[0] == raw.len() as u8);
    assert(u8_at(e, o) == raw.len());
    lemma_run_within(e, o, c, 1, raw.len());
    assert(run(c, 1, raw.len()) =~= raw);
    lemma_text_round_trip(text);
}

} // verus!

//! Writing the primitive values of the formats to a stream.

use crate::errors::Error;
use crate::io::endian::{
    u16_bytes, u32_bytes, write_i16_le, write_i32_le, write_u16_le, write_u32_le, write_u64_le,
};
use crate::io::stream::{ByteCursor, SeekRoseExt};
use crate::io::text::text_bytes;
use crate::io::wire::{
    bool_bytes, color4_bytes, cstring_bytes, f32_bytes, f64_bytes, i16_bytes, i32_bytes, i8_bytes,
    lemma_overwrite_twice, string_u16_bytes, string_u32_bytes, string_u8_bytes, vector2_f32_bytes,
    vector3_f32_bytes, vector3_i16_bytes, vector4_f32_bytes, vector4_i16_bytes, wrote,
};
use crate::utils::{Color4, Float32, Float64, Vector2, Vector3, Vector4};
use vstd::prelude::*;

verus! {

/// Two writes, one after the other, are one write of both runs.
pub proof fn lemma_wrote_twice(
    s0: Seq<u8>,
    p0: nat,
    a: Seq<u8>,
    s1: Seq<u8>,
    p1: nat,
    b: Seq<u8>,
    s2: Seq<u8>,
    p2: nat,
)
    requires
        wrote(s0, p0, a, s1, p1),
        wrote(s1, p1, b, s2, p2),
    ensures
        wrote(s0, p0, a + b, s2, p2),
{
    lemma_overwrite_twice(s0, p0, a, b);
}

/// What a write of a text after a length field has done: the text was put
/// at the cursor after its length, or, where the length field cannot hold
/// the length, nothing was written and `Error::TooLarge` is reported.
pub open spec fn text_written(
    r: Result<(), Error>,
    before: Seq<u8>,
    started: nat,
    text: Seq<char>,
    limit: nat,
    data: Seq<u8>,
    after: Seq<u8>,
    stopped: nat,
) -> bool {
    if text_bytes(text).len() <= limit {
        r is Ok && wrote(before, started, data, after, stopped)
    } else {
        r == Err::<(), Error>(Error::TooLarge) && after == before && stopped == started
    }
}

/// Writes of the primitive values, each at the cursor.
///
/// A write replaces the bytes that stand in its way, lengthens the stream
/// where it runs past the end, and moves the cursor after what it wrote. A
/// stream in memory takes every write; only a text too long for its length
/// field is refused, before anything of it is written. All integers are
/// little-endian.
pub trait WriteRoseExt: SeekRoseExt {
    /// Writes all of `buf`.
    fn write_all(&mut self, buf: &[u8]) -> (r: Result<(), Error>)
        ensures
            r is Ok,
            wrote(
                old(self).stream(),
                old(self).offset(),
                buf@,
                final(self).stream(),
                final(self).offset(),
            ),
    ;

    fn write_u8(&mut self, n: u8) -> (r: Result<(), Error>)
        ensures
            r is Ok,
            wrote(
                old(self).stream(),
                old(self).offset(),
                seq![n],
                final(self).stream(),
                final(self).offset(),
            ),
    {
        let buf: [u8; 1] = [n];
        proof {
            assert(buf@ =~= seq![n]);
        }
        self.write_all(buf.as_slice())
    }

    fn write_u16(&mut self, n: u16) -> (r: Result<(), Error>)
        ensures
            r is Ok,
            wrote(
                old(self).stream(),
                old(self).offset(),
                u16_bytes(n),
                final(self).stream(),
                final(self).offset(),
            ),
    {
        let buf = write_u16_le(n);
        self.write_all(buf.as_slice())
    }

    fn write_u32(&mut self, n: u32) -> (r: Result<(), Error>)
        ensures
            r is Ok,
            wrote(
                old(self).stream(),
                old(self).offset(),
                u32_bytes(n),
                final(self).stream(),
                final(self).offset(),
            ),
    {
        let buf = write_u32_le(n);
        self.write_all(buf.as_slice())
    }

    fn write_i8(&mut self, n: i8) -> (r: Result<(), Error>)
        ensures
            r is Ok,
            wrote(
                old(self).stream(),
                old(self).offset(),
                i8_bytes(n),
                final(self).stream(),
                final(self).offset(),
            ),
    {
        let b: u8 = if n >= 0 {
            n as u8
        } else {
            (n as i16 + 0x100) as u8
        };
        self.write_u8(b)
    }

    fn write_i16(&mut self, n: i16) -> (r: Result<(), Error>)
        ensures
            r is Ok,
            wrote(
                old(self).stream(),
                old(self).offset(),
                i16_bytes(n),
                final(self).stream(),
                final(self).offset(),
            ),
    {
        let buf = write_i16_le(n);
        self.write_all(buf.as_slice())
    }

    fn write_i32(&mut self, n: i32) -> (r: Result<(), Error>)
        ensures
            r is Ok,
            wrote(
                old(self).stream(),
                old(self).offset(),
                i32_bytes(n),
                final(self).stream(),
                final(self).offset(),
            ),
    {
        let buf = write_i32_le(n);
        self.write_all(buf.as_slice())
    }

    /// Writes a flag as one byte: 1 for true, 0 for false.
    fn write_bool(&mut self, b: bool) -> (r: Result<(), Error>)
        ensures
            r is Ok,
            wrote(
                old(self).stream(),
                old(self).offset(),
                bool_bytes(b),
                final(self).stream(),
                final(self).offset(),
            ),
    {
        let i: u8 = if b {
            1u8
        } else {
            0u8
        };
        self.write_u8(i)
    }

    /// Writes the four bytes of a single.
    fn write_f32(&mut self, n: Float32) -> (r: Result<(), Error>)
        ensures
            r is Ok,
            wrote(
                old(self).stream(),
                old(self).offset(),
                f32_bytes(n),
                final(self).stream(),
                final(self).offset(),
            ),
    {
        self.write_u32(n.to_bits())
    }

    /// Writes the eight bytes of a double.
    fn write_f64(&mut self, n: Float64) -> (r: Result<(), Error>)
        ensures
            r is Ok,
            wrote(
                old(self).stream(),
                old(self).offset(),
                f64_bytes(n),
                final(self).stream(),
                final(self).offset(),
            ),
    {
        let buf = write_u64_le(n.to_bits());
        self.write_all(buf.as_slice())
    }

    /// Writes the bytes of a text and a zero byte after them.
    fn write_cstring(&mut self, string: &str) -> (r: Result<(), Error>)
        ensures
            r is Ok,
            wrote(
                old(self).stream(),
                old(self).offset(),
                cstring_bytes(string@),
                final(self).stream(),
                final(self).offset(),
            ),
    {
        proof {
            reveal(text_bytes);
        }
        self.write_all(string.as_bytes())?;
        let ghost s1 = self.stream();
        let ghost p1 = self.offset();
        self.write_u8(0x00)?;
        proof {
            lemma_wrote_twice(
                old(self).stream(),
                old(self).offset(),
                text_bytes(string@),
                s1,
                p1,
                seq![0u8],
                self.stream(),
                self.offset(),
            );
        }
        Ok(())
    }

    /// Writes a text after its length in one byte. A text of more than 255
    /// bytes is refused.
    fn write_string_u8(&mut self, string: &str) -> (r: Result<(), Error>)
        ensures
            text_written(
                r,
                old(self).stream(),
                old(self).offset(),
                string@,
                0xff,
                string_u8_bytes(string@),
                final(self).stream(),
                final(self).offset(),
            ),
    {
        proof {
            reveal(text_bytes);
        }
        let bytes = string.as_bytes();
        let length = bytes.len();
        if length > 0xff {
            return Err(Error::TooLarge);
        }
        self.write_u8(length as u8)?;
        let ghost s1 = self.stream();
        let ghost p1 = self.offset();
        self.write_all(bytes)?;
        proof {
            lemma_wrote_twice(
                old(self).stream(),
                old(self).offset(),
                seq![length as u8],
                s1,
                p1,
                text_bytes(string@),
                self.stream(),
                self.offset(),
            );
        }
        Ok(())
    }

    /// Writes a text after its length in two bytes. A text of more than
    /// 65535 bytes is refused.
    fn write_string_u16(&mut self, string: &str) -> (r: Result<(), Error>)
        ensures
            text_written(
                r,
                old(self).stream(),
                old(self).offset(),
                string@,
                0xffff,
                string_u16_bytes(string@),
                final(self).stream(),
                final(self).offset(),
            ),
    {
        proof {
            reveal(text_bytes);
        }
        let bytes = string.as_bytes();
        let length = bytes.len();
        if length > 0xffff {
            return Err(Error::TooLarge);
        }
        self.write_u16(length as u16)?;
        let ghost s1 = self.stream();
        let ghost p1 = self.offset();
        self.write_all(bytes)?;
        proof {
            lemma_wrote_twice(
                old(self).stream(),
                old(self).offset(),
                u16_bytes(length as u16),
                s1,
                p1,
                text_bytes(string@),
                self.stream(),
                self.offset(),
            );
        }
        Ok(())
    }

    /// Writes a text after its length in four bytes. A text of 2^32 bytes
    /// or more is refused.
    fn write_string_u32(&mut self, string: &str) -> (r: Result<(), Error>)
        ensures
            text_written(
                r,
                old(self).stream(),
                old(self).offset(),
                string@,
                0xffff_ffff,
                string_u32_bytes(string@),
                final(self).stream(),
                final(self).offset(),
            ),
    {
        proof {
            reveal(text_bytes);
        }
        let bytes = string.as_bytes();
        let length = bytes.len();
        if length as u64 > 0xffff_ffff {
            return Err(Error::TooLarge);
        }
        self.write_u32(length as u32)?;
        let ghost s1 = self.stream();
        let ghost p1 = self.offset();
        self.write_all(bytes)?;
        proof {
            lemma_wrote_twice(
                old(self).stream(),
                old(self).offset(),
                u32_bytes(length as u32),
                s1,
                p1,
                text_bytes(string@),
                self.stream(),
                self.offset(),
            );
        }
        Ok(())
    }

    /// Writes a colour: red, green, blue, alpha.
    fn write_color4(&mut self, color: &Color4) -> (r: Result<(), Error>)
        ensures
            r is Ok,
            wrote(
                old(self).stream(),
                old(self).offset(),
                color4_bytes(*color),
                final(self).stream(),
                final(self).offset(),
            ),
    {
        self.write_f32(color.r)?;
        let ghost s1 = self.stream();
        let ghost p1 = self.offset();
        self.write_f32(color.g)?;
        let ghost s2 = self.stream();
        let ghost p2 = self.offset();
        self.write_f32(color.b)?;
        let ghost s3 = self.stream();
        let ghost p3 = self.offset();
        self.write_f32(color.a)?;
        proof {
            let s0 = old(self).stream();
            let p0 = old(self).offset();
            lemma_wrote_twice(s0, p0, f32_bytes(color.r), s1, p1, f32_bytes(color.g), s2, p2);
            lemma_wrote_twice(
                s0,
                p0,
                f32_bytes(color.r) + f32_bytes(color.g),
                s2,
                p2,
                f32_bytes(color.b),
                s3,
                p3,
            );
            lemma_wrote_twice(
                s0,
                p0,
                f32_bytes(color.r) + f32_bytes(color.g) + f32_bytes(color.b),
                s3,
                p3,
                f32_bytes(color.a),
                self.stream(),
                self.offset(),
            );
        }
        Ok(())
    }

    fn write_vector2_f32(&mut self, v: &Vector2<Float32>) -> (r: Result<(), Error>)
        ensures
            r is Ok,
            wrote(
                old(self).stream(),
                old(self).offset(),
                vector2_f32_bytes(*v),
                final(self).stream(),
                final(self).offset(),
            ),
    {
        self.write_f32(v.x)?;
        let ghost s1 = self.stream();
        let ghost p1 = self.offset();
        self.write_f32(v.y)?;
        proof {
            lemma_wrote_twice(
                old(self).stream(),
                old(self).offset(),
                f32_bytes(v.x),
                s1,
                p1,
                f32_bytes(v.y),
                self.stream(),
                self.offset(),
            );
        }
        Ok(())
    }

    fn write_vector3_f32(&mut self, v: &Vector3<Float32>) -> (r: Result<(), Error>)
        ensures
            r is Ok,
            wrote(
                old(self).stream(),
                old(self).offset(),
                vector3_f32_bytes(*v),
                final(self).stream(),
                final(self).offset(),
            ),
    {
        self.write_f32(v.x)?;
        let ghost s1 = self.stream();
        let ghost p1 = self.offset();
        self.write_f32(v.y)?;
        let ghost s2 = self.stream();
        let ghost p2 = self.offset();
        self.write_f32(v.z)?;
        proof {
            let s0 = old(self).stream();
            let p0 = old(self).offset();
            lemma_wrote_twice(s0, p0, f32_bytes(v.x), s1, p1, f32_bytes(v.y), s2, p2);
            lemma_wrote_twice(
                s0,
                p0,
                f32_bytes(v.x) + f32_bytes(v.y),
                s2,
                p2,
                f32_bytes(v.z),
                self.stream(),
                self.offset(),
            );
        }
        Ok(())
    }

    fn write_vector3_i16(&mut self, v: &Vector3<i16>) -> (r: Result<(), Error>)
        ensures
            r is Ok,
            wrote(
                old(self).stream(),
                old(self).offset(),
                vector3_i16_bytes(*v),
                final(self).stream(),
                final(self).offset(),
            ),
    {
        self.write_i16(v.x)?;
        let ghost s1 = self.stream();
        let ghost p1 = self.offset();
        self.write_i16(v.y)?;
        let ghost s2 = self.stream();
        let ghost p2 = self.offset();
        self.write_i16(v.z)?;
        proof {
            let s0 = old(self).stream();
            let p0 = old(self).offset();
            lemma_wrote_twice(s0, p0, i16_bytes(v.x), s1, p1, i16_bytes(v.y), s2, p2);
            lemma_wrote_twice(
                s0,
                p0,
                i16_bytes(v.x) + i16_bytes(v.y),
                s2,
                p2,
                i16_bytes(v.z),
                self.stream(),
                self.offset(),
            );
        }
        Ok(())
    }

    /// Writes four singles, `w` first.
    fn write_vector4_f32(&mut self, v: &Vector4<Float32>) -> (r: Result<(), Error>)
        ensures
            r is Ok,
            wrote(
                old(self).stream(),
                old(self).offset(),
                vector4_f32_bytes(*v),
                final(self).stream(),
                final(self).offset(),
            ),
    {
        self.write_f32(v.w)?;
        let ghost s1 = self.stream();
        let ghost p1 = self.offset();
        self.write_f32(v.x)?;
        let ghost s2 = self.stream();
        let ghost p2 = self.offset();
        self.write_f32(v.y)?;
        let ghost s3 = self.stream();
        let ghost p3 = self.offset();
        self.write_f32(v.z)?;
        proof {
            let s0 = old(self).stream();
            let p0 = old(self).offset();
            lemma_wrote_twice(s0, p0, f32_bytes(v.w), s1, p1, f32_bytes(v.x), s2, p2);
            lemma_wrote_twice(
                s0,
                p0,
                f32_bytes(v.w) + f32_bytes(v.x),
                s2,
                p2,
                f32_bytes(v.y),
                s3,
                p3,
            );
            lemma_wrote_twice(
                s0,
                p0,
                f32_bytes(v.w) + f32_bytes(v.x) + f32_bytes(v.y),
                s3,
                p3,
                f32_bytes(v.z),
                self.stream(),
                self.offset(),
            );
        }
        Ok(())
    }

    /// Writes four 16-bit integers, `w` first.
    fn write_vector4_i16(&mut self, v: &Vector4<i16>) -> (r: Result<(), Error>)
        ensures
            r is Ok,
            wrote(
                old(self).stream(),
                old(self).offset(),
                vector4_i16_bytes(*v),
                final(self).stream(),
                final(self).offset(),
            ),
    {
        self.write_i16(v.w)?;
        let ghost s1 = self.stream();
        let ghost p1 = self.offset();
        self.write_i16(v.x)?;
        let ghost s2 = self.stream();
        let ghost p2 = self.offset();
        self.write_i16(v.y)?;
        let ghost s3 = self.stream();
        let ghost p3 = self.offset();
        self.write_i16(v.z)?;
        proof {
            let s0 = old(self).stream();
            let p0 = old(self).offset();
            lemma_wrote_twice(s0, p0, i16_bytes(v.w), s1, p1, i16_bytes(v.x), s2, p2);
            lemma_wrote_twice(
                s0,
                p0,
                i16_bytes(v.w) + i16_bytes(v.x),
                s2,
                p2,
                i16_bytes(v.y),
                s3,
                p3,
            );
            lemma_wrote_twice(
                s0,
                p0,
                i16_bytes(v.w) + i16_bytes(v.x) + i16_bytes(v.y),
                s3,
                p3,
                i16_bytes(v.z),
                self.stream(),
                self.offset(),
            );
        }
        Ok(())
    }
}

impl WriteRoseExt for ByteCursor {
    fn write_all(&mut self, buf: &[u8]) -> (r: Result<(), Error>) {
        self.put(buf);
        Ok(())
    }
}

} // verus!

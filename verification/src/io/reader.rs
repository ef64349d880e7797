//! Reading the primitive values of the formats from a stream.

use crate::errors::Error;
use crate::io::endian::{read_i16_le, read_i32_le, read_u16_le, read_u32_le, read_u64_le};
use crate::io::stream::{ByteCursor, SeekRoseExt};
use crate::io::text::decode_lossy;
use crate::io::wire::{
    bool_at, color4_at, cstring_at, f32_at, f64_at, fixed, i16_at, i32_at, i8_at, nul_from,
    read_yields, run, run_yields, string_at, string_u16_at, string_u32_at, string_u8_at,
    text_yields, u16_at, u32_at, u8_at, vector2_f32_at, vector3_f32_at, vector3_i16_at,
    vector4_f32_at, vector4_i16_at,
};
use crate::utils::{Color4, Float32, Float64, Vector2, Vector3, Vector4};
use vstd::prelude::*;

verus! {

/// A run of bytes up to a terminating zero byte, with the position after
/// the terminator.
pub open spec fn nul_run_at(s: Seq<u8>, pos: nat) -> Option<(Seq<u8>, nat)> {
    let end = nul_from(s, pos);
    if end < s.len() {
        Some((s.subrange(pos as int, end as int), end + 1))
    } else {
        None
    }
}

/// Reads of the primitive values, each from the cursor onwards.
///
/// Every read leaves the bytes of the stream as they are. It either returns
/// the value that stands at the cursor and moves the cursor after it, or,
/// where the stream ends before the value does, reports
/// `Error::UnexpectedEof` and leaves the cursor at the end of the stream. All
/// integers are little-endian. Text is decoded permissively.
pub trait ReadRoseExt: SeekRoseExt {
    /// Reads exactly `n` bytes.
    fn read_exact(&mut self, n: u64) -> (r: Result<Vec<u8>, Error>)
        ensures
            final(self).stream() == old(self).stream(),
            run_yields(
                r,
                final(self).offset(),
                fixed(
                    old(self).stream(),
                    old(self).offset(),
                    n as nat,
                    run(old(self).stream(), old(self).offset(), n as nat),
                ),
                old(self).stream().len(),
            ),
    ;

    /// Reads the bytes before the next zero byte, and consumes that byte.
    fn read_until_nul(&mut self) -> (r: Result<Vec<u8>, Error>)
        ensures
            final(self).stream() == old(self).stream(),
            run_yields(
                r,
                final(self).offset(),
                nul_run_at(old(self).stream(), old(self).offset()),
                old(self).stream().len(),
            ),
    ;

    fn read_u8(&mut self) -> (r: Result<u8, Error>)
        ensures
            final(self).stream() == old(self).stream(),
            read_yields(
                r,
                final(self).offset(),
                fixed(
                    old(self).stream(),
                    old(self).offset(),
                    1,
                    u8_at(old(self).stream(), old(self).offset()),
                ),
                old(self).stream().len(),
            ),
    {
        let buf = self.read_exact(1)?;
        Ok(buf[0])
    }

    fn read_u16(&mut self) -> (r: Result<u16, Error>)
        ensures
            final(self).stream() == old(self).stream(),
            read_yields(
                r,
                final(self).offset(),
                fixed(
                    old(self).stream(),
                    old(self).offset(),
                    2,
                    u16_at(old(self).stream(), old(self).offset()),
                ),
                old(self).stream().len(),
            ),
    {
        let buf = self.read_exact(2)?;
        Ok(read_u16_le(buf.as_slice()))
    }

    fn read_u32(&mut self) -> (r: Result<u32, Error>)
        ensures
            final(self).stream() == old(self).stream(),
            read_yields(
                r,
                final(self).offset(),
                fixed(
                    old(self).stream(),
                    old(self).offset(),
                    4,
                    u32_at(old(self).stream(), old(self).offset()),
                ),
                old(self).stream().len(),
            ),
    {
        let buf = self.read_exact(4)?;
        Ok(read_u32_le(buf.as_slice()))
    }

    fn read_i8(&mut self) -> (r: Result<i8, Error>)
        ensures
            final(self).stream() == old(self).stream(),
            read_yields(
                r,
                final(self).offset(),
                fixed(
                    old(self).stream(),
                    old(self).offset(),
                    1,
                    i8_at(old(self).stream(), old(self).offset()),
                ),
                old(self).stream().len(),
            ),
    {
        let b = self.read_u8()?;
        if b < 0x80 {
            Ok(b as i8)
        } else {
            Ok((b as i16 - 0x100) as i8)
        }
    }

    fn read_i16(&mut self) -> (r: Result<i16, Error>)
        ensures
            final(self).stream() == old(self).stream(),
            read_yields(
                r,
                final(self).offset(),
                fixed(
                    old(self).stream(),
                    old(self).offset(),
                    2,
                    i16_at(old(self).stream(), old(self).offset()),
                ),
                old(self).stream().len(),
            ),
    {
        let buf = self.read_exact(2)?;
        Ok(read_i16_le(buf.as_slice()))
    }

    fn read_i32(&mut self) -> (r: Result<i32, Error>)
        ensures
            final(self).stream() == old(self).stream(),
            read_yields(
                r,
                final(self).offset(),
                fixed(
                    old(self).stream(),
                    old(self).offset(),
                    4,
                    i32_at(old(self).stream(), old(self).offset()),
                ),
                old(self).stream().len(),
            ),
    {
        let buf = self.read_exact(4)?;
        Ok(read_i32_le(buf.as_slice()))
    }

    /// Reads a flag: one byte, zero for false and anything else for true.
    fn read_bool(&mut self) -> (r: Result<bool, Error>)
        ensures
            final(self).stream() == old(self).stream(),
            read_yields(
                r,
                final(self).offset(),
                fixed(
                    old(self).stream(),
                    old(self).offset(),
                    1,
                    bool_at(old(self).stream(), old(self).offset()),
                ),
                old(self).stream().len(),
            ),
    {
        let b = self.read_u8()?;
        Ok(b != 0)
    }

    /// Reads the four bytes of a single.
    fn read_f32(&mut self) -> (r: Result<Float32, Error>)
        ensures
            final(self).stream() == old(self).stream(),
            read_yields(
                r,
                final(self).offset(),
                fixed(
                    old(self).stream(),
                    old(self).offset(),
                    4,
                    f32_at(old(self).stream(), old(self).offset()),
                ),
                old(self).stream().len(),
            ),
    {
        let bits = self.read_u32()?;
        Ok(Float32::from_bits(bits))
    }

    /// Reads the eight bytes of a double.
    fn read_f64(&mut self) -> (r: Result<Float64, Error>)
        ensures
            final(self).stream() == old(self).stream(),
            read_yields(
                r,
                final(self).offset(),
                fixed(
                    old(self).stream(),
                    old(self).offset(),
                    8,
                    f64_at(old(self).stream(), old(self).offset()),
                ),
                old(self).stream().len(),
            ),
    {
        let buf = self.read_exact(8)?;
        Ok(Float64::from_bits(read_u64_le(buf.as_slice())))
    }

    /// Reads a null-terminated text.
    fn read_cstring(&mut self) -> (r: Result<String, Error>)
        ensures
            final(self).stream() == old(self).stream(),
            text_yields(
                r,
                final(self).offset(),
                cstring_at(old(self).stream(), old(self).offset()),
                old(self).stream().len(),
            ),
    {
        let buf = self.read_until_nul()?;
        Ok(decode_lossy(buf.as_slice()))
    }

    /// Reads a text of `n` bytes. A zero byte at its end is dropped.
    fn read_string(&mut self, n: u64) -> (r: Result<String, Error>)
        ensures
            final(self).stream() == old(self).stream(),
            text_yields(
                r,
                final(self).offset(),
                string_at(old(self).stream(), old(self).offset(), n as nat),
                old(self).stream().len(),
            ),
    {
        let mut buf = self.read_exact(n)?;
        let len = buf.len();
        if len > 0 && buf[len - 1] == 0 {
            let _ = buf.pop();
        }
        Ok(decode_lossy(buf.as_slice()))
    }

    /// Reads a text after its length in one byte.
    fn read_string_u8(&mut self) -> (r: Result<String, Error>)
        ensures
            final(self).stream() == old(self).stream(),
            text_yields(
                r,
                final(self).offset(),
                string_u8_at(old(self).stream(), old(self).offset()),
                old(self).stream().len(),
            ),
    {
        let length = self.read_u8()?;
        self.read_string(length as u64)
    }

    /// Reads a text after its length in two bytes.
    fn read_string_u16(&mut self) -> (r: Result<String, Error>)
        ensures
            final(self).stream() == old(self).stream(),
            text_yields(
                r,
                final(self).offset(),
                string_u16_at(old(self).stream(), old(self).offset()),
                old(self).stream().len(),
            ),
    {
        let length = self.read_u16()?;
        self.read_string(length as u64)
    }

    /// Reads a text after its length in four bytes.
    fn read_string_u32(&mut self) -> (r: Result<String, Error>)
        ensures
            final(self).stream() == old(self).stream(),
            text_yields(
                r,
                final(self).offset(),
                string_u32_at(old(self).stream(), old(self).offset()),
                old(self).stream().len(),
            ),
    {
        let length = self.read_u32()?;
        self.read_string(length as u64)
    }

    /// Reads a colour: red, green, blue, alpha.
    fn read_color4(&mut self) -> (r: Result<Color4, Error>)
        ensures
            final(self).stream() == old(self).stream(),
            read_yields(
                r,
                final(self).offset(),
                fixed(
                    old(self).stream(),
                    old(self).offset(),
                    16,
                    color4_at(old(self).stream(), old(self).offset()),
                ),
                old(self).stream().len(),
            ),
    {
        let r = self.read_f32()?;
        let g = self.read_f32()?;
        let b = self.read_f32()?;
        let a = self.read_f32()?;
        Ok(Color4 { r, g, b, a })
    }

    fn read_vector2_f32(&mut self) -> (r: Result<Vector2<Float32>, Error>)
        ensures
            final(self).stream() == old(self).stream(),
            read_yields(
                r,
                final(self).offset(),
                fixed(
                    old(self).stream(),
                    old(self).offset(),
                    8,
                    vector2_f32_at(old(self).stream(), old(self).offset()),
                ),
                old(self).stream().len(),
            ),
    {
        let x = self.read_f32()?;
        let y = self.read_f32()?;
        Ok(Vector2 { x, y })
    }

    fn read_vector3_f32(&mut self) -> (r: Result<Vector3<Float32>, Error>)
        ensures
            final(self).stream() == old(self).stream(),
            read_yields(
                r,
                final(self).offset(),
                fixed(
                    old(self).stream(),
                    old(self).offset(),
                    12,
                    vector3_f32_at(old(self).stream(), old(self).offset()),
                ),
                old(self).stream().len(),
            ),
    {
        let x = self.read_f32()?;
        let y = self.read_f32()?;
        let z = self.read_f32()?;
        Ok(Vector3 { x, y, z })
    }

    fn read_vector3_i16(&mut self) -> (r: Result<Vector3<i16>, Error>)
        ensures
            final(self).stream() == old(self).stream(),
            read_yields(
                r,
                final(self).offset(),
                fixed(
                    old(self).stream(),
                    old(self).offset(),
                    6,
                    vector3_i16_at(old(self).stream(), old(self).offset()),
                ),
                old(self).stream().len(),
            ),
    {
        let x = self.read_i16()?;
        let y = self.read_i16()?;
        let z = self.read_i16()?;
        Ok(Vector3 { x, y, z })
    }

    /// Reads four singles, `w` first.
    fn read_vector4_f32(&mut self) -> (r: Result<Vector4<Float32>, Error>)
        ensures
            final(self).stream() == old(self).stream(),
            read_yields(
                r,
                final(self).offset(),
                fixed(
                    old(self).stream(),
                    old(self).offset(),
                    16,
                    vector4_f32_at(old(self).stream(), old(self).offset()),
                ),
                old(self).stream().len(),
            ),
    {
        let w = self.read_f32()?;
        let x = self.read_f32()?;
        let y = self.read_f32()?;
        let z = self.read_f32()?;
        Ok(Vector4 { w, x, y, z })
    }

    /// Reads four 16-bit integers, `w` first.
    fn read_vector4_i16(&mut self) -> (r: Result<Vector4<i16>, Error>)
        ensures
            final(self).stream() == old(self).stream(),
            read_yields(
                r,
                final(self).offset(),
                fixed(
                    old(self).stream(),
                    old(self).offset(),
                    8,
                    vector4_i16_at(old(self).stream(), old(self).offset()),
                ),
                old(self).stream().len(),
            ),
    {
        let w = self.read_i16()?;
        let x = self.read_i16()?;
        let y = self.read_i16()?;
        let z = self.read_i16()?;
        Ok(Vector4 { w, x, y, z })
    }
}

impl ReadRoseExt for ByteCursor {
    fn read_exact(&mut self, n: u64) -> (r: Result<Vec<u8>, Error>) {
        match self.take(n) {
            Some(buf) => Ok(buf),
            None => Err(Error::UnexpectedEof),
        }
    }

    fn read_until_nul(&mut self) -> (r: Result<Vec<u8>, Error>) {
        match self.take_until_nul() {
            Some(buf) => Ok(buf),
            None => Err(Error::UnexpectedEof),
        }
    }
}

} // verus!

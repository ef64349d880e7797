//! Plain value records shared by the formats.

use vstd::prelude::*;

verus! {

/// An IEEE 754 single, held by its bit pattern.
///
/// The codecs move such numbers without ever computing with them, so the
/// pattern is all they need; `from_bits` and `to_bits` of the primitive type
/// convert at the edge.
#[derive(Clone, Copy, Debug, PartialEq, Eq, Structural)]
pub struct Float32 {
    pub bits: u32,
}

/// An IEEE 754 double, held by its bit pattern.
#[derive(Clone, Copy, Debug, PartialEq, Eq, Structural)]
pub struct Float64 {
    pub bits: u64,
}

impl Float32 {
    /// The pattern of a quiet NaN, as the primitive type's `NAN` constant has it.
    pub const NAN_BITS: u32 = 0x7fc0_0000;

    /// Positive zero.
    pub open spec fn zero() -> Float32 {
        Float32 { bits: 0 }
    }

    /// Positive zero.
    pub fn new() -> (r: Float32)
        ensures
            r == Float32::zero(),
    {
        Float32 { bits: 0 }
    }

    pub fn from_bits(bits: u32) -> (r: Float32)
        ensures
            r.bits == bits,
    {
        Float32 { bits }
    }

    pub fn to_bits(&self) -> (r: u32)
        ensures
            r == self.bits,
    {
        self.bits
    }

    /// The pattern without its sign bit: exponent and fraction.
    pub open spec fn magnitude(self) -> int {
        if self.bits < 0x8000_0000 {
            self.bits as int
        } else {
            self.bits - 0x8000_0000
        }
    }

    /// The number is not a number: its exponent is all ones and its
    /// fraction is not zero.
    pub open spec fn spec_is_nan(self) -> bool {
        self.magnitude() > 0x7f80_0000
    }

    /// The place of the number on the number line, for a number that is one:
    /// numbers that are not NaN compare as these places do. Both zeros have
    /// the place 0.
    pub open spec fn place(self) -> int {
        if self.bits < 0x8000_0000 {
            self.magnitude()
        } else {
            -self.magnitude()
        }
    }

    /// `self < other`, as the primitive type compares: false where either
    /// is NaN.
    pub open spec fn spec_lt(self, other: Float32) -> bool {
        !self.spec_is_nan() && !other.spec_is_nan() && self.place() < other.place()
    }

    /// Whether the number is NaN.
    #[verifier::when_used_as_spec(spec_is_nan)]
    pub fn is_nan(self) -> (b: bool)
        ensures
            b == self.spec_is_nan(),
    {
        let magnitude = if self.bits < 0x8000_0000 {
            self.bits
        } else {
            self.bits - 0x8000_0000
        };
        magnitude > 0x7f80_0000
    }

    /// Whether `self < other`, as the primitive type compares.
    #[verifier::when_used_as_spec(spec_lt)]
    pub fn lt(self, other: Float32) -> (b: bool)
        ensures
            b == self.spec_lt(other),
    {
        if self.is_nan() || other.is_nan() {
            return false;
        }
        let a: i64 = if self.bits < 0x8000_0000 {
            self.bits as i64
        } else {
            -((self.bits - 0x8000_0000) as i64)
        };
        let b: i64 = if other.bits < 0x8000_0000 {
            other.bits as i64
        } else {
            -((other.bits - 0x8000_0000) as i64)
        };
        a < b
    }

    /// Not a number.
    pub open spec fn nan() -> Float32 {
        Float32 { bits: 0x7fc0_0000 }
    }
}

impl Float64 {
    /// Positive zero.
    pub open spec fn zero() -> Float64 {
        Float64 { bits: 0 }
    }

    /// Positive zero.
    pub fn new() -> (r: Float64)
        ensures
            r == Float64::zero(),
    {
        Float64 { bits: 0 }
    }

    pub fn from_bits(bits: u64) -> (r: Float64)
        ensures
            r.bits == bits,
    {
        Float64 { bits }
    }

    pub fn to_bits(&self) -> (r: u64)
        ensures
            r == self.bits,
    {
        self.bits
    }
}

/// Two components, in wire order `x`, `y`.
#[derive(Clone, Copy, Debug, PartialEq, Eq)]
pub struct Vector2<T> {
    pub x: T,
    pub y: T,
}

/// Three components, in wire order `x`, `y`, `z`.
#[derive(Clone, Copy, Debug, PartialEq, Eq)]
pub struct Vector3<T> {
    pub x: T,
    pub y: T,
    pub z: T,
}

/// Four components, in wire order `w`, `x`, `y`, `z`.
#[derive(Clone, Copy, Debug, PartialEq, Eq)]
pub struct Vector4<T> {
    pub w: T,
    pub x: T,
    pub y: T,
    pub z: T,
}

/// A colour, in wire order `r`, `g`, `b`, `a`.
#[derive(Clone, Copy, Debug, PartialEq, Eq)]
pub struct Color4 {
    pub r: Float32,
    pub g: Float32,
    pub b: Float32,
    pub a: Float32,
}

/// The two corners of an axis-aligned box.
#[derive(Clone, Copy, Debug, PartialEq, Eq)]
pub struct BoundingBox<T> {
    pub min: Vector3<T>,
    pub max: Vector3<T>,
}

impl Vector2<Float32> {
    pub open spec fn zero() -> Self {
        Vector2 { x: Float32::zero(), y: Float32::zero() }
    }

    /// All components zero.
    pub fn new() -> (r: Self)
        ensures
            r == Self::zero(),
    {
        Vector2 { x: Float32::new(), y: Float32::new() }
    }
}

impl Vector3<Float32> {
    pub open spec fn zero() -> Self {
        Vector3 { x: Float32::zero(), y: Float32::zero(), z: Float32::zero() }
    }

    /// All components zero.
    pub fn new() -> (r: Self)
        ensures
            r == Self::zero(),
    {
        Vector3 { x: Float32::new(), y: Float32::new(), z: Float32::new() }
    }
}

impl Vector3<i16> {
    pub open spec fn zero() -> Self {
        Vector3 { x: 0, y: 0, z: 0 }
    }

    /// All components zero.
    pub fn new() -> (r: Self)
        ensures
            r == Self::zero(),
    {
        Vector3 { x: 0, y: 0, z: 0 }
    }
}

impl Vector4<Float32> {
    pub open spec fn zero() -> Self {
        Vector4 { w: Float32::zero(), x: Float32::zero(), y: Float32::zero(), z: Float32::zero() }
    }

    /// All components zero.
    pub fn new() -> (r: Self)
        ensures
            r == Self::zero(),
    {
        Vector4 { w: Float32::new(), x: Float32::new(), y: Float32::new(), z: Float32::new() }
    }
}

impl Vector4<i16> {
    pub open spec fn zero() -> Self {
        Vector4 { w: 0, x: 0, y: 0, z: 0 }
    }

    /// All components zero.
    pub fn new() -> (r: Self)
        ensures
            r == Self::zero(),
    {
        Vector4 { w: 0, x: 0, y: 0, z: 0 }
    }
}

impl Color4 {
    pub open spec fn zero() -> Self {
        Color4 { r: Float32::zero(), g: Float32::zero(), b: Float32::zero(), a: Float32::zero() }
    }

    /// All channels zero.
    pub fn new() -> (r: Self)
        ensures
            r == Self::zero(),
    {
        Color4 { r: Float32::new(), g: Float32::new(), b: Float32::new(), a: Float32::new() }
    }
}

impl BoundingBox<Float32> {
    pub open spec fn zero() -> Self {
        BoundingBox { min: Vector3::<Float32>::zero(), max: Vector3::<Float32>::zero() }
    }

    /// Both corners at the origin.
    pub fn new() -> (r: Self)
        ensures
            r == Self::zero(),
    {
        BoundingBox { min: Vector3::<Float32>::new(), max: Vector3::<Float32>::new() }
    }
}

} // verus!

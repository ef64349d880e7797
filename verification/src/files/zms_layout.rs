//! The layout of a model on the wire.
//!
//! A model is an identifier, a bitmask that says which attributes its
//! vertices carry, a bounding box, and five runs of items, each after a
//! signed 16-bit count. The vertices are stored by column: first the
//! positions of all of them, then the normals of all of them, and so on for
//! every attribute that the bitmask enables. Newer files end with a pool
//! tag.

use crate::errors::Error;
use crate::io::runs::joined;
use crate::io::wire::{
    color4_at, color4_bytes, cstring_at, cstring_bytes, fits, fixed, i16_at, i16_bytes, i32_at,
    i32_bytes, vector2_f32_at, vector2_f32_bytes, vector3_f32_at, vector3_f32_bytes, vector3_i16_at,
    vector3_i16_bytes, vector4_f32_at, vector4_f32_bytes, vector4_i16_at, vector4_i16_bytes,
};
use crate::utils::{BoundingBox, Color4, Float32, Vector2, Vector3, Vector4};
use vstd::prelude::*;

verus! {

/// One bit of the format bitmask.
#[derive(Clone, Copy, Debug, PartialEq, Eq, Structural)]
pub enum VertFormat {
    Position,
    Normal,
    Color,
    BoneWeight,
    BoneIndex,
    Tangent,
    UV1,
    UV2,
    UV3,
    UV4,
}

impl VertFormat {
    /// The bit that stands for this attribute: bit 1 for the position, and
    /// one bit higher for each attribute after it.
    pub open spec fn spec_mask(self) -> i32 {
        match self {
            VertFormat::Position => 0x0002,
            VertFormat::Normal => 0x0004,
            VertFormat::Color => 0x0008,
            VertFormat::BoneWeight => 0x0010,
            VertFormat::BoneIndex => 0x0020,
            VertFormat::Tangent => 0x0040,
            VertFormat::UV1 => 0x0080,
            VertFormat::UV2 => 0x0100,
            VertFormat::UV3 => 0x0200,
            VertFormat::UV4 => 0x0400,
        }
    }

    /// The bit that stands for this attribute.
    #[verifier::when_used_as_spec(spec_mask)]
    pub fn mask(self) -> (m: i32)
        ensures
            m == self.spec_mask(),
    {
        match self {
            VertFormat::Position => 0x0002,
            VertFormat::Normal => 0x0004,
            VertFormat::Color => 0x0008,
            VertFormat::BoneWeight => 0x0010,
            VertFormat::BoneIndex => 0x0020,
            VertFormat::Tangent => 0x0040,
            VertFormat::UV1 => 0x0080,
            VertFormat::UV2 => 0x0100,
            VertFormat::UV3 => 0x0200,
            VertFormat::UV4 => 0x0400,
        }
    }

    /// The bitmask `format` has this bit set.
    pub open spec fn spec_is_set(self, format: i32) -> bool {
        format & self.spec_mask() != 0
    }

    /// The bitmask `format` has this bit set.
    #[verifier::when_used_as_spec(spec_is_set)]
    pub fn is_set(self, format: i32) -> (b: bool)
        ensures
            b == self.spec_is_set(format),
    {
        format & self.mask() != 0
    }
}

/// One vertex with all the attributes a model can carry. An attribute that
/// the model does not carry is zero.
#[derive(Clone, Copy, Debug, PartialEq, Eq)]
pub struct ModelVertex {
    pub position: Vector3<Float32>,
    pub normal: Vector3<Float32>,
    pub color: Color4,
    pub bone_weights: Vector4<Float32>,
    pub bone_indices: Vector4<i16>,
    pub tangent: Vector3<Float32>,
    pub uv1: Vector2<Float32>,
    pub uv2: Vector2<Float32>,
    pub uv3: Vector2<Float32>,
    pub uv4: Vector2<Float32>,
}

impl ModelVertex {
    /// The vertex with every attribute zero.
    pub open spec fn zero() -> ModelVertex {
        ModelVertex {
            position: Vector3::<Float32>::zero(),
            normal: Vector3::<Float32>::zero(),
            color: Color4::zero(),
            bone_weights: Vector4::<Float32>::zero(),
            bone_indices: Vector4::<i16>::zero(),
            tangent: Vector3::<Float32>::zero(),
            uv1: Vector2::<Float32>::zero(),
            uv2: Vector2::<Float32>::zero(),
            uv3: Vector2::<Float32>::zero(),
            uv4: Vector2::<Float32>::zero(),
        }
    }

    /// The vertex with every attribute zero.
    pub fn new() -> (v: ModelVertex)
        ensures
            v == ModelVertex::zero(),
    {
        ModelVertex {
            position: Vector3::<Float32>::new(),
            normal: Vector3::<Float32>::new(),
            color: Color4::new(),
            bone_weights: Vector4::<Float32>::new(),
            bone_indices: Vector4::<i16>::new(),
            tangent: Vector3::<Float32>::new(),
            uv1: Vector2::<Float32>::new(),
            uv2: Vector2::<Float32>::new(),
            uv3: Vector2::<Float32>::new(),
            uv4: Vector2::<Float32>::new(),
        }
    }
}

/// One column of the vertex block, in the order of the wire. The bone
/// weights and the bone indices of a vertex stand together in one column.
#[derive(Clone, Copy, Debug, PartialEq, Eq, Structural)]
pub enum Column {
    Position,
    Normal,
    Color,
    Bones,
    Tangent,
    Uv1,
    Uv2,
    Uv3,
    Uv4,
}

impl Column {
    /// Whether a model with the bitmask `format` carries this column. The
    /// bone column needs both of its bits.
    pub open spec fn spec_enabled(self, format: i32) -> bool {
        match self {
            Column::Position => VertFormat::Position.spec_is_set(format),
            Column::Normal => VertFormat::Normal.spec_is_set(format),
            Column::Color => VertFormat::Color.spec_is_set(format),
            Column::Bones => VertFormat::BoneWeight.spec_is_set(format)
                && VertFormat::BoneIndex.spec_is_set(format),
            Column::Tangent => VertFormat::Tangent.spec_is_set(format),
            Column::Uv1 => VertFormat::UV1.spec_is_set(format),
            Column::Uv2 => VertFormat::UV2.spec_is_set(format),
            Column::Uv3 => VertFormat::UV3.spec_is_set(format),
            Column::Uv4 => VertFormat::UV4.spec_is_set(format),
        }
    }

    /// Whether a model with the bitmask `format` carries this column.
    #[verifier::when_used_as_spec(spec_enabled)]
    pub fn enabled(self, format: i32) -> (b: bool)
        ensures
            b == self.spec_enabled(format),
    {
        match self {
            Column::Position => VertFormat::Position.is_set(format),
            Column::Normal => VertFormat::Normal.is_set(format),
            Column::Color => VertFormat::Color.is_set(format),
            Column::Bones => VertFormat::BoneWeight.is_set(format) && VertFormat::BoneIndex.is_set(
                format,
            ),
            Column::Tangent => VertFormat::Tangent.is_set(format),
            Column::Uv1 => VertFormat::UV1.is_set(format),
            Column::Uv2 => VertFormat::UV2.is_set(format),
            Column::Uv3 => VertFormat::UV3.is_set(format),
            Column::Uv4 => VertFormat::UV4.is_set(format),
        }
    }

    /// The bytes that one vertex takes in this column.
    pub open spec fn width(self) -> nat {
        match self {
            Column::Position => 12,
            Column::Normal => 12,
            Column::Color => 16,
            Column::Bones => 24,
            Column::Tangent => 12,
            Column::Uv1 => 8,
            Column::Uv2 => 8,
            Column::Uv3 => 8,
            Column::Uv4 => 8,
        }
    }

    /// The vertex `v` with the attribute of this column taken from the bytes
    /// at `pos`.
    pub open spec fn cell_at(self, s: Seq<u8>, pos: nat, v: ModelVertex) -> ModelVertex {
        match self {
            Column::Position => ModelVertex { position: vector3_f32_at(s, pos), ..v },
            Column::Normal => ModelVertex { normal: vector3_f32_at(s, pos), ..v },
            Column::Color => ModelVertex { color: color4_at(s, pos), ..v },
            Column::Bones => ModelVertex {
                bone_weights: vector4_f32_at(s, pos),
                bone_indices: vector4_i16_at(s, pos + 16),
                ..v
            },
            Column::Tangent => ModelVertex { tangent: vector3_f32_at(s, pos), ..v },
            Column::Uv1 => ModelVertex { uv1: vector2_f32_at(s, pos), ..v },
            Column::Uv2 => ModelVertex { uv2: vector2_f32_at(s, pos), ..v },
            Column::Uv3 => ModelVertex { uv3: vector2_f32_at(s, pos), ..v },
            Column::Uv4 => ModelVertex { uv4: vector2_f32_at(s, pos), ..v },
        }
    }

    /// The bytes of the vertex `v` in this column.
    pub open spec fn cell_bytes(self, v: ModelVertex) -> Seq<u8> {
        match self {
            Column::Position => vector3_f32_bytes(v.position),
            Column::Normal => vector3_f32_bytes(v.normal),
            Column::Color => color4_bytes(v.color),
            Column::Bones => vector4_f32_bytes(v.bone_weights) + vector4_i16_bytes(v.bone_indices),
            Column::Tangent => vector3_f32_bytes(v.tangent),
            Column::Uv1 => vector2_f32_bytes(v.uv1),
            Column::Uv2 => vector2_f32_bytes(v.uv2),
            Column::Uv3 => vector2_f32_bytes(v.uv3),
            Column::Uv4 => vector2_f32_bytes(v.uv4),
        }
    }

    /// The bytes that `n` vertices take in this column.
    pub open spec fn run(self, n: nat) -> nat {
        match self {
            Column::Position => 12 * n,
            Column::Normal => 12 * n,
            Column::Color => 16 * n,
            Column::Bones => 24 * n,
            Column::Tangent => 12 * n,
            Column::Uv1 => 8 * n,
            Column::Uv2 => 8 * n,
            Column::Uv3 => 8 * n,
            Column::Uv4 => 8 * n,
        }
    }

    /// The bytes that this column takes in the block of `n` vertices of a
    /// model with the bitmask `format`: nothing where it is not carried.
    pub open spec fn span(self, format: i32, n: nat) -> nat {
        if self.spec_enabled(format) {
            self.run(n)
        } else {
            0
        }
    }

    /// Where this column starts in the block of `n` vertices, counted from
    /// the start of the block: after all the columns before it.
    pub open spec fn start(self, format: i32, n: nat) -> nat {
        let position = Column::Position.span(format, n);
        let normal = Column::Normal.span(format, n);
        let color = Column::Color.span(format, n);
        let bones = Column::Bones.span(format, n);
        let tangent = Column::Tangent.span(format, n);
        let uv1 = Column::Uv1.span(format, n);
        let uv2 = Column::Uv2.span(format, n);
        let uv3 = Column::Uv3.span(format, n);
        match self {
            Column::Position => 0,
            Column::Normal => position,
            Column::Color => position + normal,
            Column::Bones => position + normal + color,
            Column::Tangent => position + normal + color + bones,
            Column::Uv1 => position + normal + color + bones + tangent,
            Column::Uv2 => position + normal + color + bones + tangent + uv1,
            Column::Uv3 => position + normal + color + bones + tangent + uv1 + uv2,
            Column::Uv4 => position + normal + color + bones + tangent + uv1 + uv2 + uv3,
        }
    }

    /// The vertex `v` with the attribute of this column, where the model
    /// carries it, taken from the block of `n` vertices at `base`, of which
    /// `v` is vertex `k`.
    #[verifier::opaque]
    pub open spec fn filled(
        self,
        s: Seq<u8>,
        base: nat,
        format: i32,
        n: nat,
        k: nat,
        v: ModelVertex,
    ) -> ModelVertex {
        if self.spec_enabled(format) {
            self.cell_at(s, base + self.start(format, n) + self.run(k), v)
        } else {
            v
        }
    }
}

/// The bytes that the block of `n` vertices takes in a model with the
/// bitmask `format`: the sum of the columns that the model carries.
pub open spec fn block_len(format: i32, n: nat) -> nat {
    Column::Uv4.start(format, n) + Column::Uv4.span(format, n)
}

/// Vertex `k` of the block of `n` vertices at `base`: every attribute that
/// the model carries is read from its column, and every other is zero.
pub open spec fn vertex_at(s: Seq<u8>, base: nat, format: i32, n: nat, k: nat) -> ModelVertex {
    let v0 = ModelVertex::zero();
    let v1 = Column::Position.filled(s, base, format, n, k, v0);
    let v2 = Column::Normal.filled(s, base, format, n, k, v1);
    let v3 = Column::Color.filled(s, base, format, n, k, v2);
    let v4 = Column::Bones.filled(s, base, format, n, k, v3);
    let v5 = Column::Tangent.filled(s, base, format, n, k, v4);
    let v6 = Column::Uv1.filled(s, base, format, n, k, v5);
    let v7 = Column::Uv2.filled(s, base, format, n, k, v6);
    let v8 = Column::Uv3.filled(s, base, format, n, k, v7);
    Column::Uv4.filled(s, base, format, n, k, v8)
}

/// The block of `n` vertices at `base`.
pub open spec fn vertices_at(s: Seq<u8>, base: nat, format: i32, n: nat) -> Seq<ModelVertex> {
    Seq::new(n, |k: int| vertex_at(s, base, format, n, k as nat))
}

/// The count that stands at `pos`: a signed 16-bit integer, of which a
/// negative value counts as none.
pub open spec fn count_at(s: Seq<u8>, pos: nat) -> nat {
    let c = i16_at(s, pos);
    if c > 0 {
        c as nat
    } else {
        0
    }
}

/// `n` 16-bit integers from `pos` on.
pub open spec fn i16_run_at(s: Seq<u8>, pos: nat, n: nat) -> Seq<i16> {
    Seq::new(n, |k: int| i16_at(s, (pos + 2 * k) as nat))
}

/// `n` index triples from `pos` on.
pub open spec fn triangle_run_at(s: Seq<u8>, pos: nat, n: nat) -> Seq<Vector3<i16>> {
    Seq::new(n, |k: int| vector3_i16_at(s, (pos + 6 * k) as nat))
}

/// A count at `pos` and that many 16-bit integers after it.
pub open spec fn i16_list_at(s: Seq<u8>, pos: nat) -> Option<(Seq<i16>, nat)> {
    if fits(s, pos, 2) {
        let n = count_at(s, pos);
        fixed(s, pos + 2, 2 * n, i16_run_at(s, pos + 2, n))
    } else {
        None
    }
}

/// A count at `pos` and that many index triples after it.
pub open spec fn triangle_list_at(s: Seq<u8>, pos: nat) -> Option<(Seq<Vector3<i16>>, nat)> {
    if fits(s, pos, 2) {
        let n = count_at(s, pos);
        fixed(s, pos + 2, 6 * n, triangle_run_at(s, pos + 2, n))
    } else {
        None
    }
}

/// A count at `pos` and the block of that many vertices after it.
pub open spec fn vertex_list_at(s: Seq<u8>, pos: nat, format: i32) -> Option<
    (Seq<ModelVertex>, nat),
> {
    if fits(s, pos, 2) {
        let n = count_at(s, pos);
        fixed(s, pos + 2, block_len(format, n), vertices_at(s, pos + 2, format, n))
    } else {
        None
    }
}

/// A model as the contracts see it.
#[verifier::ext_equal]
pub struct ModelData {
    pub identifier: Seq<char>,
    pub format: i32,
    pub bounding_box: BoundingBox<Float32>,
    pub bones: Seq<i16>,
    pub vertices: Seq<ModelVertex>,
    pub indices: Seq<Vector3<i16>>,
    pub materials: Seq<i16>,
    pub strips: Seq<i16>,
    pub pool: i16,
}

/// The version that an identifier stands for, where it is a known one.
pub open spec fn version_of(identifier: Seq<char>) -> Option<nat> {
    if identifier == "ZMS0007"@ {
        Some(7nat)
    } else if identifier == "ZMS0008"@ {
        Some(8nat)
    } else {
        None
    }
}

/// The pool tag at `pos`: present from version 8 on, and zero, with nothing
/// consumed, before.
pub open spec fn pool_at(s: Seq<u8>, pos: nat, version: nat) -> Option<(i16, nat)> {
    if version >= 8 {
        fixed(s, pos, 2, i16_at(s, pos))
    } else {
        Some((0i16, pos))
    }
}

/// All of a model after its identifier.
#[verifier::opaque]
pub open spec fn body_at(s: Seq<u8>, pos: nat, identifier: Seq<char>, version: nat) -> Option<
    (ModelData, nat),
> {
    if !fits(s, pos, 28) {
        None
    } else {
        let format = i32_at(s, pos);
        let bounding_box = BoundingBox {
            min: vector3_f32_at(s, pos + 4),
            max: vector3_f32_at(s, pos + 16),
        };
        match i16_list_at(s, pos + 28) {
            None => None,
            Some((bones, p1)) => match vertex_list_at(s, p1, format) {
                None => None,
                Some((vertices, p2)) => match triangle_list_at(s, p2) {
                    None => None,
                    Some((indices, p3)) => match i16_list_at(s, p3) {
                        None => None,
                        Some((materials, p4)) => match i16_list_at(s, p4) {
                            None => None,
                            Some((strips, p5)) => match pool_at(s, p5, version) {
                                None => None,
                                Some((pool, end)) => Some(
                                    (
                                        ModelData {
                                            identifier,
                                            format,
                                            bounding_box,
                                            bones,
                                            vertices,
                                            indices,
                                            materials,
                                            strips,
                                            pool,
                                        },
                                        end,
                                    ),
                                ),
                            },
                        },
                    },
                },
            },
        }
    }
}

/// The model that stands at `pos`, with the position after it, or the
/// reason why there is none: an identifier that is not known, or a stream
/// that ends too early.
pub open spec fn model_at(s: Seq<u8>, pos: nat) -> Result<(ModelData, nat), Error> {
    match cstring_at(s, pos) {
        None => Err(Error::UnexpectedEof),
        Some((identifier, p)) => match version_of(identifier) {
            None => Err(Error::UnsupportedVersion),
            Some(version) => match body_at(s, p, identifier, version) {
                None => Err(Error::UnexpectedEof),
                Some(found) => Ok(found),
            },
        },
    }
}

/// Where a decode that starts at `pos` leaves the cursor: after the model;
/// after the identifier, where that is not a known one; and at the end of
/// the stream, where the stream ends too early.
pub open spec fn model_stop(s: Seq<u8>, pos: nat) -> nat {
    match model_at(s, pos) {
        Ok((_, end)) => end,
        Err(Error::UnsupportedVersion) => match cstring_at(s, pos) {
            Some((_, next)) => next,
            None => s.len(),
        },
        Err(_) => s.len(),
    }
}

/// The bytes of a run of 16-bit integers.
pub open spec fn i16_run_bytes(xs: Seq<i16>) -> Seq<u8> {
    joined(xs, |x: i16| i16_bytes(x))
}

/// The bytes of a run of index triples.
pub open spec fn triangle_run_bytes(xs: Seq<Vector3<i16>>) -> Seq<u8> {
    joined(xs, |x: Vector3<i16>| vector3_i16_bytes(x))
}

/// The bytes of one column of a run of vertices.
pub open spec fn column_bytes(vs: Seq<ModelVertex>, column: Column) -> Seq<u8> {
    joined(vs, |v: ModelVertex| column.cell_bytes(v))
}

/// The bytes of one column of the block of a model: nothing where the model
/// does not carry it.
pub open spec fn column_part(vs: Seq<ModelVertex>, format: i32, column: Column) -> Seq<u8> {
    if column.spec_enabled(format) {
        column_bytes(vs, column)
    } else {
        Seq::<u8>::empty()
    }
}

/// The bytes of the block of vertices of a model: the columns that it
/// carries, in the order of the wire.
#[verifier::opaque]
pub open spec fn block_bytes(vs: Seq<ModelVertex>, format: i32) -> Seq<u8> {
    column_part(vs, format, Column::Position) + column_part(vs, format, Column::Normal)
        + column_part(vs, format, Column::Color) + column_part(vs, format, Column::Bones)
        + column_part(vs, format, Column::Tangent) + column_part(vs, format, Column::Uv1)
        + column_part(vs, format, Column::Uv2) + column_part(vs, format, Column::Uv3)
        + column_part(vs, format, Column::Uv4)
}

/// A count can be written as a signed 16-bit integer.
pub open spec fn countable(n: nat) -> bool {
    n <= 0x7fff
}

/// A model can be written: each of its runs can be counted.
pub open spec fn model_encodable(m: ModelData) -> bool {
    &&& countable(m.bones.len())
    &&& countable(m.vertices.len())
    &&& countable(m.indices.len())
    &&& countable(m.materials.len())
    &&& countable(m.strips.len())
}

/// The identifier that every model is written with: that of the newest
/// version.
pub open spec fn written_identifier() -> Seq<char> {
    "ZMS0008"@
}

/// The bytes of a run of 16-bit integers after its count.
pub open spec fn i16_list_bytes(xs: Seq<i16>) -> Seq<u8> {
    i16_bytes(xs.len() as i16) + i16_run_bytes(xs)
}

/// The bytes of a run of index triples after its count.
pub open spec fn triangle_list_bytes(xs: Seq<Vector3<i16>>) -> Seq<u8> {
    i16_bytes(xs.len() as i16) + triangle_run_bytes(xs)
}

/// The bytes of the head of a written model: the identifier, the bitmask
/// and the bounding box.
#[verifier::opaque]
pub open spec fn head_bytes(m: ModelData) -> Seq<u8> {
    cstring_bytes(written_identifier()) + i32_bytes(m.format) + vector3_f32_bytes(
        m.bounding_box.min,
    ) + vector3_f32_bytes(m.bounding_box.max)
}

/// The bytes of the runs of a written model, each after its count, and of
/// the pool tag.
#[verifier::opaque]
pub open spec fn runs_bytes(m: ModelData) -> Seq<u8> {
    i16_list_bytes(m.bones) + i16_bytes(m.vertices.len() as i16) + block_bytes(
        m.vertices,
        m.format,
    ) + triangle_list_bytes(m.indices) + i16_list_bytes(m.materials) + i16_list_bytes(m.strips)
        + i16_bytes(m.pool)
}

/// The bytes that a model is written as. The identifier is always that of
/// the newest version, whatever the model holds, and the pool tag is always
/// there.
pub open spec fn model_bytes(m: ModelData) -> Seq<u8> {
    head_bytes(m) + runs_bytes(m)
}

} // verus!

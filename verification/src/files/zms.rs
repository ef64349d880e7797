//! The model container: a mesh with its bones, materials and strips.

use crate::errors::Error;
use crate::files::file::RoseFile;
use crate::files::zms_layout::{
    block_bytes, block_len, body_at, column_part, count_at, head_bytes, i16_list_at, i16_list_bytes,
    i16_run_at, model_at, model_bytes, model_encodable, model_stop, runs_bytes,
    triangle_list_at, triangle_list_bytes, triangle_run_at, version_of, vertex_at,
    vertex_list_at, vertices_at, Column, ModelData,
};
use crate::io::reader::ReadRoseExt;
use crate::io::runs::{joined, lemma_joined_take};
use crate::io::stream::SeekRoseExt;
use crate::io::wire::{
    cstring_bytes, fits, fixed, i16_bytes, i32_bytes, lemma_overwrite_nothing, read_yields,
    run_yields, vector3_f32_bytes, vector3_i16_bytes, vector4_f32_bytes, vector4_i16_bytes, wrote,
};
use crate::io::writer::{lemma_wrote_twice, WriteRoseExt};
use crate::utils::{BoundingBox, Float32, Vector3};
use vstd::prelude::*;

pub use crate::files::zms_layout::ModelVertex;
pub use crate::files::zms_layout::VertFormat;

verus! {

/// The model container, by the name of its files.
pub type ZMS = ModelFile;

/// A model, as the container holds it.
#[derive(Debug, PartialEq)]
pub struct ModelFile {
    /// The identifier the model was read with. It names the version.
    pub identifier: String,
    /// The bitmask that says which attributes the vertices carry.
    pub format: i32,
    pub bounding_box: BoundingBox<Float32>,
    pub bones: Vec<i16>,
    pub vertices: Vec<ModelVertex>,
    pub indices: Vec<Vector3<i16>>,
    pub materials: Vec<i16>,
    pub strips: Vec<i16>,
    /// The pool of the vertex buffer: static, dynamic or system.
    pub pool: i16,
}

impl View for ModelFile {
    type V = ModelData;

    open spec fn view(&self) -> ModelData {
        ModelData {
            identifier: self.identifier@,
            format: self.format,
            bounding_box: self.bounding_box,
            bones: self.bones@,
            vertices: self.vertices@,
            indices: self.indices@,
            materials: self.materials@,
            strips: self.strips@,
            pool: self.pool,
        }
    }
}

impl ModelFile {
    /// Whether the vertices carry a position.
    pub fn positions_enabled(&self) -> (b: bool)
        ensures
            b == Column::Position.spec_enabled(self.format),
    {
        Column::Position.enabled(self.format)
    }

    /// Whether the vertices carry a normal.
    pub fn normals_enabled(&self) -> (b: bool)
        ensures
            b == Column::Normal.spec_enabled(self.format),
    {
        Column::Normal.enabled(self.format)
    }

    /// Whether the vertices carry a colour.
    pub fn colors_enabled(&self) -> (b: bool)
        ensures
            b == Column::Color.spec_enabled(self.format),
    {
        Column::Color.enabled(self.format)
    }

    /// Whether the vertices carry bone weights and bone indices: both bits
    /// have to be set.
    pub fn bones_enabled(&self) -> (b: bool)
        ensures
            b == Column::Bones.spec_enabled(self.format),
            b == (VertFormat::BoneWeight.spec_is_set(self.format)
                && VertFormat::BoneIndex.spec_is_set(self.format)),
    {
        Column::Bones.enabled(self.format)
    }

    /// Whether the vertices carry a tangent.
    pub fn tangents_enabled(&self) -> (b: bool)
        ensures
            b == Column::Tangent.spec_enabled(self.format),
    {
        Column::Tangent.enabled(self.format)
    }

    /// Whether the vertices carry the first texture coordinate.
    pub fn uv1_enabled(&self) -> (b: bool)
        ensures
            b == Column::Uv1.spec_enabled(self.format),
    {
        Column::Uv1.enabled(self.format)
    }

    /// Whether the vertices carry the second texture coordinate.
    pub fn uv2_enabled(&self) -> (b: bool)
        ensures
            b == Column::Uv2.spec_enabled(self.format),
    {
        Column::Uv2.enabled(self.format)
    }

    /// Whether the vertices carry the third texture coordinate.
    pub fn uv3_enabled(&self) -> (b: bool)
        ensures
            b == Column::Uv3.spec_enabled(self.format),
    {
        Column::Uv3.enabled(self.format)
    }

    /// Whether the vertices carry the fourth texture coordinate.
    pub fn uv4_enabled(&self) -> (b: bool)
        ensures
            b == Column::Uv4.spec_enabled(self.format),
    {
        Column::Uv4.enabled(self.format)
    }
}

/// The version that an identifier names, where it is a known one: 7 for
/// "ZMS0007" and 8 for "ZMS0008".
pub fn version_number(identifier: &str) -> (v: Option<u8>)
    ensures
        match version_of(identifier@) {
            Some(n) => v == Some(n as u8),
            None => v is None,
        },
{
    let identifier = identifier.to_owned();
    let seven = "ZMS0007".to_owned();
    let eight = "ZMS0008".to_owned();
    if identifier == seven {
        Some(7)
    } else if identifier == eight {
        Some(8)
    } else {
        None
    }
}

/// Reads a count: a signed 16-bit integer, of which a negative value counts
/// as none.
fn read_count<R: ReadRoseExt>(reader: &mut R) -> (r: Result<usize, Error>)
    ensures
        final(reader).stream() == old(reader).stream(),
        read_yields(
            r,
            final(reader).offset(),
            fixed(
                old(reader).stream(),
                old(reader).offset(),
                2,
                count_at(old(reader).stream(), old(reader).offset()) as usize,
            ),
            old(reader).stream().len(),
        ),
{
    let count = reader.read_i16()?;
    if count > 0 {
        Ok(count as usize)
    } else {
        Ok(0)
    }
}

/// Reads a count and that many 16-bit integers.
fn read_i16_list<R: ReadRoseExt>(reader: &mut R) -> (r: Result<Vec<i16>, Error>)
    ensures
        final(reader).stream() == old(reader).stream(),
        run_yields(
            r,
            final(reader).offset(),
            i16_list_at(old(reader).stream(), old(reader).offset()),
            old(reader).stream().len(),
        ),
{
    let n = read_count(reader)?;
    let ghost s = reader.stream();
    let ghost base = reader.offset();
    let mut items: Vec<i16> = Vec::new();
    let mut i: usize = 0;
    while i < n
        invariant
            reader.stream() == s,
            s == old(reader).stream(),
            fits(s, old(reader).offset(), 2),
            base == old(reader).offset() + 2,
            n == count_at(s, old(reader).offset()),
            i <= n,
            reader.offset() == base + 2 * i,
            fits(s, base, (2 * i) as nat),
            items@ == i16_run_at(s, base, i as nat),
        decreases n - i,
    {
        let item = reader.read_i16()?;
        items.push(item);
        i += 1;
        proof {
            assert(items@ =~= i16_run_at(s, base, i as nat));
        }
    }
    Ok(items)
}

/// Reads a count and that many index triples.
fn read_triangle_list<R: ReadRoseExt>(reader: &mut R) -> (r: Result<Vec<Vector3<i16>>, Error>)
    ensures
        final(reader).stream() == old(reader).stream(),
        run_yields(
            r,
            final(reader).offset(),
            triangle_list_at(old(reader).stream(), old(reader).offset()),
            old(reader).stream().len(),
        ),
{
    let n = read_count(reader)?;
    let ghost s = reader.stream();
    let ghost base = reader.offset();
    let mut items: Vec<Vector3<i16>> = Vec::new();
    let mut i: usize = 0;
    while i < n
        invariant
            reader.stream() == s,
            s == old(reader).stream(),
            fits(s, old(reader).offset(), 2),
            base == old(reader).offset() + 2,
            n == count_at(s, old(reader).offset()),
            i <= n,
            reader.offset() == base + 6 * i,
            fits(s, base, (6 * i) as nat),
            items@ == triangle_run_at(s, base, i as nat),
        decreases n - i,
    {
        let item = reader.read_vector3_i16()?;
        items.push(item);
        i += 1;
        proof {
            assert(items@ =~= triangle_run_at(s, base, i as nat));
        }
    }
    Ok(items)
}

/// Reads one column: the attribute of every vertex, one vertex after the
/// other.
fn read_column<R: ReadRoseExt>(
    reader: &mut R,
    vertices: &mut Vec<ModelVertex>,
    column: Column,
) -> (r: Result<(), Error>)
    ensures
        final(reader).stream() == old(reader).stream(),
        final(vertices)@.len() == old(vertices)@.len(),
        ({
            let s = old(reader).stream();
            let pos = old(reader).offset();
            let n = old(vertices)@.len();
            if fits(s, pos, column.run(n)) {
                &&& r is Ok
                &&& final(reader).offset() == pos + column.run(n)
                &&& forall|k: int|
                    0 <= k < n ==> #[trigger] final(vertices)@[k] == column.cell_at(
                        s,
                        pos + column.run(k as nat),
                        old(vertices)@[k],
                    )
            } else {
                r == Err::<(), Error>(Error::UnexpectedEof) && final(reader).offset() == s.len()
            }
        }),
{
    let ghost s = reader.stream();
    let ghost pos = reader.offset();
    proof {
        reader.lemma_offset_in_stream();
    }
    let n = vertices.len();
    let mut i: usize = 0;
    while i < n
        invariant
            reader.stream() == s,
            s == old(reader).stream(),
            pos == old(reader).offset(),
            i <= n == vertices@.len() == old(vertices)@.len(),
            reader.offset() == pos + column.run(i as nat),
            fits(s, pos, column.run(i as nat)),
            forall|k: int|
                0 <= k < i ==> #[trigger] vertices@[k] == column.cell_at(
                    s,
                    pos + column.run(k as nat),
                    old(vertices)@[k],
                ),
            forall|k: int| i <= k < n ==> #[trigger] vertices@[k] == old(vertices)@[k],
        decreases n - i,
    {
        let mut vertex = vertices[i];
        match column {
            Column::Position => {
                vertex.position = reader.read_vector3_f32()?;
            },
            Column::Normal => {
                vertex.normal = reader.read_vector3_f32()?;
            },
            Column::Color => {
                vertex.color = reader.read_color4()?;
            },
            Column::Bones => {
                vertex.bone_weights = reader.read_vector4_f32()?;
                vertex.bone_indices = reader.read_vector4_i16()?;
            },
            Column::Tangent => {
                vertex.tangent = reader.read_vector3_f32()?;
            },
            Column::Uv1 => {
                vertex.uv1 = reader.read_vector2_f32()?;
            },
            Column::Uv2 => {
                vertex.uv2 = reader.read_vector2_f32()?;
            },
            Column::Uv3 => {
                vertex.uv3 = reader.read_vector2_f32()?;
            },
            Column::Uv4 => {
                vertex.uv4 = reader.read_vector2_f32()?;
            },
        }
        vertices.set(i, vertex);
        i += 1;
    }
    Ok(())
}

/// Each column starts where the column before it ends, and the block ends
/// where the last column does.
proof fn lemma_columns_in_a_row(format: i32, n: nat)
    ensures
        Column::Position.start(format, n) == 0,
        Column::Normal.start(format, n) == Column::Position.start(format, n)
            + Column::Position.span(format, n),
        Column::Color.start(format, n) == Column::Normal.start(format, n) + Column::Normal.span(
            format,
            n,
        ),
        Column::Bones.start(format, n) == Column::Color.start(format, n) + Column::Color.span(
            format,
            n,
        ),
        Column::Tangent.start(format, n) == Column::Bones.start(format, n) + Column::Bones.span(
            format,
            n,
        ),
        Column::Uv1.start(format, n) == Column::Tangent.start(format, n) + Column::Tangent.span(
            format,
            n,
        ),
        Column::Uv2.start(format, n) == Column::Uv1.start(format, n) + Column::Uv1.span(format, n),
        Column::Uv3.start(format, n) == Column::Uv2.start(format, n) + Column::Uv2.span(format, n),
        Column::Uv4.start(format, n) == Column::Uv3.start(format, n) + Column::Uv3.span(format, n),
        block_len(format, n) == Column::Uv4.start(format, n) + Column::Uv4.span(format, n),
{
}

/// Reads one column of the block that stands at `base`, where the model
/// carries it, and nothing where it does not.
fn read_stage<R: ReadRoseExt>(
    reader: &mut R,
    vertices: &mut Vec<ModelVertex>,
    format: i32,
    column: Column,
    Ghost(base): Ghost<nat>,
) -> (r: Result<(), Error>)
    requires
        old(reader).offset() == base + column.start(format, old(vertices)@.len()),
    ensures
        final(reader).stream() == old(reader).stream(),
        final(vertices)@.len() == old(vertices)@.len(),
        ({
            let s = old(reader).stream();
            let n = old(vertices)@.len();
            let end = base + column.start(format, n) + column.span(format, n);
            if end <= s.len() {
                &&& r is Ok
                &&& final(reader).offset() == end
                &&& forall|k: int|
                    0 <= k < n ==> #[trigger] final(vertices)@[k] == column.filled(
                        s,
                        base,
                        format,
                        n,
                        k as nat,
                        old(vertices)@[k],
                    )
            } else {
                r == Err::<(), Error>(Error::UnexpectedEof) && final(reader).offset() == s.len()
            }
        }),
{
    proof {
        reader.lemma_offset_in_stream();
        reveal(Column::filled);
    }
    if column.enabled(format) {
        read_column(reader, vertices, column)
    } else {
        Ok(())
    }
}

/// Reads a count and the block of that many vertices: every column that the
/// model carries, one after the other.
fn read_vertex_list<R: ReadRoseExt>(reader: &mut R, format: i32) -> (r: Result<
    Vec<ModelVertex>,
    Error,
>)
    ensures
        final(reader).stream() == old(reader).stream(),
        run_yields(
            r,
            final(reader).offset(),
            vertex_list_at(old(reader).stream(), old(reader).offset(), format),
            old(reader).stream().len(),
        ),
{
    let n = read_count(reader)?;
    let ghost s = reader.stream();
    let ghost base = reader.offset();
    let mut vertices: Vec<ModelVertex> = Vec::new();
    let mut i: usize = 0;
    while i < n
        invariant
            i <= n,
            vertices@.len() == i,
            forall|k: int| 0 <= k < i ==> #[trigger] vertices@[k] == ModelVertex::zero(),
        decreases n - i,
    {
        vertices.push(ModelVertex::new());
        i += 1;
    }
    proof {
        lemma_columns_in_a_row(format, n as nat);
    }
    let ghost v0 = vertices@;
    read_stage(reader, &mut vertices, format, Column::Position, Ghost(base))?;
    let ghost v1 = vertices@;
    read_stage(reader, &mut vertices, format, Column::Normal, Ghost(base))?;
    let ghost v2 = vertices@;
    read_stage(reader, &mut vertices, format, Column::Color, Ghost(base))?;
    let ghost v3 = vertices@;
    read_stage(reader, &mut vertices, format, Column::Bones, Ghost(base))?;
    let ghost v4 = vertices@;
    read_stage(reader, &mut vertices, format, Column::Tangent, Ghost(base))?;
    let ghost v5 = vertices@;
    read_stage(reader, &mut vertices, format, Column::Uv1, Ghost(base))?;
    let ghost v6 = vertices@;
    read_stage(reader, &mut vertices, format, Column::Uv2, Ghost(base))?;
    let ghost v7 = vertices@;
    read_stage(reader, &mut vertices, format, Column::Uv3, Ghost(base))?;
    let ghost v8 = vertices@;
    read_stage(reader, &mut vertices, format, Column::Uv4, Ghost(base))?;
    proof {
        assert forall|k: int| 0 <= k < n implies #[trigger] vertices@[k] == vertex_at(
            s,
            base,
            format,
            n as nat,
            k as nat,
        ) by {
            assert(v0[k] == ModelVertex::zero());
            assert(v1[k] == Column::Position.filled(s, base, format, n as nat, k as nat, v0[k]));
            assert(v2[k] == Column::Normal.filled(s, base, format, n as nat, k as nat, v1[k]));
            assert(v3[k] == Column::Color.filled(s, base, format, n as nat, k as nat, v2[k]));
            assert(v4[k] == Column::Bones.filled(s, base, format, n as nat, k as nat, v3[k]));
            assert(v5[k] == Column::Tangent.filled(s, base, format, n as nat, k as nat, v4[k]));
            assert(v6[k] == Column::Uv1.filled(s, base, format, n as nat, k as nat, v5[k]));
            assert(v7[k] == Column::Uv2.filled(s, base, format, n as nat, k as nat, v6[k]));
            assert(v8[k] == Column::Uv3.filled(s, base, format, n as nat, k as nat, v7[k]));
            assert(vertices@[k] == Column::Uv4.filled(
                s,
                base,
                format,
                n as nat,
                k as nat,
                v8[k],
            ));
        }
        assert(vertices@ =~= vertices_at(s, base, format, n as nat));
    }
    Ok(vertices)
}

/// Writes a count and the 16-bit integers it counts.
fn write_i16_list<W: WriteRoseExt>(writer: &mut W, items: &Vec<i16>) -> (r: Result<(), Error>)
    requires
        items@.len() <= 0x7fff,
    ensures
        r is Ok,
        wrote(
            old(writer).stream(),
            old(writer).offset(),
            i16_list_bytes(items@),
            final(writer).stream(),
            final(writer).offset(),
        ),
{
    let ghost s0 = writer.stream();
    let ghost p0 = writer.offset();
    let n = items.len();
    writer.write_i16(n as i16)?;
    let ghost head = i16_bytes(n as i16);
    let ghost item = |x: i16| i16_bytes(x);
    proof {
        assert(head + joined(items@.take(0), item) =~= head);
    }
    let mut i: usize = 0;
    while i < n
        invariant
            i <= n == items@.len(),
            item == (|x: i16| i16_bytes(x)),
            wrote(
                s0,
                p0,
                head + joined(items@.take(i as int), item),
                writer.stream(),
                writer.offset(),
            ),
        decreases n - i,
    {
        let ghost s1 = writer.stream();
        let ghost p1 = writer.offset();
        writer.write_i16(items[i])?;
        proof {
            lemma_joined_take(items@, i as int, item);
            lemma_wrote_twice(
                s0,
                p0,
                head + joined(items@.take(i as int), item),
                s1,
                p1,
                i16_bytes(items@[i as int]),
                writer.stream(),
                writer.offset(),
            );
            assert(head + joined(items@.take(i as int), item) + i16_bytes(items@[i as int])
                =~= head + joined(items@.take(i + 1), item));
        }
        i += 1;
    }
    proof {
        assert(items@.take(n as int) =~= items@);
    }
    Ok(())
}

/// Writes a count and the index triples it counts.
fn write_triangle_list<W: WriteRoseExt>(writer: &mut W, items: &Vec<Vector3<i16>>) -> (r: Result<
    (),
    Error,
>)
    requires
        items@.len() <= 0x7fff,
    ensures
        r is Ok,
        wrote(
            old(writer).stream(),
            old(writer).offset(),
            triangle_list_bytes(items@),
            final(writer).stream(),
            final(writer).offset(),
        ),
{
    let ghost s0 = writer.stream();
    let ghost p0 = writer.offset();
    let n = items.len();
    writer.write_i16(n as i16)?;
    let ghost head = i16_bytes(n as i16);
    let ghost item = |x: Vector3<i16>| vector3_i16_bytes(x);
    proof {
        assert(head + joined(items@.take(0), item) =~= head);
    }
    let mut i: usize = 0;
    while i < n
        invariant
            i <= n == items@.len(),
            item == (|x: Vector3<i16>| vector3_i16_bytes(x)),
            wrote(
                s0,
                p0,
                head + joined(items@.take(i as int), item),
                writer.stream(),
                writer.offset(),
            ),
        decreases n - i,
    {
        let ghost s1 = writer.stream();
        let ghost p1 = writer.offset();
        writer.write_vector3_i16(&items[i])?;
        proof {
            lemma_joined_take(items@, i as int, item);
            lemma_wrote_twice(
                s0,
                p0,
                head + joined(items@.take(i as int), item),
                s1,
                p1,
                vector3_i16_bytes(items@[i as int]),
                writer.stream(),
                writer.offset(),
            );
            assert(head + joined(items@.take(i as int), item) + vector3_i16_bytes(
                items@[i as int],
            ) =~= head + joined(items@.take(i + 1), item));
        }
        i += 1;
    }
    proof {
        assert(items@.take(n as int) =~= items@);
    }
    Ok(())
}

/// Writes the attribute of one column of one vertex.
fn write_cell<W: WriteRoseExt>(writer: &mut W, vertex: &ModelVertex, column: Column) -> (r: Result<
    (),
    Error,
>)
    ensures
        r is Ok,
        wrote(
            old(writer).stream(),
            old(writer).offset(),
            column.cell_bytes(*vertex),
            final(writer).stream(),
            final(writer).offset(),
        ),
{
    match column {
        Column::Position => writer.write_vector3_f32(&vertex.position),
        Column::Normal => writer.write_vector3_f32(&vertex.normal),
        Column::Color => writer.write_color4(&vertex.color),
        Column::Bones => {
            writer.write_vector4_f32(&vertex.bone_weights)?;
            let ghost s1 = writer.stream();
            let ghost p1 = writer.offset();
            writer.write_vector4_i16(&vertex.bone_indices)?;
            proof {
                lemma_wrote_twice(
                    old(writer).stream(),
                    old(writer).offset(),
                    vector4_f32_bytes(vertex.bone_weights),
                    s1,
                    p1,
                    vector4_i16_bytes(vertex.bone_indices),
                    writer.stream(),
                    writer.offset(),
                );
            }
            Ok(())
        },
        Column::Tangent => writer.write_vector3_f32(&vertex.tangent),
        Column::Uv1 => writer.write_vector2_f32(&vertex.uv1),
        Column::Uv2 => writer.write_vector2_f32(&vertex.uv2),
        Column::Uv3 => writer.write_vector2_f32(&vertex.uv3),
        Column::Uv4 => writer.write_vector2_f32(&vertex.uv4),
    }
}

/// Writes one column where the model carries it, and nothing where it does
/// not: the attribute of every vertex, one vertex after the other.
fn write_stage<W: WriteRoseExt>(
    writer: &mut W,
    vertices: &Vec<ModelVertex>,
    format: i32,
    column: Column,
) -> (r: Result<(), Error>)
    ensures
        r is Ok,
        wrote(
            old(writer).stream(),
            old(writer).offset(),
            column_part(vertices@, format, column),
            final(writer).stream(),
            final(writer).offset(),
        ),
{
    let ghost s0 = writer.stream();
    let ghost p0 = writer.offset();
    proof {
        writer.lemma_offset_in_stream();
        lemma_overwrite_nothing(s0, p0);
    }
    if !column.enabled(format) {
        return Ok(());
    }
    let ghost item = |v: ModelVertex| column.cell_bytes(v);
    let n = vertices.len();
    let mut i: usize = 0;
    proof {
        assert(joined(vertices@.take(0), item) =~= Seq::<u8>::empty());
    }
    while i < n
        invariant
            i <= n == vertices@.len(),
            item == (|v: ModelVertex| column.cell_bytes(v)),
            wrote(s0, p0, joined(vertices@.take(i as int), item), writer.stream(), writer.offset()),
        decreases n - i,
    {
        let ghost s1 = writer.stream();
        let ghost p1 = writer.offset();
        write_cell(writer, &vertices[i], column)?;
        proof {
            lemma_joined_take(vertices@, i as int, item);
            lemma_wrote_twice(
                s0,
                p0,
                joined(vertices@.take(i as int), item),
                s1,
                p1,
                column.cell_bytes(vertices@[i as int]),
                writer.stream(),
                writer.offset(),
            );
        }
        i += 1;
    }
    proof {
        assert(vertices@.take(n as int) =~= vertices@);
    }
    Ok(())
}

/// Writes the block of vertices: every column that the model carries, one
/// after the other.
fn write_block<W: WriteRoseExt>(writer: &mut W, vertices: &Vec<ModelVertex>, format: i32) -> (r:
    Result<(), Error>)
    ensures
        r is Ok,
        wrote(
            old(writer).stream(),
            old(writer).offset(),
            block_bytes(vertices@, format),
            final(writer).stream(),
            final(writer).offset(),
        ),
{
    let ghost s0 = writer.stream();
    let ghost p0 = writer.offset();
    let ghost vs = vertices@;
    proof {
        reveal(block_bytes);
    }
    write_stage(writer, vertices, format, Column::Position)?;
    let ghost d1 = column_part(vs, format, Column::Position);
    let ghost s1 = writer.stream();
    let ghost p1 = writer.offset();
    write_stage(writer, vertices, format, Column::Normal)?;
    let ghost d2 = d1 + column_part(vs, format, Column::Normal);
    let ghost s2 = writer.stream();
    let ghost p2 = writer.offset();
    proof {
        lemma_wrote_twice(s0, p0, d1, s1, p1, column_part(vs, format, Column::Normal), s2, p2);
    }
    write_stage(writer, vertices, format, Column::Color)?;
    let ghost d3 = d2 + column_part(vs, format, Column::Color);
    let ghost s3 = writer.stream();
    let ghost p3 = writer.offset();
    proof {
        lemma_wrote_twice(s0, p0, d2, s2, p2, column_part(vs, format, Column::Color), s3, p3);
    }
    write_stage(writer, vertices, format, Column::Bones)?;
    let ghost d4 = d3 + column_part(vs, format, Column::Bones);
    let ghost s4 = writer.stream();
    let ghost p4 = writer.offset();
    proof {
        lemma_wrote_twice(s0, p0, d3, s3, p3, column_part(vs, format, Column::Bones), s4, p4);
    }
    write_stage(writer, vertices, format, Column::Tangent)?;
    let ghost d5 = d4 + column_part(vs, format, Column::Tangent);
    let ghost s5 = writer.stream();
    let ghost p5 = writer.offset();
    proof {
        lemma_wrote_twice(s0, p0, d4, s4, p4, column_part(vs, format, Column::Tangent), s5, p5);
    }
    write_stage(writer, vertices, format, Column::Uv1)?;
    let ghost d6 = d5 + column_part(vs, format, Column::Uv1);
    let ghost s6 = writer.stream();
    let ghost p6 = writer.offset();
    proof {
        lemma_wrote_twice(s0, p0, d5, s5, p5, column_part(vs, format, Column::Uv1), s6, p6);
    }
    write_stage(writer, vertices, format, Column::Uv2)?;
    let ghost d7 = d6 + column_part(vs, format, Column::Uv2);
    let ghost s7 = writer.stream();
    let ghost p7 = writer.offset();
    proof {
        lemma_wrote_twice(s0, p0, d6, s6, p6, column_part(vs, format, Column::Uv2), s7, p7);
    }
    write_stage(writer, vertices, format, Column::Uv3)?;
    let ghost d8 = d7 + column_part(vs, format, Column::Uv3);
    let ghost s8 = writer.stream();
    let ghost p8 = writer.offset();
    proof {
        lemma_wrote_twice(s0, p0, d7, s7, p7, column_part(vs, format, Column::Uv3), s8, p8);
    }
    write_stage(writer, vertices, format, Column::Uv4)?;
    proof {
        lemma_wrote_twice(
            s0,
            p0,
            d8,
            s8,
            p8,
            column_part(vs, format, Column::Uv4),
            writer.stream(),
            writer.offset(),
        );
    }
    Ok(())
}

/// Writes the head of a model: the identifier of the newest version, the
/// bitmask and the bounding box.
fn write_head<W: WriteRoseExt>(writer: &mut W, model: &ModelFile) -> (r: Result<(), Error>)
    ensures
        r is Ok,
        wrote(
            old(writer).stream(),
            old(writer).offset(),
            head_bytes(model@),
            final(writer).stream(),
            final(writer).offset(),
        ),
{
    let ghost m = model@;
    let ghost s0 = writer.stream();
    let ghost p0 = writer.offset();
    proof {
        reveal(head_bytes);
    }
    writer.write_cstring("ZMS0008")?;
    let ghost d1 = cstring_bytes("ZMS0008"@);
    let ghost s1 = writer.stream();
    let ghost p1 = writer.offset();
    writer.write_i32(model.format)?;
    let ghost d2 = d1 + i32_bytes(m.format);
    let ghost s2 = writer.stream();
    let ghost p2 = writer.offset();
    proof {
        lemma_wrote_twice(s0, p0, d1, s1, p1, i32_bytes(m.format), s2, p2);
    }
    writer.write_vector3_f32(&model.bounding_box.min)?;
    let ghost d3 = d2 + vector3_f32_bytes(m.bounding_box.min);
    let ghost s3 = writer.stream();
    let ghost p3 = writer.offset();
    proof {
        lemma_wrote_twice(s0, p0, d2, s2, p2, vector3_f32_bytes(m.bounding_box.min), s3, p3);
    }
    writer.write_vector3_f32(&model.bounding_box.max)?;
    proof {
        lemma_wrote_twice(
            s0,
            p0,
            d3,
            s3,
            p3,
            vector3_f32_bytes(m.bounding_box.max),
            writer.stream(),
            writer.offset(),
        );
    }
    Ok(())
}

/// Writes the runs of a model, each after its count, and the pool tag.
fn write_runs<W: WriteRoseExt>(writer: &mut W, model: &ModelFile) -> (r: Result<(), Error>)
    requires
        model_encodable(model@),
    ensures
        r is Ok,
        wrote(
            old(writer).stream(),
            old(writer).offset(),
            runs_bytes(model@),
            final(writer).stream(),
            final(writer).offset(),
        ),
{
    let ghost m = model@;
    let ghost s0 = writer.stream();
    let ghost p0 = writer.offset();
    proof {
        reveal(runs_bytes);
    }
    write_i16_list(writer, &model.bones)?;
    let ghost d1 = i16_list_bytes(m.bones);
    let ghost s1 = writer.stream();
    let ghost p1 = writer.offset();
    writer.write_i16(model.vertices.len() as i16)?;
    let ghost d2 = d1 + i16_bytes(m.vertices.len() as i16);
    let ghost s2 = writer.stream();
    let ghost p2 = writer.offset();
    proof {
        lemma_wrote_twice(s0, p0, d1, s1, p1, i16_bytes(m.vertices.len() as i16), s2, p2);
    }
    write_block(writer, &model.vertices, model.format)?;
    let ghost d3 = d2 + block_bytes(m.vertices, m.format);
    let ghost s3 = writer.stream();
    let ghost p3 = writer.offset();
    proof {
        lemma_wrote_twice(s0, p0, d2, s2, p2, block_bytes(m.vertices, m.format), s3, p3);
    }
    write_triangle_list(writer, &model.indices)?;
    let ghost d4 = d3 + triangle_list_bytes(m.indices);
    let ghost s4 = writer.stream();
    let ghost p4 = writer.offset();
    proof {
        lemma_wrote_twice(s0, p0, d3, s3, p3, triangle_list_bytes(m.indices), s4, p4);
    }
    write_i16_list(writer, &model.materials)?;
    let ghost d5 = d4 + i16_list_bytes(m.materials);
    let ghost s5 = writer.stream();
    let ghost p5 = writer.offset();
    proof {
        lemma_wrote_twice(s0, p0, d4, s4, p4, i16_list_bytes(m.materials), s5, p5);
    }
    write_i16_list(writer, &model.strips)?;
    let ghost d6 = d5 + i16_list_bytes(m.strips);
    let ghost s6 = writer.stream();
    let ghost p6 = writer.offset();
    proof {
        lemma_wrote_twice(s0, p0, d5, s5, p5, i16_list_bytes(m.strips), s6, p6);
    }
    writer.write_i16(model.pool)?;
    proof {
        lemma_wrote_twice(
            s0,
            p0,
            d6,
            s6,
            p6,
            i16_bytes(m.pool),
            writer.stream(),
            writer.offset(),
        );
    }
    Ok(())
}

impl RoseFile for ModelFile {
    open spec fn decoded(s: Seq<u8>, pos: nat) -> Result<(ModelData, nat), Error> {
        model_at(s, pos)
    }

    open spec fn stop(s: Seq<u8>, pos: nat) -> nat {
        model_stop(s, pos)
    }

    open spec fn encoded(v: ModelData) -> Option<Seq<u8>> {
        if model_encodable(v) {
            Some(model_bytes(v))
        } else {
            None
        }
    }

    open spec fn blank() -> ModelData {
        ModelData {
            identifier: Seq::<char>::empty(),
            format: (-1i32),
            bounding_box: BoundingBox::<Float32>::zero(),
            bones: Seq::<i16>::empty(),
            vertices: Seq::<ModelVertex>::empty(),
            indices: Seq::<Vector3<i16>>::empty(),
            materials: Seq::<i16>::empty(),
            strips: Seq::<i16>::empty(),
            pool: 0,
        }
    }

    /// A model without vertices, its bitmask unset.
    fn new() -> (rf: ModelFile) {
        let rf = ModelFile {
            identifier: String::new(),
            format: -1,
            bounding_box: BoundingBox::<Float32>::new(),
            bones: Vec::new(),
            vertices: Vec::new(),
            indices: Vec::new(),
            materials: Vec::new(),
            strips: Vec::new(),
            pool: 0,
        };
        proof {
            assert(rf@.format == -1);
            assert(rf@ =~= Self::blank());
        }
        rf
    }

    /// Reads a model. The identifier decides the version: an identifier
    /// that is not known ends the read with the cursor right after it.
    fn read<R: ReadRoseExt>(&mut self, reader: &mut R) -> (r: Result<(), Error>) {
        proof {
            reveal(body_at);
        }
        let identifier = reader.read_cstring()?;
        let version = match version_number(identifier.as_str()) {
            Some(version) => version,
            None => {
                return Err(Error::UnsupportedVersion);
            },
        };
        let format = reader.read_i32()?;
        let min = reader.read_vector3_f32()?;
        let max = reader.read_vector3_f32()?;
        let bones = read_i16_list(reader)?;
        let vertices = read_vertex_list(reader, format)?;
        let indices = read_triangle_list(reader)?;
        let materials = read_i16_list(reader)?;
        let strips = read_i16_list(reader)?;
        let pool = if version >= 8 {
            reader.read_i16()?
        } else {
            0
        };
        self.identifier = identifier;
        self.format = format;
        self.bounding_box = BoundingBox { min, max };
        self.bones = bones;
        self.vertices = vertices;
        self.indices = indices;
        self.materials = materials;
        self.strips = strips;
        self.pool = pool;
        Ok(())
    }

    /// Writes a model, always as the newest version: with that version's
    /// identifier, whatever the model was read with, and with the pool tag.
    fn write<W: WriteRoseExt>(&mut self, writer: &mut W) -> (r: Result<(), Error>) {
        if self.bones.len() > 0x7fff || self.vertices.len() > 0x7fff || self.indices.len() > 0x7fff
            || self.materials.len() > 0x7fff || self.strips.len() > 0x7fff {
            return Err(Error::TooLarge);
        }
        let ghost s0 = writer.stream();
        let ghost p0 = writer.offset();
        write_head(writer, self)?;
        let ghost s1 = writer.stream();
        let ghost p1 = writer.offset();
        write_runs(writer, self)?;
        proof {
            lemma_wrote_twice(
                s0,
                p0,
                head_bytes(self@),
                s1,
                p1,
                runs_bytes(self@),
                writer.stream(),
                writer.offset(),
            );
        }
        Ok(())
    }
}

} // verus!

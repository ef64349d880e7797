//! What holds of the model container: a model that was written reads back
//! as it was, and the bitmask alone decides which columns a read consumes.

use crate::errors::Error;
use crate::files::zms_layout::{
    block_bytes, block_len, body_at, column_part, count_at, countable, head_bytes, i16_list_at,
    i16_list_bytes, i16_run_at, i16_run_bytes, model_at, model_bytes, model_encodable, model_stop,
    pool_at, runs_bytes, triangle_list_at, triangle_list_bytes, triangle_run_at,
    triangle_run_bytes, version_of, vertex_at, vertex_list_at, vertices_at, written_identifier,
    Column, ModelData, ModelVertex, VertFormat,
};
use crate::io::round_trip::{
    lemma_chunk, lemma_color4_at, lemma_cstring_at, lemma_i16_at, lemma_i32_at, lemma_run_within,
    lemma_vector2_f32_at, lemma_vector3_f32_at, lemma_vector3_i16_at, lemma_vector4_f32_at,
    lemma_vector4_i16_at,
};
use crate::io::runs::{lemma_concat_assoc, lemma_joined_fixed};
use crate::io::text::text_bytes;
use crate::io::wire::{
    cstring_at, cstring_bytes, fits, i16_at, i16_bytes, i32_at, i32_bytes, run, vector3_f32_at,
    vector3_f32_bytes, vector3_i16_at, vector3_i16_bytes, vector4_f32_bytes, vector4_i16_bytes,
};
use crate::utils::Vector3;
use vstd::prelude::*;
use vstd::utf8::{encode_utf8, is_ascii_chars, is_ascii_chars_encode_utf8};

verus! {

/// A count that was written reads back as it was.
pub proof fn lemma_count_at(e: Seq<u8>, o: nat, n: nat)
    requires
        countable(n),
        run(e, o, 2) == i16_bytes(n as i16),
    ensures
        count_at(e, o) == n,
{
    lemma_i16_at(e, o, n as i16);
}

/// A run of 16-bit integers after its count reads back as it was.
pub proof fn lemma_i16_list_at(e: Seq<u8>, o: nat, xs: Seq<i16>)
    requires
        countable(xs.len()),
        o + 2 + 2 * xs.len() <= e.len(),
        run(e, o, 2 + 2 * xs.len()) == i16_list_bytes(xs),
    ensures
        i16_run_bytes(xs).len() == 2 * xs.len(),
        i16_list_at(e, o) == Some((xs, (o + 2 + 2 * xs.len()) as nat)),
{
    let item = |x: i16| i16_bytes(x);
    let head = i16_bytes(xs.len() as i16);
    let body = i16_run_bytes(xs);
    let n = xs.len();
    lemma_joined_fixed(xs, item, 2);
    lemma_run_within(e, o, head + body, 0, 2);
    assert(run(head + body, 0, 2) =~= head);
    lemma_count_at(e, o, n);
    lemma_run_within(e, o, head + body, 2, 2 * n);
    assert(run(head + body, 2, 2 * n) =~= body);
    assert forall|k: int| 0 <= k < n implies i16_at(e, (o + 2 + 2 * k) as nat) == xs[k] by {
        lemma_run_within(e, o + 2, body, (2 * k) as nat, 2);
        assert(body.subrange(2 * k, 2 * k + 2) == item(xs[k]));
        lemma_i16_at(e, (o + 2 + 2 * k) as nat, xs[k]);
    }
    assert(i16_run_at(e, o + 2, n) =~= xs);
}

/// A run of index triples after its count reads back as it was.
pub proof fn lemma_triangle_list_at(e: Seq<u8>, o: nat, xs: Seq<Vector3<i16>>)
    requires
        countable(xs.len()),
        o + 2 + 6 * xs.len() <= e.len(),
        run(e, o, 2 + 6 * xs.len()) == triangle_list_bytes(xs),
    ensures
        triangle_run_bytes(xs).len() == 6 * xs.len(),
        triangle_list_at(e, o) == Some((xs, (o + 2 + 6 * xs.len()) as nat)),
{
    let item = |x: Vector3<i16>| vector3_i16_bytes(x);
    let head = i16_bytes(xs.len() as i16);
    let body = triangle_run_bytes(xs);
    let n = xs.len();
    lemma_joined_fixed(xs, item, 6);
    lemma_run_within(e, o, head + body, 0, 2);
    assert(run(head + body, 0, 2) =~= head);
    lemma_count_at(e, o, n);
    lemma_run_within(e, o, head + body, 2, 6 * n);
    assert(run(head + body, 2, 6 * n) =~= body);
    assert forall|k: int| 0 <= k < n implies vector3_i16_at(e, (o + 2 + 6 * k) as nat)
        == xs[k] by {
        lemma_run_within(e, o + 2, body, (6 * k) as nat, 6);
        assert(body.subrange(6 * k, 6 * k + 6) == item(xs[k]));
        lemma_vector3_i16_at(e, (o + 2 + 6 * k) as nat, xs[k]);
    }
    assert(triangle_run_at(e, o + 2, n) =~= xs);
}

/// The vertex `v` with the attribute of `column` taken from `w`.
pub open spec fn taken(column: Column, v: ModelVertex, w: ModelVertex) -> ModelVertex {
    match column {
        Column::Position => ModelVertex { position: w.position, ..v },
        Column::Normal => ModelVertex { normal: w.normal, ..v },
        Column::Color => ModelVertex { color: w.color, ..v },
        Column::Bones => ModelVertex {
            bone_weights: w.bone_weights,
            bone_indices: w.bone_indices,
            ..v
        },
        Column::Tangent => ModelVertex { tangent: w.tangent, ..v },
        Column::Uv1 => ModelVertex { uv1: w.uv1, ..v },
        Column::Uv2 => ModelVertex { uv2: w.uv2, ..v },
        Column::Uv3 => ModelVertex { uv3: w.uv3, ..v },
        Column::Uv4 => ModelVertex { uv4: w.uv4, ..v },
    }
}

/// The vertex `v` as a model with the bitmask `format` carries it: every
/// attribute whose column the bitmask does not enable is zero.
pub open spec fn carried(v: ModelVertex, format: i32) -> ModelVertex {
    let zero = ModelVertex::zero();
    ModelVertex {
        position: if Column::Position.spec_enabled(format) {
            v.position
        } else {
            zero.position
        },
        normal: if Column::Normal.spec_enabled(format) {
            v.normal
        } else {
            zero.normal
        },
        color: if Column::Color.spec_enabled(format) {
            v.color
        } else {
            zero.color
        },
        bone_weights: if Column::Bones.spec_enabled(format) {
            v.bone_weights
        } else {
            zero.bone_weights
        },
        bone_indices: if Column::Bones.spec_enabled(format) {
            v.bone_indices
        } else {
            zero.bone_indices
        },
        tangent: if Column::Tangent.spec_enabled(format) {
            v.tangent
        } else {
            zero.tangent
        },
        uv1: if Column::Uv1.spec_enabled(format) {
            v.uv1
        } else {
            zero.uv1
        },
        uv2: if Column::Uv2.spec_enabled(format) {
            v.uv2
        } else {
            zero.uv2
        },
        uv3: if Column::Uv3.spec_enabled(format) {
            v.uv3
        } else {
            zero.uv3
        },
        uv4: if Column::Uv4.spec_enabled(format) {
            v.uv4
        } else {
            zero.uv4
        },
    }
}

/// The vertices `vs` as a model with the bitmask `format` carries them.
pub open spec fn carried_all(vs: Seq<ModelVertex>, format: i32) -> Seq<ModelVertex> {
    Seq::new(vs.len(), |k: int| carried(vs[k], format))
}

/// The bytes of one cell of a column read back as the attribute of that
/// column.
pub proof fn lemma_cell_at(e: Seq<u8>, pos: nat, column: Column, v: ModelVertex, w: ModelVertex)
    requires
        pos + column.width() <= e.len(),
        run(e, pos, column.width()) == column.cell_bytes(w),
    ensures
        column.cell_at(e, pos, v) == taken(column, v, w),
{
    match column {
        Column::Position => {
            lemma_vector3_f32_at(e, pos, w.position);
        },
        Column::Normal => {
            lemma_vector3_f32_at(e, pos, w.normal);
        },
        Column::Color => {
            lemma_color4_at(e, pos, w.color);
        },
        Column::Bones => {
            let c = column.cell_bytes(w);
            lemma_run_within(e, pos, c, 0, 16);
            lemma_run_within(e, pos, c, 16, 8);
            assert(run(c, 0, 16) =~= vector4_f32_bytes(w.bone_weights));
            assert(run(c, 16, 8) =~= vector4_i16_bytes(w.bone_indices));
            lemma_vector4_f32_at(e, pos, w.bone_weights);
            lemma_vector4_i16_at(e, pos + 16, w.bone_indices);
        },
        Column::Tangent => {
            lemma_vector3_f32_at(e, pos, w.tangent);
        },
        Column::Uv1 => {
            lemma_vector2_f32_at(e, pos, w.uv1);
        },
        Column::Uv2 => {
            lemma_vector2_f32_at(e, pos, w.uv2);
        },
        Column::Uv3 => {
            lemma_vector2_f32_at(e, pos, w.uv3);
        },
        Column::Uv4 => {
            lemma_vector2_f32_at(e, pos, w.uv4);
        },
    }
}

/// A column of a block is as long as its span says.
pub proof fn lemma_column_len(vs: Seq<ModelVertex>, format: i32, column: Column)
    ensures
        column_part(vs, format, column).len() == column.span(format, vs.len()),
{
    if column.spec_enabled(format) {
        lemma_joined_fixed(vs, |v: ModelVertex| column.cell_bytes(v), column.width());
        assert(column.span(format, vs.len()) == column.width() * vs.len());
    }
}

/// Cell `k` of a column of a block stands at the offset that `run` says.
pub proof fn lemma_column_cell(vs: Seq<ModelVertex>, format: i32, column: Column, k: int)
    requires
        column.spec_enabled(format),
        0 <= k < vs.len(),
    ensures
        column.run(k as nat) + column.width() <= column.run(vs.len()),
        run(column_part(vs, format, column), column.run(k as nat), column.width())
            == column.cell_bytes(vs[k]),
{
    let item = |v: ModelVertex| column.cell_bytes(v);
    let w = column.width();
    lemma_joined_fixed(vs, item, w);
    let part = column_part(vs, format, column);
    assert(column.run(k as nat) == w * k);
    assert(part.subrange(w * k, w * k + w) == item(vs[k]));
}

/// A block is as long as the columns that the model carries.
pub proof fn lemma_block_len(vs: Seq<ModelVertex>, format: i32)
    ensures
        block_bytes(vs, format).len() == block_len(format, vs.len()),
{
    reveal(block_bytes);
    lemma_column_len(vs, format, Column::Position);
    lemma_column_len(vs, format, Column::Normal);
    lemma_column_len(vs, format, Column::Color);
    lemma_column_len(vs, format, Column::Bones);
    lemma_column_len(vs, format, Column::Tangent);
    lemma_column_len(vs, format, Column::Uv1);
    lemma_column_len(vs, format, Column::Uv2);
    lemma_column_len(vs, format, Column::Uv3);
    lemma_column_len(vs, format, Column::Uv4);
}

/// Where the columns of a block start and end, as lengths of what the
/// block holds before them.
pub proof fn lemma_column_starts(vs: Seq<ModelVertex>, format: i32)
    ensures
        ({
            let n = vs.len();
            let c0 = column_part(vs, format, Column::Position);
            let c1 = column_part(vs, format, Column::Normal);
            let c2 = column_part(vs, format, Column::Color);
            let c3 = column_part(vs, format, Column::Bones);
            let c4 = column_part(vs, format, Column::Tangent);
            let c5 = column_part(vs, format, Column::Uv1);
            let c6 = column_part(vs, format, Column::Uv2);
            let c7 = column_part(vs, format, Column::Uv3);
            let c8 = column_part(vs, format, Column::Uv4);
            &&& Column::Position.start(format, n) == 0
            &&& Column::Normal.start(format, n) == c0.len()
            &&& Column::Color.start(format, n) == (c0 + c1).len()
            &&& Column::Bones.start(format, n) == (c0 + c1 + c2).len()
            &&& Column::Tangent.start(format, n) == (c0 + c1 + c2 + c3).len()
            &&& Column::Uv1.start(format, n) == (c0 + c1 + c2 + c3 + c4).len()
            &&& Column::Uv2.start(format, n) == (c0 + c1 + c2 + c3 + c4 + c5).len()
            &&& Column::Uv3.start(format, n) == (c0 + c1 + c2 + c3 + c4 + c5 + c6).len()
            &&& Column::Uv4.start(format, n) == (c0 + c1 + c2 + c3 + c4 + c5 + c6 + c7).len()
            &&& block_len(format, n) == block_bytes(vs, format).len()
        }),
{
    reveal(block_bytes);
    lemma_column_len(vs, format, Column::Position);
    lemma_column_len(vs, format, Column::Normal);
    lemma_column_len(vs, format, Column::Color);
    lemma_column_len(vs, format, Column::Bones);
    lemma_column_len(vs, format, Column::Tangent);
    lemma_column_len(vs, format, Column::Uv1);
    lemma_column_len(vs, format, Column::Uv2);
    lemma_column_len(vs, format, Column::Uv3);
    lemma_column_len(vs, format, Column::Uv4);
}

/// A column of a block stands in the block where its start says.
pub proof fn lemma_block_part(vs: Seq<ModelVertex>, format: i32, column: Column)
    ensures
        block_bytes(vs, format).len() == block_len(format, vs.len()),
        column_part(vs, format, column).len() == column.span(format, vs.len()),
        column.start(format, vs.len()) + column.span(format, vs.len()) <= block_len(
            format,
            vs.len(),
        ),
        run(
            block_bytes(vs, format),
            column.start(format, vs.len()),
            column.span(format, vs.len()),
        ) == column_part(vs, format, column),
{
    let b = block_bytes(vs, format);
    let c0 = column_part(vs, format, Column::Position);
    let c1 = column_part(vs, format, Column::Normal);
    let c2 = column_part(vs, format, Column::Color);
    let c3 = column_part(vs, format, Column::Bones);
    let c4 = column_part(vs, format, Column::Tangent);
    let c5 = column_part(vs, format, Column::Uv1);
    let c6 = column_part(vs, format, Column::Uv2);
    let c7 = column_part(vs, format, Column::Uv3);
    let c8 = column_part(vs, format, Column::Uv4);
    let p1 = c0;
    let p2 = p1 + c1;
    let p3 = p2 + c2;
    let p4 = p3 + c3;
    let p5 = p4 + c4;
    let p6 = p5 + c5;
    let p7 = p6 + c6;
    let p8 = p7 + c7;
    reveal(block_bytes);
    lemma_column_starts(vs, format);
    lemma_column_len(vs, format, column);
    assert(b == p8 + c8);
    assert(b.take(b.len() as int) =~= b);
    lemma_chunk(b, p8, c8);
    if column != Column::Uv4 {
        lemma_chunk(b, p7, c7);
        if column != Column::Uv3 {
            lemma_chunk(b, p6, c6);
            if column != Column::Uv2 {
                lemma_chunk(b, p5, c5);
                if column != Column::Uv1 {
                    lemma_chunk(b, p4, c4);
                    if column != Column::Tangent {
                        lemma_chunk(b, p3, c3);
                        if column != Column::Bones {
                            lemma_chunk(b, p2, c2);
                            if column != Column::Color {
                                lemma_chunk(b, p1, c1);
                                if column != Column::Normal {
                                    assert(Seq::<u8>::empty() + c0 =~= p1);
                                    lemma_chunk(b, Seq::<u8>::empty(), c0);
                                }
                            }
                        }
                    }
                }
            }
        }
    }
}

/// One column of the block of `vs`, where the block stands at `base`, fills
/// vertex `k` with the attribute of `vs[k]`.
pub proof fn lemma_filled(
    e: Seq<u8>,
    base: nat,
    vs: Seq<ModelVertex>,
    format: i32,
    column: Column,
    k: int,
    v: ModelVertex,
)
    requires
        0 <= k < vs.len(),
        base + block_len(format, vs.len()) <= e.len(),
        run(e, base, block_len(format, vs.len())) == block_bytes(vs, format),
    ensures
        column.filled(e, base, format, vs.len(), k as nat, v) == (if column.spec_enabled(format) {
            taken(column, v, vs[k])
        } else {
            v
        }),
{
    reveal(Column::filled);
    if column.spec_enabled(format) {
        let n = vs.len();
        let b = block_bytes(vs, format);
        let part = column_part(vs, format, column);
        lemma_block_part(vs, format, column);
        lemma_column_cell(vs, format, column, k);
        let start = column.start(format, n);
        lemma_run_within(e, base, b, start, column.span(format, n));
        lemma_run_within(e, base + start, part, column.run(k as nat), column.width());
        lemma_cell_at(e, base + start + column.run(k as nat), column, v, vs[k]);
    }
}

/// Vertex `k` of the block of `vs`, where the block stands at `base`, reads
/// back as the model carries `vs[k]`.
pub proof fn lemma_vertex_at(e: Seq<u8>, base: nat, vs: Seq<ModelVertex>, format: i32, k: int)
    requires
        0 <= k < vs.len(),
        base + block_len(format, vs.len()) <= e.len(),
        run(e, base, block_len(format, vs.len())) == block_bytes(vs, format),
    ensures
        vertex_at(e, base, format, vs.len(), k as nat) == carried(vs[k], format),
{
    let n = vs.len();
    let v0 = ModelVertex::zero();
    lemma_filled(e, base, vs, format, Column::Position, k, v0);
    let v1 = Column::Position.filled(e, base, format, n, k as nat, v0);
    lemma_filled(e, base, vs, format, Column::Normal, k, v1);
    let v2 = Column::Normal.filled(e, base, format, n, k as nat, v1);
    lemma_filled(e, base, vs, format, Column::Color, k, v2);
    let v3 = Column::Color.filled(e, base, format, n, k as nat, v2);
    lemma_filled(e, base, vs, format, Column::Bones, k, v3);
    let v4 = Column::Bones.filled(e, base, format, n, k as nat, v3);
    lemma_filled(e, base, vs, format, Column::Tangent, k, v4);
    let v5 = Column::Tangent.filled(e, base, format, n, k as nat, v4);
    lemma_filled(e, base, vs, format, Column::Uv1, k, v5);
    let v6 = Column::Uv1.filled(e, base, format, n, k as nat, v5);
    lemma_filled(e, base, vs, format, Column::Uv2, k, v6);
    let v7 = Column::Uv2.filled(e, base, format, n, k as nat, v6);
    lemma_filled(e, base, vs, format, Column::Uv3, k, v7);
    let v8 = Column::Uv3.filled(e, base, format, n, k as nat, v7);
    lemma_filled(e, base, vs, format, Column::Uv4, k, v8);
    let v9 = Column::Uv4.filled(e, base, format, n, k as nat, v8);
    assert(vertex_at(e, base, format, n, k as nat) == v9);
}

/// A block of vertices after its count reads back as the model carries
/// it.
pub proof fn lemma_vertex_list_at(e: Seq<u8>, o: nat, vs: Seq<ModelVertex>, format: i32)
    requires
        countable(vs.len()),
        o + 2 + block_len(format, vs.len()) <= e.len(),
        run(e, o, 2 + block_len(format, vs.len())) == i16_bytes(vs.len() as i16) + block_bytes(
            vs,
            format,
        ),
    ensures
        block_bytes(vs, format).len() == block_len(format, vs.len()),
        vertex_list_at(e, o, format) == Some(
            (carried_all(vs, format), (o + 2 + block_len(format, vs.len())) as nat),
        ),
{
    let n = vs.len();
    let head = i16_bytes(n as i16);
    let b = block_bytes(vs, format);
    let base = o + 2;
    lemma_block_len(vs, format);
    lemma_run_within(e, o, head + b, 0, 2);
    assert(run(head + b, 0, 2) =~= head);
    lemma_count_at(e, o, n);
    lemma_run_within(e, o, head + b, 2, b.len());
    assert(run(head + b, 2, b.len()) =~= b);
    assert forall|k: int| 0 <= k < n implies #[trigger] vertices_at(e, base, format, n)[k]
        == carried_all(vs, format)[k] by {
        lemma_vertex_at(e, base, vs, format, k);
    }
    assert(vertices_at(e, base, format, n) =~= carried_all(vs, format));
}

/// The identifier that models are written with is seven bytes long, holds
/// no zero byte, and names version 8.
pub proof fn lemma_written_identifier()
    ensures
        text_bytes(written_identifier()).len() == 7,
        forall|i: int| 0 <= i < 7 ==> text_bytes(written_identifier())[i] != 0,
        version_of(written_identifier()) == Some(8nat),
{
    reveal_strlit("ZMS0008");
    reveal_strlit("ZMS0007");
    reveal(text_bytes);
    let id = "ZMS0008"@;
    assert(is_ascii_chars(id));
    is_ascii_chars_encode_utf8(id);
    assert forall|i: int| 0 <= i < 7 implies encode_utf8(id)[i] != 0 by {
        assert(id[i] as u8 == encode_utf8(id)[i]);
    }
    assert("ZMS0007"@[6] != "ZMS0008"@[6]);
}

/// What a model is after it was written and read again: it has the
/// identifier of the newest version, and its vertices are as a model with
/// its bitmask carries them.
pub open spec fn written(m: ModelData) -> ModelData {
    ModelData {
        identifier: written_identifier(),
        vertices: carried_all(m.vertices, m.format),
        ..m
    }
}

/// Where the vertices of a written model stand among its runs.
pub open spec fn vertices_from(m: ModelData) -> nat {
    2 + 2 * m.bones.len()
}

/// Where the index triples of a written model stand among its runs.
pub open spec fn indices_from(m: ModelData) -> nat {
    vertices_from(m) + 2 + block_len(m.format, m.vertices.len())
}

/// Where the materials of a written model stand among its runs.
pub open spec fn materials_from(m: ModelData) -> nat {
    indices_from(m) + 2 + 6 * m.indices.len()
}

/// Where the strips of a written model stand among its runs.
pub open spec fn strips_from(m: ModelData) -> nat {
    materials_from(m) + 2 + 2 * m.materials.len()
}

/// Where the pool tag of a written model stands among its runs.
pub open spec fn pool_from(m: ModelData) -> nat {
    strips_from(m) + 2 + 2 * m.strips.len()
}

/// Where the vertices of a written model stand in its bytes.
pub open spec fn vertices_place(m: ModelData) -> nat {
    36 + vertices_from(m)
}

/// Where the index triples of a written model stand in its bytes.
pub open spec fn indices_place(m: ModelData) -> nat {
    36 + indices_from(m)
}

/// Where the materials of a written model stand in its bytes.
pub open spec fn materials_place(m: ModelData) -> nat {
    36 + materials_from(m)
}

/// Where the strips of a written model stand in its bytes.
pub open spec fn strips_place(m: ModelData) -> nat {
    36 + strips_from(m)
}

/// Where the pool tag of a written model stands in its bytes.
pub open spec fn pool_place(m: ModelData) -> nat {
    36 + pool_from(m)
}

/// The bytes of the head of a written model, field by field.
pub proof fn lemma_head_fields(m: ModelData)
    ensures
        head_bytes(m).len() == 36,
        run(head_bytes(m), 0, 8) == cstring_bytes(written_identifier()),
        run(head_bytes(m), 8, 4) == i32_bytes(m.format),
        run(head_bytes(m), 12, 12) == vector3_f32_bytes(m.bounding_box.min),
        run(head_bytes(m), 24, 12) == vector3_f32_bytes(m.bounding_box.max),
{
    let h = head_bytes(m);
    let c0 = cstring_bytes(written_identifier());
    let c1 = i32_bytes(m.format);
    let c2 = vector3_f32_bytes(m.bounding_box.min);
    let c3 = vector3_f32_bytes(m.bounding_box.max);
    let q1 = c0;
    let q2 = q1 + c1;
    let q3 = q2 + c2;
    reveal(head_bytes);
    lemma_written_identifier();
    assert(h == q3 + c3);
    assert(h.take(h.len() as int) =~= h);
    lemma_chunk(h, q3, c3);
    lemma_chunk(h, q2, c2);
    lemma_chunk(h, q1, c1);
    assert(Seq::<u8>::empty() + c0 =~= q1);
    lemma_chunk(h, Seq::<u8>::empty(), c0);
}

/// The bytes of the runs of a written model, run by run.
pub proof fn lemma_runs_fields(m: ModelData)
    ensures
        runs_bytes(m).len() == pool_from(m) + 2,
        run(runs_bytes(m), 0, 2 + 2 * m.bones.len()) == i16_list_bytes(m.bones),
        run(runs_bytes(m), vertices_from(m), 2 + block_len(m.format, m.vertices.len()))
            == i16_bytes(m.vertices.len() as i16) + block_bytes(m.vertices, m.format),
        run(runs_bytes(m), indices_from(m), 2 + 6 * m.indices.len()) == triangle_list_bytes(
            m.indices,
        ),
        run(runs_bytes(m), materials_from(m), 2 + 2 * m.materials.len()) == i16_list_bytes(
            m.materials,
        ),
        run(runs_bytes(m), strips_from(m), 2 + 2 * m.strips.len()) == i16_list_bytes(m.strips),
        run(runs_bytes(m), pool_from(m), 2) == i16_bytes(m.pool),
{
    let r = runs_bytes(m);
    let c0 = i16_list_bytes(m.bones);
    let c1 = i16_bytes(m.vertices.len() as i16);
    let c2 = block_bytes(m.vertices, m.format);
    let c3 = triangle_list_bytes(m.indices);
    let c4 = i16_list_bytes(m.materials);
    let c5 = i16_list_bytes(m.strips);
    let c6 = i16_bytes(m.pool);
    let q1 = c0;
    let q2 = q1 + c1;
    let q3 = q2 + c2;
    let q4 = q3 + c3;
    let q5 = q4 + c4;
    let q6 = q5 + c5;
    lemma_joined_fixed(m.bones, |x: i16| i16_bytes(x), 2);
    lemma_joined_fixed(m.indices, |x: Vector3<i16>| vector3_i16_bytes(x), 6);
    lemma_joined_fixed(m.materials, |x: i16| i16_bytes(x), 2);
    lemma_joined_fixed(m.strips, |x: i16| i16_bytes(x), 2);
    reveal(runs_bytes);
    lemma_block_len(m.vertices, m.format);
    assert(r == q6 + c6);
    assert(r.take(r.len() as int) =~= r);
    lemma_chunk(r, q6, c6);
    lemma_chunk(r, q5, c5);
    lemma_chunk(r, q4, c4);
    lemma_chunk(r, q3, c3);
    lemma_concat_assoc(q1, c1, c2);
    lemma_chunk(r, q1, c1 + c2);
    assert(Seq::<u8>::empty() + c0 =~= q1);
    lemma_chunk(r, Seq::<u8>::empty(), c0);
}

/// The head and the runs of a written model, each where it stands.
pub proof fn lemma_model_halves(m: ModelData)
    ensures
        model_bytes(m).len() == pool_place(m) + 2,
        run(model_bytes(m), 0, 36) == head_bytes(m),
        run(model_bytes(m), 36, runs_bytes(m).len()) == runs_bytes(m),
{
    let e = model_bytes(m);
    lemma_head_fields(m);
    lemma_runs_fields(m);
    assert(e.take(e.len() as int) =~= e);
    lemma_chunk(e, head_bytes(m), runs_bytes(m));
    assert(run(e, 0, 36) =~= e.take(36));
}

/// The body of a model is what its sections are.
pub proof fn lemma_body_of_sections(
    e: Seq<u8>,
    p: nat,
    identifier: Seq<char>,
    version: nat,
    m: ModelData,
    p1: nat,
    p2: nat,
    p3: nat,
    p4: nat,
    p5: nat,
    end: nat,
)
    requires
        fits(e, p, 28),
        m.identifier == identifier,
        i32_at(e, p) == m.format,
        vector3_f32_at(e, p + 4) == m.bounding_box.min,
        vector3_f32_at(e, p + 16) == m.bounding_box.max,
        i16_list_at(e, p + 28) == Some((m.bones, p1)),
        vertex_list_at(e, p1, m.format) == Some((m.vertices, p2)),
        triangle_list_at(e, p2) == Some((m.indices, p3)),
        i16_list_at(e, p3) == Some((m.materials, p4)),
        i16_list_at(e, p4) == Some((m.strips, p5)),
        pool_at(e, p5, version) == Some((m.pool, end)),
    ensures
        body_at(e, p, identifier, version) == Some((m, end)),
{
    reveal(body_at);
    let found = body_at(e, p, identifier, version);
    assert(found is Some);
    let (got, stop) = found->0;
    assert(got.bounding_box == m.bounding_box);
    assert(got =~= m);
}

/// The head of a written model reads back: its identifier, its bitmask and
/// its bounding box.
pub proof fn lemma_head_reads_back(m: ModelData)
    ensures
        fits(model_bytes(m), 8, 28),
        cstring_at(model_bytes(m), 0) == Some((written_identifier(), 8nat)),
        i32_at(model_bytes(m), 8) == m.format,
        vector3_f32_at(model_bytes(m), 12) == m.bounding_box.min,
        vector3_f32_at(model_bytes(m), 24) == m.bounding_box.max,
{
    let e = model_bytes(m);
    let h = head_bytes(m);
    lemma_model_halves(m);
    lemma_head_fields(m);
    lemma_written_identifier();
    lemma_run_within(e, 0, h, 0, 8);
    lemma_run_within(e, 0, h, 8, 4);
    lemma_run_within(e, 0, h, 12, 12);
    lemma_run_within(e, 0, h, 24, 12);
    lemma_cstring_at(e, 0, written_identifier());
    lemma_i32_at(e, 8, m.format);
    lemma_vector3_f32_at(e, 12, m.bounding_box.min);
    lemma_vector3_f32_at(e, 24, m.bounding_box.max);
}

/// The runs of a written model read back.
pub proof fn lemma_runs_read_back(m: ModelData)
    requires
        model_encodable(m),
    ensures
        i16_list_at(model_bytes(m), 36) == Some((m.bones, vertices_place(m))),
        triangle_list_at(model_bytes(m), indices_place(m)) == Some(
            (m.indices, materials_place(m)),
        ),
        i16_list_at(model_bytes(m), materials_place(m)) == Some((m.materials, strips_place(m))),
        i16_list_at(model_bytes(m), strips_place(m)) == Some((m.strips, pool_place(m))),
        pool_at(model_bytes(m), pool_place(m), 8) == Some((m.pool, model_bytes(m).len())),
{
    let e = model_bytes(m);
    let r = runs_bytes(m);
    lemma_model_halves(m);
    lemma_runs_fields(m);
    assert(i16_list_at(e, 36) == Some((m.bones, vertices_place(m)))) by {
        lemma_run_within(e, 36, r, 0, 2 + 2 * m.bones.len());
        lemma_i16_list_at(e, 36, m.bones);
    }
    assert(triangle_list_at(e, indices_place(m)) == Some((m.indices, materials_place(m)))) by {
        lemma_run_within(e, 36, r, indices_from(m), 2 + 6 * m.indices.len());
        lemma_triangle_list_at(e, indices_place(m), m.indices);
    }
    assert(i16_list_at(e, materials_place(m)) == Some((m.materials, strips_place(m)))) by {
        lemma_run_within(e, 36, r, materials_from(m), 2 + 2 * m.materials.len());
        lemma_i16_list_at(e, materials_place(m), m.materials);
    }
    assert(i16_list_at(e, strips_place(m)) == Some((m.strips, pool_place(m)))) by {
        lemma_run_within(e, 36, r, strips_from(m), 2 + 2 * m.strips.len());
        lemma_i16_list_at(e, strips_place(m), m.strips);
    }
    assert(pool_at(e, pool_place(m), 8) == Some((m.pool, e.len()))) by {
        lemma_run_within(e, 36, r, pool_from(m), 2);
        lemma_i16_at(e, pool_place(m), m.pool);
    }
}

/// The vertices of a written model read back as the model carries them.
pub proof fn lemma_vertices_read_back(m: ModelData)
    requires
        model_encodable(m),
    ensures
        vertex_list_at(model_bytes(m), vertices_place(m), m.format) == Some(
            (carried_all(m.vertices, m.format), indices_place(m)),
        ),
{
    let e = model_bytes(m);
    lemma_model_halves(m);
    lemma_runs_fields(m);
    lemma_run_within(
        e,
        36,
        runs_bytes(m),
        vertices_from(m),
        2 + block_len(m.format, m.vertices.len()),
    );
    lemma_vertex_list_at(e, vertices_place(m), m.vertices, m.format);
}

/// Every model that can be written reads back from its bytes as it is, but
/// for the identifier, which is that of the newest version, and for the
/// attributes that its bitmask does not enable, which are zero; and the read
/// consumes all the bytes.
pub proof fn law_written_model_reads_back(m: ModelData)
    requires
        model_encodable(m),
    ensures
        model_at(model_bytes(m), 0) == Ok::<(ModelData, nat), Error>(
            (written(m), model_bytes(m).len()),
        ),
{
    let e = model_bytes(m);
    let id = written_identifier();
    assert(cstring_at(e, 0) == Some((id, 8nat))) by {
        lemma_head_reads_back(m);
    }
    assert(version_of(id) == Some(8nat)) by {
        lemma_written_identifier();
    }
    assert(body_at(e, 8, id, 8) == Some((written(m), e.len()))) by {
        lemma_head_reads_back(m);
        lemma_runs_read_back(m);
        lemma_vertices_read_back(m);
        lemma_body_of_sections(
            e,
            8,
            id,
            8,
            written(m),
            vertices_place(m),
            indices_place(m),
            materials_place(m),
            strips_place(m),
            pool_place(m),
            e.len(),
        );
    }
}

/// A model that was read can be written, and its vertices are already as a
/// model with its bitmask carries them.
pub proof fn lemma_read_model_is_written(s: Seq<u8>, pos: nat)
    requires
        model_at(s, pos) is Ok,
    ensures
        ({
            let m = model_at(s, pos)->Ok_0.0;
            model_encodable(m) && carried_all(m.vertices, m.format) == m.vertices
        }),
{
    reveal(body_at);
    let (identifier, p) = cstring_at(s, pos)->0;
    let version = version_of(identifier)->0;
    let (m, end) = body_at(s, p, identifier, version)->0;
    let (bones, p1) = i16_list_at(s, p + 28)->0;
    let (vertices, p2) = vertex_list_at(s, p1, m.format)->0;
    let (indices, p3) = triangle_list_at(s, p2)->0;
    let (materials, p4) = i16_list_at(s, p3)->0;
    let (strips, p5) = i16_list_at(s, p4)->0;
    assert(m.bones == bones);
    assert(m.vertices == vertices);
    assert(m.indices == indices);
    assert(m.materials == materials);
    assert(m.strips == strips);
    let n = count_at(s, p1);
    assert forall|k: int| 0 <= k < n implies #[trigger] carried_all(vertices, m.format)[k]
        == vertices[k] by {
        law_columns_left_blank(s, p1 + 2, m.format, n, k as nat);
    }
    assert(carried_all(m.vertices, m.format) =~= m.vertices);
}

/// A model that was read, written and read again is the model that was
/// read first, but for the identifier, which is that of the newest version.
pub proof fn law_model_round_trip(s: Seq<u8>, pos: nat)
    requires
        model_at(s, pos) is Ok,
    ensures
        ({
            let m = model_at(s, pos)->Ok_0.0;
            &&& model_encodable(m)
            &&& model_at(model_bytes(m), 0) == Ok::<(ModelData, nat), Error>(
                (ModelData { identifier: written_identifier(), ..m }, model_bytes(m).len()),
            )
        }),
{
    let m = model_at(s, pos)->Ok_0.0;
    lemma_read_model_is_written(s, pos);
    law_written_model_reads_back(m);
}

/// Where the identifier at the head of a stream is not a known one, the
/// read fails with `Error::UnsupportedVersion`, and the cursor stops right
/// after the identifier: nothing of what follows it is consumed.
pub proof fn law_unknown_identifier(s: Seq<u8>, pos: nat)
    ensures
        match cstring_at(s, pos) {
            Some((identifier, next)) => version_of(identifier) is None ==> model_at(s, pos)
                == Err::<(ModelData, nat), Error>(Error::UnsupportedVersion) && model_stop(s, pos)
                == next,
            None => model_at(s, pos) == Err::<(ModelData, nat), Error>(Error::UnexpectedEof),
        },
{
}

/// The bytes that the block of `n` vertices takes are those of the columns
/// whose bits are set, and of no other: twelve for each position, normal
/// and tangent, sixteen for each colour, eight for each texture coordinate,
/// and twenty-four for the bone weights and indices of a vertex, which are
/// there only where both of their bits are set.
pub proof fn law_columns_consumed(format: i32, n: nat)
    ensures
        block_len(format, n) == (if VertFormat::Position.spec_is_set(format) {
            12 * n
        } else {
            0
        }) + (if VertFormat::Normal.spec_is_set(format) {
            12 * n
        } else {
            0
        }) + (if VertFormat::Color.spec_is_set(format) {
            16 * n
        } else {
            0
        }) + (if VertFormat::BoneWeight.spec_is_set(format) && VertFormat::BoneIndex.spec_is_set(
            format,
        ) {
            24 * n
        } else {
            0
        }) + (if VertFormat::Tangent.spec_is_set(format) {
            12 * n
        } else {
            0
        }) + (if VertFormat::UV1.spec_is_set(format) {
            8 * n
        } else {
            0
        }) + (if VertFormat::UV2.spec_is_set(format) {
            8 * n
        } else {
            0
        }) + (if VertFormat::UV3.spec_is_set(format) {
            8 * n
        } else {
            0
        }) + (if VertFormat::UV4.spec_is_set(format) {
            8 * n
        } else {
            0
        }),
        !(VertFormat::BoneWeight.spec_is_set(format) && VertFormat::BoneIndex.spec_is_set(format))
            ==> Column::Bones.span(format, n) == 0,
{
}

/// A vertex that was read holds zero in every attribute whose column the
/// bitmask does not enable.
pub proof fn law_columns_left_blank(s: Seq<u8>, base: nat, format: i32, n: nat, k: nat)
    ensures
        carried(vertex_at(s, base, format, n, k), format) == vertex_at(s, base, format, n, k),
{
    reveal(Column::filled);
}

} // verus!

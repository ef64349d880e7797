//! What holds of the lightmap table: a table that was written reads back
//! as it was.

use crate::io::round_trip::{
    lemma_chunk, lemma_i32_at, lemma_run_within, lemma_string_u8_at, settled,
};
use crate::io::runs::{joined, lemma_repeated_joined, repeated};
use crate::io::text::text_bytes;
use crate::io::wire::{i32_at, i32_bytes, run, string_u8_at, string_u8_bytes};
use crate::lightmap::{
    lightmap_at, lightmap_bytes, lightmap_encodable, object_at, object_bytes, object_encodable,
    part_at, part_bytes, part_encodable, LightmapData, ObjectData, PartData,
};
use vstd::prelude::*;

verus! {

/// A part reads back as it is: its two texts are settled.
pub open spec fn part_settled(part: PartData) -> bool {
    settled(part.name) && settled(part.filename)
}

/// An object reads back as it is.
pub open spec fn object_settled(object: ObjectData) -> bool {
    forall|k: int| 0 <= k < object.parts.len() ==> part_settled(#[trigger] object.parts[k])
}

/// A lightmap table reads back as it is.
pub open spec fn lightmap_settled(table: LightmapData) -> bool {
    &&& forall|k: int| 0 <= k < table.objects.len() ==> object_settled(#[trigger] table.objects[k])
    &&& forall|k: int| 0 <= k < table.filenames.len() ==> settled(#[trigger] table.filenames[k])
}

/// The bytes of a part, field by field.
pub proof fn lemma_part_fields(part: PartData)
    ensures
        ({
            let b = part_bytes(part);
            let l = string_u8_bytes(part.name).len();
            let m = string_u8_bytes(part.filename).len();
            &&& l == 1 + text_bytes(part.name).len()
            &&& m == 1 + text_bytes(part.filename).len()
            &&& b.len() == l + 4 + m + 16
            &&& run(b, 0, l) == string_u8_bytes(part.name)
            &&& run(b, l, 4) == i32_bytes(part.id)
            &&& run(b, l + 4, m) == string_u8_bytes(part.filename)
            &&& run(b, l + 4 + m, 4) == i32_bytes(part.lightmap_index)
            &&& run(b, l + 8 + m, 4) == i32_bytes(part.pixels_per_part)
            &&& run(b, l + 12 + m, 4) == i32_bytes(part.parts_per_width)
            &&& run(b, l + 16 + m, 4) == i32_bytes(part.part_position)
        }),
{
    let b = part_bytes(part);
    let c0 = string_u8_bytes(part.name);
    let c1 = i32_bytes(part.id);
    let c2 = string_u8_bytes(part.filename);
    let c3 = i32_bytes(part.lightmap_index);
    let c4 = i32_bytes(part.pixels_per_part);
    let c5 = i32_bytes(part.parts_per_width);
    let c6 = i32_bytes(part.part_position);
    let q0 = Seq::<u8>::empty();
    let q1 = c0;
    let q2 = q1 + c1;
    let q3 = q2 + c2;
    let q4 = q3 + c3;
    let q5 = q4 + c4;
    let q6 = q5 + c5;
    reveal(part_bytes);
    assert(b == q6 + c6);
    assert(b.take(b.len() as int) =~= b);
    lemma_chunk(b, q6, c6);
    lemma_chunk(b, q5, c5);
    lemma_chunk(b, q4, c4);
    lemma_chunk(b, q3, c3);
    lemma_chunk(b, q2, c2);
    lemma_chunk(b, q1, c1);
    assert(q0 + c0 =~= q1);
    lemma_chunk(b, q0, c0);
}

/// A part reads back from its bytes.
pub proof fn lemma_part_at(e: Seq<u8>, q: nat, part: PartData)
    requires
        q + part_bytes(part).len() <= e.len(),
        run(e, q, part_bytes(part).len()) == part_bytes(part),
        part_encodable(part),
        part_settled(part),
    ensures
        part_at(e, q) == Some((part, (q + part_bytes(part).len()) as nat)),
{
    let b = part_bytes(part);
    let l = string_u8_bytes(part.name).len();
    let m = string_u8_bytes(part.filename).len();
    let p1 = (q + l) as nat;
    let p2 = (p1 + 4 + m) as nat;
    lemma_part_fields(part);
    assert(string_u8_at(e, q) == Some((part.name, p1))) by {
        lemma_run_within(e, q, b, 0, l);
        lemma_string_u8_at(e, q, part.name);
    }
    assert(i32_at(e, p1) == part.id) by {
        lemma_run_within(e, q, b, l, 4);
        lemma_i32_at(e, p1, part.id);
    }
    assert(string_u8_at(e, p1 + 4) == Some((part.filename, p2))) by {
        lemma_run_within(e, q, b, l + 4, m);
        lemma_string_u8_at(e, p1 + 4, part.filename);
    }
    assert(i32_at(e, p2) == part.lightmap_index) by {
        lemma_run_within(e, q, b, l + 4 + m, 4);
        lemma_i32_at(e, p2, part.lightmap_index);
    }
    assert(i32_at(e, p2 + 4) == part.pixels_per_part) by {
        lemma_run_within(e, q, b, l + 8 + m, 4);
        lemma_i32_at(e, p2 + 4, part.pixels_per_part);
    }
    assert(i32_at(e, p2 + 8) == part.parts_per_width) by {
        lemma_run_within(e, q, b, l + 12 + m, 4);
        lemma_i32_at(e, p2 + 8, part.parts_per_width);
    }
    assert(i32_at(e, p2 + 12) == part.part_position) by {
        lemma_run_within(e, q, b, l + 16 + m, 4);
        lemma_i32_at(e, p2 + 12, part.part_position);
    }
}

/// An object reads back from its bytes.
pub proof fn lemma_object_at(e: Seq<u8>, q: nat, object: ObjectData)
    requires
        q + object_bytes(object).len() <= e.len(),
        run(e, q, object_bytes(object).len()) == object_bytes(object),
        object_encodable(object),
        object_settled(object),
    ensures
        object_at(e, q) == Some((object, (q + object_bytes(object).len()) as nat)),
{
    let parts = object.parts;
    let b = object_bytes(object);
    let item = |part: PartData| part_bytes(part);
    let parse = |s: Seq<u8>, p: nat| part_at(s, p);
    let c0 = i32_bytes(parts.len() as i32);
    let c1 = i32_bytes(object.id);
    let c2 = joined(parts, item);
    let q1 = c0;
    let q2 = q1 + c1;
    reveal(object_bytes);
    assert(b == q2 + c2);
    assert(b.take(b.len() as int) =~= b);
    lemma_chunk(b, q2, c2);
    lemma_chunk(b, q1, c1);
    assert(Seq::<u8>::empty() + c0 =~= q1);
    lemma_chunk(b, Seq::<u8>::empty(), c0);
    lemma_run_within(e, q, b, 0, 4);
    lemma_run_within(e, q, b, 4, 4);
    lemma_run_within(e, q, b, 8, c2.len());
    lemma_i32_at(e, q, parts.len() as i32);
    lemma_i32_at(e, q + 4, object.id);
    assert forall|p: nat, k: int|
        #![trigger parse(e, p), parts[k]]
        0 <= k < parts.len() && p + item(parts[k]).len() <= e.len() && run(
            e,
            p,
            item(parts[k]).len(),
        ) == item(parts[k]) implies parse(e, p) == Some(
        (parts[k], (p + item(parts[k]).len()) as nat),
    ) by {
        lemma_part_at(e, p, parts[k]);
    }
    lemma_repeated_joined(e, q + 8, parts, parse, item);
    let found = object_at(e, q);
    assert(found is Some);
}

/// Every lightmap table that can be written, and whose texts are settled,
/// reads back from its bytes as it is, wherever in a stream the bytes
/// stand, and the read stops after them.
pub proof fn law_written_lightmap_reads_back(e: Seq<u8>, start: nat, table: LightmapData)
    requires
        start + lightmap_bytes(table).len() <= e.len(),
        run(e, start, lightmap_bytes(table).len()) == lightmap_bytes(table),
        lightmap_encodable(table),
        lightmap_settled(table),
    ensures
        lightmap_at(e, start) == Some((table, (start + lightmap_bytes(table).len()) as nat)),
{
    let objects = table.objects;
    let names = table.filenames;
    let b = lightmap_bytes(table);
    let object_item = |object: ObjectData| object_bytes(object);
    let object_parse = |s: Seq<u8>, p: nat| object_at(s, p);
    let name_item = |text: Seq<char>| string_u8_bytes(text);
    let name_parse = |s: Seq<u8>, p: nat| string_u8_at(s, p);
    let c0 = i32_bytes(objects.len() as i32);
    let c1 = joined(objects, object_item);
    let c2 = i32_bytes(names.len() as i32);
    let c3 = joined(names, name_item);
    let q1 = c0;
    let q2 = q1 + c1;
    let q3 = q2 + c2;
    reveal(lightmap_bytes);
    assert(b == q3 + c3);
    assert(b.take(b.len() as int) =~= b);
    lemma_chunk(b, q3, c3);
    lemma_chunk(b, q2, c2);
    lemma_chunk(b, q1, c1);
    assert(Seq::<u8>::empty() + c0 =~= q1);
    lemma_chunk(b, Seq::<u8>::empty(), c0);
    lemma_run_within(e, start, b, 0, 4);
    lemma_run_within(e, start, b, 4, c1.len());
    lemma_run_within(e, start, b, 4 + c1.len(), 4);
    lemma_run_within(e, start, b, 8 + c1.len(), c3.len());
    lemma_i32_at(e, start, objects.len() as i32);
    assert forall|p: nat, k: int|
        #![trigger object_parse(e, p), objects[k]]
        0 <= k < objects.len() && p + object_item(objects[k]).len() <= e.len() && run(
            e,
            p,
            object_item(objects[k]).len(),
        ) == object_item(objects[k]) implies object_parse(e, p) == Some(
        (objects[k], (p + object_item(objects[k]).len()) as nat),
    ) by {
        lemma_object_at(e, p, objects[k]);
    }
    lemma_repeated_joined(e, start + 4, objects, object_parse, object_item);
    let p1 = (start + 4 + c1.len()) as nat;
    lemma_i32_at(e, p1, names.len() as i32);
    assert forall|p: nat, k: int|
        #![trigger name_parse(e, p), names[k]]
        0 <= k < names.len() && p + name_item(names[k]).len() <= e.len() && run(
            e,
            p,
            name_item(names[k]).len(),
        ) == name_item(names[k]) implies name_parse(e, p) == Some(
        (names[k], (p + name_item(names[k]).len()) as nat),
    ) by {
        lemma_string_u8_at(e, p, names[k]);
    }
    lemma_repeated_joined(e, p1 + 4, names, name_parse, name_item);
    let found = lightmap_at(e, start);
    assert(found is Some);
}

} // verus!

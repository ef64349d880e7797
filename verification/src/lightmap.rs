//! The lightmap table: which part of which lightmap image belongs to which
//! object of a map, used for lighting that was baked in advance.

use crate::errors::Error;
use crate::io::reader::ReadRoseExt;
use crate::io::runs::{
    count32, countable32, joined, lemma_concat_assoc, lemma_joined_take, lemma_kept_twice,
    lemma_repeated_fails, lemma_wrote_kept, read_count32, record_yields, repeated,
    written_or_refused,
};
use crate::io::stream::SeekRoseExt;
use crate::io::text::text_bytes;
use crate::io::wire::{fits, fixed, i32_at, i32_bytes, string_u8_at, string_u8_bytes, wrote};
use crate::io::writer::{lemma_wrote_twice, WriteRoseExt};
use vstd::prelude::*;

verus! {

/// All the lightmap data of a map.
#[derive(Debug)]
pub struct Lightmap {
    pub objects: Vec<LightmapObject>,
    pub filenames: Vec<String>,
}

/// One object of the map, and its parts.
#[derive(Debug)]
pub struct LightmapObject {
    pub id: i32,
    pub parts: Vec<LightmapPart>,
}

/// One part of an object: where in which lightmap image its light is kept.
#[derive(Debug)]
pub struct LightmapPart {
    pub name: String,
    pub id: i32,
    pub filename: String,
    pub lightmap_index: i32,
    pub pixels_per_part: i32,
    pub parts_per_width: i32,
    pub part_position: i32,
}

/// A part as the contracts see it.
pub struct PartData {
    pub name: Seq<char>,
    pub id: i32,
    pub filename: Seq<char>,
    pub lightmap_index: i32,
    pub pixels_per_part: i32,
    pub parts_per_width: i32,
    pub part_position: i32,
}

/// An object as the contracts see it.
pub struct ObjectData {
    pub id: i32,
    pub parts: Seq<PartData>,
}

/// A lightmap table as the contracts see it.
#[verifier::ext_equal]
pub struct LightmapData {
    pub objects: Seq<ObjectData>,
    pub filenames: Seq<Seq<char>>,
}

impl View for LightmapPart {
    type V = PartData;

    open spec fn view(&self) -> PartData {
        PartData {
            name: self.name@,
            id: self.id,
            filename: self.filename@,
            lightmap_index: self.lightmap_index,
            pixels_per_part: self.pixels_per_part,
            parts_per_width: self.parts_per_width,
            part_position: self.part_position,
        }
    }
}

/// The parts of a run, each as the contracts see it.
pub open spec fn parts_view(parts: Seq<LightmapPart>) -> Seq<PartData> {
    parts.map_values(|part: LightmapPart| part@)
}

impl View for LightmapObject {
    type V = ObjectData;

    open spec fn view(&self) -> ObjectData {
        ObjectData { id: self.id, parts: parts_view(self.parts@) }
    }
}

/// The objects of a run, each as the contracts see it.
pub open spec fn objects_view(objects: Seq<LightmapObject>) -> Seq<ObjectData> {
    objects.map_values(|object: LightmapObject| object@)
}

/// The texts of a run, each by its characters.
pub open spec fn texts_view(texts: Seq<String>) -> Seq<Seq<char>> {
    texts.map_values(|text: String| text@)
}

impl View for Lightmap {
    type V = LightmapData;

    open spec fn view(&self) -> LightmapData {
        LightmapData {
            objects: objects_view(self.objects@),
            filenames: texts_view(self.filenames@),
        }
    }
}

/// The part that stands at `pos`: its name after a length of one byte, its
/// id, the name of its image after a length of one byte, and four 32-bit
/// integers.
pub open spec fn part_at(s: Seq<u8>, pos: nat) -> Option<(PartData, nat)> {
    match string_u8_at(s, pos) {
        None => None,
        Some((name, p1)) => if !fits(s, p1, 4) {
            None
        } else {
            match string_u8_at(s, p1 + 4) {
                None => None,
                Some((filename, p2)) => fixed(
                    s,
                    p2,
                    16,
                    PartData {
                        name,
                        id: i32_at(s, p1),
                        filename,
                        lightmap_index: i32_at(s, p2),
                        pixels_per_part: i32_at(s, p2 + 4),
                        parts_per_width: i32_at(s, p2 + 8),
                        part_position: i32_at(s, p2 + 12),
                    },
                ),
            }
        },
    }
}

/// The object that stands at `pos`: the count of its parts, its id, and the
/// parts.
pub open spec fn object_at(s: Seq<u8>, pos: nat) -> Option<(ObjectData, nat)> {
    if !fits(s, pos, 8) {
        None
    } else {
        match repeated(
            s,
            pos + 8,
            count32(i32_at(s, pos)),
            |s: Seq<u8>, p: nat| part_at(s, p),
        ) {
            None => None,
            Some((parts, end)) => Some((ObjectData { id: i32_at(s, pos + 4), parts }, end)),
        }
    }
}

/// The lightmap table that stands at `pos`: a count and that many objects,
/// then a count and that many names of images.
pub open spec fn lightmap_at(s: Seq<u8>, pos: nat) -> Option<(LightmapData, nat)> {
    if !fits(s, pos, 4) {
        None
    } else {
        match repeated(
            s,
            pos + 4,
            count32(i32_at(s, pos)),
            |s: Seq<u8>, p: nat| object_at(s, p),
        ) {
            None => None,
            Some((objects, p1)) => if !fits(s, p1, 4) {
                None
            } else {
                match repeated(
                    s,
                    p1 + 4,
                    count32(i32_at(s, p1)),
                    |s: Seq<u8>, p: nat| string_u8_at(s, p),
                ) {
                    None => None,
                    Some((filenames, end)) => Some((LightmapData { objects, filenames }, end)),
                }
            },
        }
    }
}

/// A text can be written after a length of one byte.
pub open spec fn short_text(text: Seq<char>) -> bool {
    text_bytes(text).len() <= 0xff
}

/// A part can be written: its two texts are short enough.
pub open spec fn part_encodable(part: PartData) -> bool {
    short_text(part.name) && short_text(part.filename)
}

/// An object can be written: its parts can be counted and written.
pub open spec fn object_encodable(object: ObjectData) -> bool {
    &&& countable32(object.parts.len())
    &&& forall|k: int| 0 <= k < object.parts.len() ==> part_encodable(#[trigger] object.parts[k])
}

/// A lightmap table can be written: its objects and names can be counted
/// and written.
pub open spec fn lightmap_encodable(table: LightmapData) -> bool {
    &&& countable32(table.objects.len())
    &&& forall|k: int|
        0 <= k < table.objects.len() ==> object_encodable(#[trigger] table.objects[k])
    &&& countable32(table.filenames.len())
    &&& forall|k: int| 0 <= k < table.filenames.len() ==> short_text(#[trigger] table.filenames[k])
}

/// The bytes of a part.
#[verifier::opaque]
pub open spec fn part_bytes(part: PartData) -> Seq<u8> {
    string_u8_bytes(part.name) + i32_bytes(part.id) + string_u8_bytes(part.filename) + i32_bytes(
        part.lightmap_index,
    ) + i32_bytes(part.pixels_per_part) + i32_bytes(part.parts_per_width) + i32_bytes(
        part.part_position,
    )
}

/// The bytes of an object.
#[verifier::opaque]
pub open spec fn object_bytes(object: ObjectData) -> Seq<u8> {
    i32_bytes(object.parts.len() as i32) + i32_bytes(object.id) + joined(
        object.parts,
        |part: PartData| part_bytes(part),
    )
}

/// The bytes of a lightmap table.
#[verifier::opaque]
pub open spec fn lightmap_bytes(table: LightmapData) -> Seq<u8> {
    i32_bytes(table.objects.len() as i32) + joined(
        table.objects,
        |object: ObjectData| object_bytes(object),
    ) + i32_bytes(table.filenames.len() as i32) + joined(
        table.filenames,
        |text: Seq<char>| string_u8_bytes(text),
    )
}

impl LightmapPart {
    /// The part that `new` makes.
    pub open spec fn blank() -> PartData {
        PartData {
            name: Seq::<char>::empty(),
            id: (-1i32),
            filename: Seq::<char>::empty(),
            lightmap_index: (-1i32),
            pixels_per_part: 0,
            parts_per_width: 0,
            part_position: (-1i32),
        }
    }

    /// A part without texts, its ids unset.
    pub fn new() -> (part: LightmapPart)
        ensures
            part@ == LightmapPart::blank(),
    {
        LightmapPart {
            name: String::new(),
            id: -1,
            filename: String::new(),
            lightmap_index: -1,
            pixels_per_part: 0,
            parts_per_width: 0,
            part_position: -1,
        }
    }
}

impl LightmapObject {
    /// An object without parts, its id unset.
    pub fn new() -> (object: LightmapObject)
        ensures
            object.id == -1,
            object.parts@.len() == 0,
            object@ == (ObjectData { id: (-1i32), parts: Seq::<PartData>::empty() }),
    {
        let object = LightmapObject { id: -1, parts: Vec::new() };
        proof {
            assert(object@.parts =~= Seq::<PartData>::empty());
        }
        object
    }
}

fn read_part<R: ReadRoseExt>(reader: &mut R) -> (r: Result<LightmapPart, Error>)
    ensures
        final(reader).stream() == old(reader).stream(),
        record_yields(
            r,
            final(reader).offset(),
            part_at(old(reader).stream(), old(reader).offset()),
            old(reader).stream().len(),
        ),
{
    let name = reader.read_string_u8()?;
    let id = reader.read_i32()?;
    let filename = reader.read_string_u8()?;
    let lightmap_index = reader.read_i32()?;
    let pixels_per_part = reader.read_i32()?;
    let parts_per_width = reader.read_i32()?;
    let part_position = reader.read_i32()?;
    Ok(
        LightmapPart {
            name,
            id,
            filename,
            lightmap_index,
            pixels_per_part,
            parts_per_width,
            part_position,
        },
    )
}

fn read_object<R: ReadRoseExt>(reader: &mut R) -> (r: Result<LightmapObject, Error>)
    ensures
        final(reader).stream() == old(reader).stream(),
        record_yields(
            r,
            final(reader).offset(),
            object_at(old(reader).stream(), old(reader).offset()),
            old(reader).stream().len(),
        ),
{
    let ghost s = reader.stream();
    let ghost item = |s: Seq<u8>, p: nat| part_at(s, p);
    let n = read_count32(reader)?;
    let id = reader.read_i32()?;
    let ghost base = reader.offset();
    let mut parts: Vec<LightmapPart> = Vec::new();
    proof {
        assert(parts_view(parts@) =~= Seq::<PartData>::empty());
    }
    let mut i: usize = 0;
    while i < n
        invariant
            reader.stream() == s,
            s == old(reader).stream(),
            item == (|s: Seq<u8>, p: nat| part_at(s, p)),
            fits(s, old(reader).offset(), 8),
            base == old(reader).offset() + 8,
            n == count32(i32_at(s, old(reader).offset())),
            i <= n,
            repeated(s, base, i as nat, item) == Some((parts_view(parts@), reader.offset())),
        decreases n - i,
    {
        let ghost before = parts@;
        match read_part(reader) {
            Ok(part) => {
                parts.push(part);
                proof {
                    assert(parts_view(parts@) =~= parts_view(before).push(part@));
                }
            },
            Err(e) => {
                proof {
                    assert(repeated(s, base, (i + 1) as nat, item) is None);
                    lemma_repeated_fails(s, base, (i + 1) as nat, n as nat, item);
                }
                return Err(e);
            },
        }
        i += 1;
    }
    Ok(LightmapObject { id, parts })
}

fn read_objects<R: ReadRoseExt>(reader: &mut R) -> (r: Result<Vec<LightmapObject>, Error>)
    ensures
        final(reader).stream() == old(reader).stream(),
        ({
            let s = old(reader).stream();
            let pos = old(reader).offset();
            let want = if fits(s, pos, 4) {
                repeated(
                    s,
                    pos + 4,
                    count32(i32_at(s, pos)),
                    |s: Seq<u8>, p: nat| object_at(s, p),
                )
            } else {
                None
            };
            match want {
                Some((objects, end)) => r is Ok && objects_view(r->Ok_0@) == objects
                    && final(reader).offset() == end,
                None => r is Err && r->Err_0 == Error::UnexpectedEof && final(reader).offset()
                    == s.len(),
            }
        }),
{
    let ghost s = reader.stream();
    let ghost item = |s: Seq<u8>, p: nat| object_at(s, p);
    let n = read_count32(reader)?;
    let ghost base = reader.offset();
    let mut objects: Vec<LightmapObject> = Vec::new();
    proof {
        assert(objects_view(objects@) =~= Seq::<ObjectData>::empty());
    }
    let mut i: usize = 0;
    while i < n
        invariant
            reader.stream() == s,
            s == old(reader).stream(),
            item == (|s: Seq<u8>, p: nat| object_at(s, p)),
            fits(s, old(reader).offset(), 4),
            base == old(reader).offset() + 4,
            n == count32(i32_at(s, old(reader).offset())),
            i <= n,
            repeated(s, base, i as nat, item) == Some((objects_view(objects@), reader.offset())),
        decreases n - i,
    {
        let ghost before = objects@;
        match read_object(reader) {
            Ok(object) => {
                objects.push(object);
                proof {
                    assert(objects_view(objects@) =~= objects_view(before).push(object@));
                }
            },
            Err(e) => {
                proof {
                    assert(repeated(s, base, (i + 1) as nat, item) is None);
                    lemma_repeated_fails(s, base, (i + 1) as nat, n as nat, item);
                }
                return Err(e);
            },
        }
        i += 1;
    }
    Ok(objects)
}

fn read_filenames<R: ReadRoseExt>(reader: &mut R) -> (r: Result<Vec<String>, Error>)
    ensures
        final(reader).stream() == old(reader).stream(),
        ({
            let s = old(reader).stream();
            let pos = old(reader).offset();
            let want = if fits(s, pos, 4) {
                repeated(
                    s,
                    pos + 4,
                    count32(i32_at(s, pos)),
                    |s: Seq<u8>, p: nat| string_u8_at(s, p),
                )
            } else {
                None
            };
            match want {
                Some((texts, end)) => r is Ok && texts_view(r->Ok_0@) == texts
                    && final(reader).offset() == end,
                None => r is Err && r->Err_0 == Error::UnexpectedEof && final(reader).offset()
                    == s.len(),
            }
        }),
{
    let ghost s = reader.stream();
    let ghost item = |s: Seq<u8>, p: nat| string_u8_at(s, p);
    let n = read_count32(reader)?;
    let ghost base = reader.offset();
    let mut texts: Vec<String> = Vec::new();
    proof {
        assert(texts_view(texts@) =~= Seq::<Seq<char>>::empty());
    }
    let mut i: usize = 0;
    while i < n
        invariant
            reader.stream() == s,
            s == old(reader).stream(),
            item == (|s: Seq<u8>, p: nat| string_u8_at(s, p)),
            fits(s, old(reader).offset(), 4),
            base == old(reader).offset() + 4,
            n == count32(i32_at(s, old(reader).offset())),
            i <= n,
            repeated(s, base, i as nat, item) == Some((texts_view(texts@), reader.offset())),
        decreases n - i,
    {
        let ghost before = texts@;
        match reader.read_string_u8() {
            Ok(text) => {
                texts.push(text);
                proof {
                    assert(texts_view(texts@) =~= texts_view(before).push(text@));
                }
            },
            Err(e) => {
                proof {
                    assert(repeated(s, base, (i + 1) as nat, item) is None);
                    lemma_repeated_fails(s, base, (i + 1) as nat, n as nat, item);
                }
                return Err(e);
            },
        }
        i += 1;
    }
    Ok(texts)
}

fn write_part<W: WriteRoseExt>(writer: &mut W, part: &LightmapPart) -> (r: Result<(), Error>)
    ensures
        written_or_refused(
            r,
            part_encodable(part@),
            old(writer).stream(),
            old(writer).offset(),
            part_bytes(part@),
            final(writer).stream(),
            final(writer).offset(),
        ),
{
    let ghost s0 = writer.stream();
    let ghost p0 = writer.offset();
    proof {
        reveal(part_bytes);
        writer.lemma_offset_in_stream();
        assert(s0.take(p0 as int) =~= s0.take(p0 as int));
    }
    writer.write_string_u8(part.name.as_str())?;
    let ghost d1 = string_u8_bytes(part@.name);
    let ghost s1 = writer.stream();
    let ghost p1 = writer.offset();
    writer.write_i32(part.id)?;
    let ghost d2 = d1 + i32_bytes(part.id);
    let ghost s2 = writer.stream();
    let ghost p2 = writer.offset();
    proof {
        lemma_wrote_twice(s0, p0, d1, s1, p1, i32_bytes(part.id), s2, p2);
        lemma_wrote_kept(s0, p0, d2, s2, p2);
    }
    writer.write_string_u8(part.filename.as_str())?;
    let ghost d3 = d2 + string_u8_bytes(part@.filename);
    let ghost s3 = writer.stream();
    let ghost p3 = writer.offset();
    proof {
        lemma_wrote_twice(s0, p0, d2, s2, p2, string_u8_bytes(part@.filename), s3, p3);
    }
    writer.write_i32(part.lightmap_index)?;
    let ghost d4 = d3 + i32_bytes(part.lightmap_index);
    let ghost s4 = writer.stream();
    let ghost p4 = writer.offset();
    proof {
        lemma_wrote_twice(s0, p0, d3, s3, p3, i32_bytes(part.lightmap_index), s4, p4);
    }
    writer.write_i32(part.pixels_per_part)?;
    let ghost d5 = d4 + i32_bytes(part.pixels_per_part);
    let ghost s5 = writer.stream();
    let ghost p5 = writer.offset();
    proof {
        lemma_wrote_twice(s0, p0, d4, s4, p4, i32_bytes(part.pixels_per_part), s5, p5);
    }
    writer.write_i32(part.parts_per_width)?;
    let ghost d6 = d5 + i32_bytes(part.parts_per_width);
    let ghost s6 = writer.stream();
    let ghost p6 = writer.offset();
    proof {
        lemma_wrote_twice(s0, p0, d5, s5, p5, i32_bytes(part.parts_per_width), s6, p6);
    }
    writer.write_i32(part.part_position)?;
    proof {
        lemma_wrote_twice(
            s0,
            p0,
            d6,
            s6,
            p6,
            i32_bytes(part.part_position),
            writer.stream(),
            writer.offset(),
        );
    }
    Ok(())
}

fn write_object<W: WriteRoseExt>(writer: &mut W, object: &LightmapObject) -> (r: Result<
    (),
    Error,
>)
    ensures
        written_or_refused(
            r,
            object_encodable(object@),
            old(writer).stream(),
            old(writer).offset(),
            object_bytes(object@),
            final(writer).stream(),
            final(writer).offset(),
        ),
{
    let ghost s0 = writer.stream();
    let ghost p0 = writer.offset();
    let ghost parts = object@.parts;
    let ghost item = |part: PartData| part_bytes(part);
    proof {
        writer.lemma_offset_in_stream();
        assert(s0.take(p0 as int) =~= s0.take(p0 as int));
    }
    let n = object.parts.len();
    if n > 0x7fff_ffff {
        return Err(Error::TooLarge);
    }
    writer.write_i32(n as i32)?;
    let ghost s1 = writer.stream();
    let ghost p1 = writer.offset();
    writer.write_i32(object.id)?;
    let ghost head = i32_bytes(n as i32) + i32_bytes(object.id);
    proof {
        lemma_wrote_twice(
            s0,
            p0,
            i32_bytes(n as i32),
            s1,
            p1,
            i32_bytes(object.id),
            writer.stream(),
            writer.offset(),
        );
        assert(head + joined(parts.take(0), item) =~= head);
    }
    let mut i: usize = 0;
    while i < n
        invariant
            i <= n == object.parts@.len(),
            n == parts.len(),
            n <= 0x7fff_ffff,
            parts == object@.parts,
            item == (|part: PartData| part_bytes(part)),
            s0 == old(writer).stream(),
            p0 == old(writer).offset(),
            p0 <= s0.len(),
            forall|k: int| 0 <= k < i ==> part_encodable(#[trigger] parts[k]),
            wrote(
                s0,
                p0,
                head + joined(parts.take(i as int), item),
                writer.stream(),
                writer.offset(),
            ),
        decreases n - i,
    {
        let ghost s2 = writer.stream();
        let ghost p2 = writer.offset();
        let part = &object.parts[i];
        proof {
            assert(part@ == parts[i as int]);
            lemma_wrote_kept(s0, p0, head + joined(parts.take(i as int), item), s2, p2);
        }
        match write_part(writer, part) {
            Ok(()) => {
                proof {
                    lemma_joined_take(parts, i as int, item);
                    lemma_wrote_twice(
                        s0,
                        p0,
                        head + joined(parts.take(i as int), item),
                        s2,
                        p2,
                        part_bytes(parts[i as int]),
                        writer.stream(),
                        writer.offset(),
                    );
                    lemma_concat_assoc(
                        head,
                        joined(parts.take(i as int), item),
                        part_bytes(parts[i as int]),
                    );
                }
            },
            Err(e) => {
                proof {
                    assert(!part_encodable(parts[i as int]));
                    lemma_kept_twice(s0, p0, s2, p2, writer.stream());
                }
                return Err(e);
            },
        }
        i += 1;
    }
    proof {
        reveal(object_bytes);
        assert(parts.take(n as int) =~= parts);
    }
    Ok(())
}

impl Lightmap {
    /// A table without objects and without names.
    pub fn new() -> (table: Lightmap)
        ensures
            table.objects@.len() == 0,
            table.filenames@.len() == 0,
            table@ == (LightmapData {
                objects: Seq::<ObjectData>::empty(),
                filenames: Seq::<Seq<char>>::empty(),
            }),
    {
        let table = Lightmap { objects: Vec::new(), filenames: Vec::new() };
        proof {
            assert(table@ =~= (LightmapData {
                objects: Seq::<ObjectData>::empty(),
                filenames: Seq::<Seq<char>>::empty(),
            }));
        }
        table
    }

    /// Reads a table from the cursor onwards into `self`, in place of what
    /// it held. Where the stream ends too early, `self` is left as it was,
    /// and the cursor stands at the end of the stream.
    pub fn load_reader<R: ReadRoseExt>(&mut self, reader: &mut R) -> (r: Result<(), Error>)
        ensures
            final(reader).stream() == old(reader).stream(),
            match lightmap_at(old(reader).stream(), old(reader).offset()) {
                Some((table, end)) => r is Ok && final(self)@ == table && final(reader).offset()
                    == end,
                None => r == Err::<(), Error>(Error::UnexpectedEof) && *final(self) == *old(self)
                    && final(reader).offset() == old(reader).stream().len(),
            },
    {
        let objects = read_objects(reader)?;
        let filenames = read_filenames(reader)?;
        self.objects = objects;
        self.filenames = filenames;
        Ok(())
    }

    /// Writes the table at the cursor: a count and the objects, then a count
    /// and the names of the images.
    ///
    /// A table that the format cannot hold, because a text or a count is too
    /// large for its field, is given up at the first such field with
    /// `Error::TooLarge`; what was written until then stays in the stream.
    pub fn save_writer<W: WriteRoseExt>(&mut self, writer: &mut W) -> (r: Result<(), Error>)
        ensures
            *final(self) == *old(self),
            written_or_refused(
                r,
                lightmap_encodable(old(self)@),
                old(writer).stream(),
                old(writer).offset(),
                lightmap_bytes(old(self)@),
                final(writer).stream(),
                final(writer).offset(),
            ),
    {
        let ghost s0 = writer.stream();
        let ghost p0 = writer.offset();
        let ghost table = self@;
        let ghost item = |object: ObjectData| object_bytes(object);
        let ghost text = |text: Seq<char>| string_u8_bytes(text);
        proof {
            writer.lemma_offset_in_stream();
            assert(s0.take(p0 as int) =~= s0.take(p0 as int));
        }
        let n = self.objects.len();
        if n > 0x7fff_ffff {
            return Err(Error::TooLarge);
        }
        writer.write_i32(n as i32)?;
        let ghost head = i32_bytes(n as i32);
        proof {
            assert(head + joined(table.objects.take(0), item) =~= head);
        }
        let mut i: usize = 0;
        while i < n
            invariant
                *self == *old(self),
                table == self@,
                i <= n == self.objects@.len(),
                n == table.objects.len(),
                n <= 0x7fff_ffff,
                head == i32_bytes(n as i32),
                item == (|object: ObjectData| object_bytes(object)),
                s0 == old(writer).stream(),
                p0 == old(writer).offset(),
                p0 <= s0.len(),
                forall|k: int| 0 <= k < i ==> object_encodable(#[trigger] table.objects[k]),
                wrote(
                    s0,
                    p0,
                    head + joined(table.objects.take(i as int), item),
                    writer.stream(),
                    writer.offset(),
                ),
            decreases n - i,
        {
            let ghost s1 = writer.stream();
            let ghost p1 = writer.offset();
            let object = &self.objects[i];
            proof {
                assert(object@ == table.objects[i as int]);
                lemma_wrote_kept(s0, p0, head + joined(table.objects.take(i as int), item), s1, p1);
            }
            match write_object(writer, object) {
                Ok(()) => {
                    proof {
                        lemma_joined_take(table.objects, i as int, item);
                        lemma_wrote_twice(
                            s0,
                            p0,
                            head + joined(table.objects.take(i as int), item),
                            s1,
                            p1,
                            object_bytes(table.objects[i as int]),
                            writer.stream(),
                            writer.offset(),
                        );
                        lemma_concat_assoc(
                            head,
                            joined(table.objects.take(i as int), item),
                            object_bytes(table.objects[i as int]),
                        );
                    }
                },
                Err(e) => {
                    proof {
                        assert(!object_encodable(table.objects[i as int]));
                        lemma_kept_twice(s0, p0, s1, p1, writer.stream());
                    }
                    return Err(e);
                },
            }
            i += 1;
        }
        let ghost objects_part = head + joined(table.objects, item);
        proof {
            assert(table.objects.take(n as int) =~= table.objects);
        }
        let ghost s2 = writer.stream();
        let ghost p2 = writer.offset();
        proof {
            lemma_wrote_kept(s0, p0, objects_part, s2, p2);
        }
        let m = self.filenames.len();
        if m > 0x7fff_ffff {
            return Err(Error::TooLarge);
        }
        writer.write_i32(m as i32)?;
        let ghost lead = objects_part + i32_bytes(m as i32);
        proof {
            lemma_wrote_twice(
                s0,
                p0,
                objects_part,
                s2,
                p2,
                i32_bytes(m as i32),
                writer.stream(),
                writer.offset(),
            );
            assert(lead + joined(table.filenames.take(0), text) =~= lead);
        }
        let mut j: usize = 0;
        while j < m
            invariant
                *self == *old(self),
                table == self@,
                j <= m == self.filenames@.len(),
                m == table.filenames.len(),
                m <= 0x7fff_ffff,
                n == table.objects.len(),
                n <= 0x7fff_ffff,
                forall|k: int| 0 <= k < n ==> object_encodable(#[trigger] table.objects[k]),
                lead == i32_bytes(n as i32) + joined(table.objects, item) + i32_bytes(m as i32),
                item == (|object: ObjectData| object_bytes(object)),
                text == (|text: Seq<char>| string_u8_bytes(text)),
                s0 == old(writer).stream(),
                p0 == old(writer).offset(),
                p0 <= s0.len(),
                forall|k: int| 0 <= k < j ==> short_text(#[trigger] table.filenames[k]),
                wrote(
                    s0,
                    p0,
                    lead + joined(table.filenames.take(j as int), text),
                    writer.stream(),
                    writer.offset(),
                ),
            decreases m - j,
        {
            let ghost s3 = writer.stream();
            let ghost p3 = writer.offset();
            let name = &self.filenames[j];
            proof {
                assert(name@ == table.filenames[j as int]);
                lemma_wrote_kept(
                    s0,
                    p0,
                    lead + joined(table.filenames.take(j as int), text),
                    s3,
                    p3,
                );
            }
            match writer.write_string_u8(name.as_str()) {
                Ok(()) => {
                    proof {
                        lemma_joined_take(table.filenames, j as int, text);
                        lemma_wrote_twice(
                            s0,
                            p0,
                            lead + joined(table.filenames.take(j as int), text),
                            s3,
                            p3,
                            string_u8_bytes(table.filenames[j as int]),
                            writer.stream(),
                            writer.offset(),
                        );
                        lemma_concat_assoc(
                            lead,
                            joined(table.filenames.take(j as int), text),
                            string_u8_bytes(table.filenames[j as int]),
                        );
                    }
                },
                Err(e) => {
                    proof {
                        assert(!short_text(table.filenames[j as int]));
                    }
                    return Err(e);
                },
            }
            j += 1;
        }
        proof {
            reveal(lightmap_bytes);
            assert(table.filenames.take(m as int) =~= table.filenames);
        }
        Ok(())
    }
}

} // verus!

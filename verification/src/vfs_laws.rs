//! What holds of the index of the virtual file system: an index that was
//! written reads back as it was.

use crate::io::path::{host_path, lemma_host_path_settles};
use crate::io::round_trip::{
    lemma_bool_at, lemma_chunk, lemma_i32_at, lemma_run_within, lemma_string_u16_at, settled,
};
use crate::io::runs::{
    count32, lemma_joined_item, lemma_joined_take, lemma_repeated_all, lemma_repeated_joined,
    repeated,
};
use crate::io::text::text_bytes;
use crate::io::wire::{
    bool_at, bool_bytes, fits, i32_at, i32_bytes, run, string_u16_at, string_u16_bytes,
};
use crate::vfs_layout::{
    bodies_bytes, body_at, body_bytes, body_encodable, body_offset, body_offsets, body_target,
    deleted_count, entry_at, entry_body_at, entry_bytes, file_at, file_bytes, files_bytes,
    first_offset, index_at, index_bytes, index_encodable, index_stop, lemma_table_len,
    lemma_table_take, medium_text, table_bytes, table_len, ArchiveData, FileData, IndexData,
};
use vstd::prelude::*;

verus! {

/// The record of a file reads back as it is: its path is settled and is in
/// the host's form.
pub open spec fn file_settled(file: FileData) -> bool {
    settled(file.filepath) && host_path(file.filepath) == file.filepath
}

/// An archive reads back as it is.
pub open spec fn archive_settled(archive: ArchiveData) -> bool {
    &&& settled(archive.filename)
    &&& forall|k: int| 0 <= k < archive.files.len() ==> file_settled(#[trigger] archive.files[k])
}

/// An index reads back as it is.
pub open spec fn index_settled(index: IndexData) -> bool {
    forall|k: int|
        0 <= k < index.file_systems.len() ==> archive_settled(#[trigger] index.file_systems[k])
}

/// The bytes of the record of a file, field by field.
pub proof fn lemma_file_fields(file: FileData)
    ensures
        ({
            let b = file_bytes(file);
            let l = string_u16_bytes(file.filepath).len();
            &&& l == 2 + text_bytes(file.filepath).len()
            &&& b.len() == l + 23
            &&& run(b, 0, l) == string_u16_bytes(file.filepath)
            &&& run(b, l, 4) == i32_bytes(file.offset)
            &&& run(b, l + 4, 4) == i32_bytes(file.size)
            &&& run(b, l + 8, 4) == i32_bytes(file.block_size)
            &&& run(b, l + 12, 1) == bool_bytes(file.is_deleted)
            &&& run(b, l + 13, 1) == bool_bytes(file.is_compressed)
            &&& run(b, l + 14, 1) == bool_bytes(file.is_encrypted)
            &&& run(b, l + 15, 4) == i32_bytes(file.version)
            &&& run(b, l + 19, 4) == i32_bytes(file.checksum)
        }),
{
    let b = file_bytes(file);
    let c0 = string_u16_bytes(file.filepath);
    let c1 = i32_bytes(file.offset);
    let c2 = i32_bytes(file.size);
    let c3 = i32_bytes(file.block_size);
    let c4 = bool_bytes(file.is_deleted);
    let c5 = bool_bytes(file.is_compressed);
    let c6 = bool_bytes(file.is_encrypted);
    let c7 = i32_bytes(file.version);
    let c8 = i32_bytes(file.checksum);
    let p0 = Seq::<u8>::empty();
    let p1 = c0;
    let p2 = p1 + c1;
    let p3 = p2 + c2;
    let p4 = p3 + c3;
    let p5 = p4 + c4;
    let p6 = p5 + c5;
    let p7 = p6 + c6;
    let p8 = p7 + c7;
    reveal(file_bytes);
    assert(b == p8 + c8);
    assert(b.take(b.len() as int) =~= b);
    lemma_chunk(b, p8, c8);
    lemma_chunk(b, p7, c7);
    lemma_chunk(b, p6, c6);
    lemma_chunk(b, p5, c5);
    lemma_chunk(b, p4, c4);
    lemma_chunk(b, p3, c3);
    lemma_chunk(b, p2, c2);
    lemma_chunk(b, p1, c1);
    assert(p0 + c0 =~= p1);
    lemma_chunk(b, p0, c0);
}

/// The record of a file reads back from its bytes.
pub proof fn lemma_file_at(e: Seq<u8>, q: nat, file: FileData)
    requires
        q + file_bytes(file).len() <= e.len(),
        run(e, q, file_bytes(file).len()) == file_bytes(file),
        medium_text(file.filepath),
        file_settled(file),
    ensures
        file_bytes(file).len() == 2 + text_bytes(file.filepath).len() + 23,
        file_at(e, q) == Some((file, (q + file_bytes(file).len()) as nat)),
{
    let b = file_bytes(file);
    let l = string_u16_bytes(file.filepath).len();
    let p = (q + l) as nat;
    lemma_file_fields(file);
    assert(string_u16_at(e, q) == Some((file.filepath, p))) by {
        lemma_run_within(e, q, b, 0, l);
        lemma_string_u16_at(e, q, file.filepath);
    }
    assert(i32_at(e, p) == file.offset) by {
        lemma_run_within(e, q, b, l, 4);
        lemma_i32_at(e, p, file.offset);
    }
    assert(i32_at(e, p + 4) == file.size) by {
        lemma_run_within(e, q, b, l + 4, 4);
        lemma_i32_at(e, p + 4, file.size);
    }
    assert(i32_at(e, p + 8) == file.block_size) by {
        lemma_run_within(e, q, b, l + 8, 4);
        lemma_i32_at(e, p + 8, file.block_size);
    }
    assert(bool_at(e, p + 12) == file.is_deleted) by {
        lemma_run_within(e, q, b, l + 12, 1);
        lemma_bool_at(e, p + 12, file.is_deleted);
    }
    assert(bool_at(e, p + 13) == file.is_compressed) by {
        lemma_run_within(e, q, b, l + 13, 1);
        lemma_bool_at(e, p + 13, file.is_compressed);
    }
    assert(bool_at(e, p + 14) == file.is_encrypted) by {
        lemma_run_within(e, q, b, l + 14, 1);
        lemma_bool_at(e, p + 14, file.is_encrypted);
    }
    assert(i32_at(e, p + 15) == file.version) by {
        lemma_run_within(e, q, b, l + 15, 4);
        lemma_i32_at(e, p + 15, file.version);
    }
    assert(i32_at(e, p + 19) == file.checksum) by {
        lemma_run_within(e, q, b, l + 19, 4);
        lemma_i32_at(e, p + 19, file.checksum);
    }
}

/// No more files are deleted than there are.
pub proof fn lemma_deleted_count(files: Seq<FileData>)
    ensures
        deleted_count(files) <= files.len(),
    decreases files.len(),
{
    if files.len() > 0 {
        lemma_deleted_count(files.drop_last());
    }
}

/// The body of an archive reads back from its bytes, and the count of the
/// deleted files that stands in it is the number of the files that are
/// marked as deleted.
pub proof fn lemma_body_at(e: Seq<u8>, o: nat, archive: ArchiveData)
    requires
        o + body_bytes(archive).len() <= e.len(),
        run(e, o, body_bytes(archive).len()) == body_bytes(archive),
        body_encodable(archive),
        archive_settled(archive),
    ensures
        body_at(e, o) == Some((archive.files, (o + body_bytes(archive).len()) as nat)),
        i32_at(e, o + 4) == deleted_count(archive.files),
        i32_at(e, o + 8) == first_offset(archive.files),
{
    let files = archive.files;
    let n = files.len();
    let b = body_bytes(archive);
    let c0 = i32_bytes(n as i32);
    let c1 = i32_bytes(deleted_count(files) as i32);
    let c2 = i32_bytes(first_offset(files));
    let c3 = files_bytes(files);
    let p1 = c0;
    let p2 = p1 + c1;
    let p3 = p2 + c2;
    reveal(body_bytes);
    assert(b == p3 + c3);
    assert(b.take(b.len() as int) =~= b);
    lemma_chunk(b, p3, c3);
    lemma_chunk(b, p2, c2);
    lemma_chunk(b, p1, c1);
    assert(Seq::<u8>::empty() + c0 =~= p1);
    lemma_chunk(b, Seq::<u8>::empty(), c0);
    lemma_run_within(e, o, b, 0, 4);
    lemma_run_within(e, o, b, 4, 4);
    lemma_run_within(e, o, b, 8, 4);
    lemma_run_within(e, o, b, 12, c3.len());
    lemma_deleted_count(files);
    lemma_i32_at(e, o, n as i32);
    lemma_i32_at(e, o + 4, deleted_count(files) as i32);
    lemma_i32_at(e, o + 8, first_offset(files));
    let parse = |s: Seq<u8>, p: nat| file_at(s, p);
    let item = |file: FileData| file_bytes(file);
    assert forall|q: nat, k: int|
        #![trigger parse(e, q), files[k]]
        0 <= k < files.len() && q + item(files[k]).len() <= e.len() && run(
            e,
            q,
            item(files[k]).len(),
        ) == item(files[k]) implies parse(e, q) == Some(
        (files[k], (q + item(files[k]).len()) as nat),
    ) by {
        lemma_file_at(e, q, files[k]);
    }
    lemma_repeated_joined(e, o + 12, files, parse, item);
}

/// Entry `k` of a table stands in the table after the entries before it.
pub proof fn lemma_table_entry(archives: Seq<ArchiveData>, offsets: Seq<i32>, k: int)
    requires
        0 <= k < archives.len(),
        archives.len() == offsets.len(),
    ensures
        table_len(archives.take(k)) + entry_bytes(archives[k], offsets[k]).len() <= table_len(
            archives,
        ),
        run(
            table_bytes(archives, offsets),
            table_len(archives.take(k)),
            entry_bytes(archives[k], offsets[k]).len(),
        ) == entry_bytes(archives[k], offsets[k]),
    decreases archives.len(),
{
    let front = archives.drop_last();
    let front_offsets = offsets.drop_last();
    let table = table_bytes(archives, offsets);
    lemma_table_len(front, front_offsets);
    lemma_table_len(archives, offsets);
    if k == archives.len() - 1 {
        assert(archives.take(k) =~= front);
        assert(run(table, table_len(front), entry_bytes(archives[k], offsets[k]).len())
            =~= entry_bytes(archives[k], offsets[k]));
    } else {
        lemma_table_entry(front, front_offsets, k);
        assert(front.take(k) =~= archives.take(k));
        let o = table_len(archives.take(k));
        let n = entry_bytes(archives[k], offsets[k]).len();
        assert(run(table, o, n) =~= run(table_bytes(front, front_offsets), o, n));
    }
}

/// Where the entry of archive `k` stands in an index that is written at
/// `start`.
pub open spec fn entry_place(archives: Seq<ArchiveData>, start: nat, k: int) -> nat {
    start + 12 + table_len(archives.take(k))
}

/// The parts of a written index: the twelve bytes at its head, its table
/// and its bodies.
pub proof fn lemma_index_parts(e: Seq<u8>, start: nat, index: IndexData)
    requires
        start + index_bytes(index, start).len() <= e.len(),
        run(e, start, index_bytes(index, start).len()) == index_bytes(index, start),
    ensures
        index_bytes(index, start).len() == 12 + table_len(index.file_systems) + bodies_bytes(
            index.file_systems,
        ).len(),
        run(e, start, 4) == i32_bytes(index.base_version),
        run(e, start + 4, 4) == i32_bytes(index.current_version),
        run(e, start + 8, 4) == i32_bytes(index.file_systems.len() as i32),
        run(e, start + 12, table_len(index.file_systems)) == table_bytes(
            index.file_systems,
            body_offsets(index.file_systems, start),
        ),
        run(
            e,
            start + 12 + table_len(index.file_systems),
            bodies_bytes(index.file_systems).len(),
        ) == bodies_bytes(index.file_systems),
{
    let archives = index.file_systems;
    let b = index_bytes(index, start);
    let c0 = i32_bytes(index.base_version);
    let c1 = i32_bytes(index.current_version);
    let c2 = i32_bytes(archives.len() as i32);
    let c3 = table_bytes(archives, body_offsets(archives, start));
    let c4 = bodies_bytes(archives);
    lemma_table_len(archives, body_offsets(archives, start));
    let p1 = c0;
    let p2 = p1 + c1;
    let p3 = p2 + c2;
    let p4 = p3 + c3;
    reveal(index_bytes);
    assert(b == p4 + c4);
    assert(b.take(b.len() as int) =~= b);
    lemma_chunk(b, p4, c4);
    lemma_chunk(b, p3, c3);
    lemma_chunk(b, p2, c2);
    lemma_chunk(b, p1, c1);
    assert(Seq::<u8>::empty() + c0 =~= p1);
    lemma_chunk(b, Seq::<u8>::empty(), c0);
    lemma_run_within(e, start, b, 0, 4);
    lemma_run_within(e, start, b, 4, 4);
    lemma_run_within(e, start, b, 8, 4);
    lemma_run_within(e, start, b, 12, c3.len());
    lemma_run_within(e, start, b, 12 + c3.len(), c4.len());
}

/// The bytes of entry `k` of the table of a written index.
pub proof fn lemma_entry_run(e: Seq<u8>, start: nat, index: IndexData, k: int)
    requires
        0 <= k < index.file_systems.len(),
        start + index_bytes(index, start).len() <= e.len(),
        run(e, start, index_bytes(index, start).len()) == index_bytes(index, start),
    ensures
        ({
            let archives = index.file_systems;
            let name = string_u16_bytes(archives[k].filename);
            let place = entry_place(archives, start, k);
            &&& entry_place(archives, start, k + 1) == place + name.len() + 4
            &&& place + name.len() + 4 <= start + 12 + table_len(archives)
            &&& run(e, place, name.len()) == name
            &&& run(e, place + name.len(), 4) == i32_bytes(body_offsets(archives, start)[k])
        }),
{
    let archives = index.file_systems;
    let archive = archives[k];
    let offsets = body_offsets(archives, start);
    let table = table_bytes(archives, offsets);
    let place = entry_place(archives, start, k);
    lemma_index_parts(e, start, index);
    lemma_table_len(archives, offsets);
    lemma_table_entry(archives, offsets, k);
    lemma_table_take(archives, offsets, k);
    let entry = entry_bytes(archive, offsets[k]);
    lemma_run_within(e, start + 12, table, table_len(archives.take(k)), entry.len());
    let name = string_u16_bytes(archive.filename);
    lemma_run_within(e, place, entry, 0, name.len());
    assert(run(entry, 0, name.len()) =~= name);
    lemma_run_within(e, place, entry, name.len(), 4);
    assert(run(entry, name.len(), 4) =~= i32_bytes(offsets[k]));
}

/// The bytes of body `k` of a written index.
pub proof fn lemma_body_run(e: Seq<u8>, start: nat, index: IndexData, k: int)
    requires
        0 <= k < index.file_systems.len(),
        start + index_bytes(index, start).len() <= e.len(),
        run(e, start, index_bytes(index, start).len()) == index_bytes(index, start),
    ensures
        ({
            let archives = index.file_systems;
            let body = body_bytes(archives[k]);
            let target = body_offset(archives, start, k);
            &&& body_offset(archives, start, k + 1) == target + body.len()
            &&& target + body.len() <= start + index_bytes(index, start).len()
            &&& run(e, target, body.len()) == body
        }),
{
    let archives = index.file_systems;
    let bodies = bodies_bytes(archives);
    let items = |archive: ArchiveData| body_bytes(archive);
    lemma_index_parts(e, start, index);
    lemma_joined_item(archives, items, k);
    lemma_joined_take(archives, k, items);
    let body = body_bytes(archives[k]);
    lemma_run_within(
        e,
        start + 12 + table_len(archives),
        bodies,
        bodies_bytes(archives.take(k)).len(),
        body.len(),
    );
}

/// An entry of the table is what its name, its offset and the body at that
/// offset are.
pub proof fn lemma_entry_of_parts(
    e: Seq<u8>,
    place: nat,
    archive: ArchiveData,
    after_name: nat,
    offset: i32,
    end: nat,
)
    requires
        string_u16_at(e, place) == Some((archive.filename, after_name)),
        fits(e, after_name, 4),
        i32_at(e, after_name) == offset,
        0 <= offset <= e.len(),
        body_at(e, offset as nat) == Some((archive.files, end)),
    ensures
        entry_at(e, place) == Some((archive, (after_name + 4) as nat)),
        entry_body_at(e, place) == Some((archive.files, end)),
{
    assert(body_target(offset) == offset as nat);
}

/// Entry `k` of the table of a written index reads back as archive `k`,
/// where that archive can be written and is settled.
pub proof fn lemma_entry_at_of(e: Seq<u8>, start: nat, index: IndexData, k: int)
    requires
        0 <= k < index.file_systems.len(),
        start + index_bytes(index, start).len() <= e.len(),
        run(e, start, index_bytes(index, start).len()) == index_bytes(index, start),
        medium_text(index.file_systems[k].filename),
        settled(index.file_systems[k].filename),
        body_offset(index.file_systems, start, k) <= 0x7fff_ffff,
        body_at(e, body_offset(index.file_systems, start, k)) == Some(
            (
                index.file_systems[k].files,
                (body_offset(index.file_systems, start, k) + body_bytes(
                    index.file_systems[k],
                ).len()) as nat,
            ),
        ),
    ensures
        entry_at(e, entry_place(index.file_systems, start, k)) == Some(
            (index.file_systems[k], entry_place(index.file_systems, start, k + 1)),
        ),
        entry_body_at(e, entry_place(index.file_systems, start, k)) == Some(
            (
                index.file_systems[k].files,
                (body_offset(index.file_systems, start, k) + body_bytes(
                    index.file_systems[k],
                ).len()) as nat,
            ),
        ),
{
    let archives = index.file_systems;
    let archive = archives[k];
    let place = entry_place(archives, start, k);
    let target = body_offset(archives, start, k);
    let name = string_u16_bytes(archive.filename);
    let after_name = (place + name.len()) as nat;
    let end = (target + body_bytes(archive).len()) as nat;
    lemma_entry_run(e, start, index, k);
    lemma_body_run(e, start, index, k);
    lemma_index_parts(e, start, index);
    let offset = target as i32;
    assert(body_offsets(archives, start)[k] == offset);
    assert(name.len() == 2 + text_bytes(archive.filename).len());
    assert(string_u16_at(e, place) == Some((archive.filename, after_name))) by {
        lemma_string_u16_at(e, place, archive.filename);
    }
    assert(i32_at(e, after_name) == offset) by {
        lemma_i32_at(e, after_name, offset);
    }
    lemma_entry_of_parts(e, place, archive, after_name, offset, end);
}

/// Entry `k` of the table of a written index reads back as archive `k`, and
/// the body that it points to ends where the next body begins.
pub proof fn lemma_entry_at(e: Seq<u8>, start: nat, index: IndexData, k: int)
    requires
        0 <= k < index.file_systems.len(),
        start + index_bytes(index, start).len() <= e.len(),
        run(e, start, index_bytes(index, start).len()) == index_bytes(index, start),
        index_encodable(index, start),
        index_settled(index),
    ensures
        entry_at(e, entry_place(index.file_systems, start, k)) == Some(
            (index.file_systems[k], entry_place(index.file_systems, start, k + 1)),
        ),
        entry_body_at(e, entry_place(index.file_systems, start, k)) == Some(
            (
                index.file_systems[k].files,
                (body_offset(index.file_systems, start, k) + body_bytes(
                    index.file_systems[k],
                ).len()) as nat,
            ),
        ),
        body_offset(index.file_systems, start, k) + body_bytes(index.file_systems[k]).len()
            == body_offset(index.file_systems, start, k + 1),
        i32_at(e, body_offset(index.file_systems, start, k) + 4) == deleted_count(
            index.file_systems[k].files,
        ),
{
    let archives = index.file_systems;
    let archive = archives[k];
    let target = body_offset(archives, start, k);
    assert(medium_text(archive.filename));
    assert(archive_settled(archive));
    assert(body_encodable(archive));
    assert(target <= 0x7fff_ffff);
    lemma_body_run(e, start, index, k);
    lemma_body_at(e, target, archive);
    lemma_entry_at_of(e, start, index, k);
}

/// The first `k` entries of the table of a written index read back as the
/// first `k` archives.
pub proof fn lemma_entries_at(e: Seq<u8>, start: nat, index: IndexData, k: int)
    requires
        0 <= k <= index.file_systems.len(),
        start + index_bytes(index, start).len() <= e.len(),
        run(e, start, index_bytes(index, start).len()) == index_bytes(index, start),
        index_encodable(index, start),
        index_settled(index),
    ensures
        repeated(e, start + 12, k as nat, |s: Seq<u8>, p: nat| entry_at(s, p)) == Some(
            (index.file_systems.take(k), entry_place(index.file_systems, start, k)),
        ),
    decreases k,
{
    let archives = index.file_systems;
    if k == 0 {
        assert(archives.take(0) =~= Seq::<ArchiveData>::empty());
    } else {
        lemma_entries_at(e, start, index, k - 1);
        lemma_entry_at(e, start, index, k - 1);
        assert(archives.take(k - 1).push(archives[k - 1]) =~= archives.take(k));
    }
}

/// Every index that can be written, and whose texts are settled, reads back
/// from its bytes as it is, wherever in a stream the bytes stand; the read
/// stops after the last body; and in every body the count of the deleted
/// files is the number of the files that are marked as deleted.
pub proof fn law_written_index_reads_back(e: Seq<u8>, start: nat, index: IndexData)
    requires
        start + index_bytes(index, start).len() <= e.len(),
        run(e, start, index_bytes(index, start).len()) == index_bytes(index, start),
        index_encodable(index, start),
        index_settled(index),
    ensures
        index_at(e, start) == Some(index),
        index_stop(e, start) == start + index_bytes(index, start).len(),
        forall|k: int|
            0 <= k < index.file_systems.len() ==> i32_at(
                e,
                #[trigger] body_offset(index.file_systems, start, k) + 4,
            ) == deleted_count(index.file_systems[k].files),
{
    let archives = index.file_systems;
    let n = archives.len();
    lemma_index_parts(e, start, index);
    lemma_i32_at(e, start, index.base_version);
    lemma_i32_at(e, start + 4, index.current_version);
    lemma_i32_at(e, start + 8, n as i32);
    lemma_entries_at(e, start, index, n as int);
    assert(archives.take(n as int) =~= archives);
    assert(index_at(e, start) =~= Some(index));
    if n > 0 {
        lemma_entries_at(e, start, index, n - 1);
        lemma_entry_at(e, start, index, n - 1);
    }
    assert forall|k: int| 0 <= k < n implies i32_at(
        e,
        #[trigger] body_offset(archives, start, k) + 4,
    ) == deleted_count(archives[k].files) by {
        lemma_entry_at(e, start, index, k);
    }
}

/// The paths of an archive are in the host's form.
pub open spec fn paths_in_host_form(archive: ArchiveData) -> bool {
    forall|j: int|
        0 <= j < archive.files.len() ==> host_path(#[trigger] archive.files[j].filepath)
            == archive.files[j].filepath
}

/// The texts of an index do not end in a zero byte.
pub open spec fn texts_settled(index: IndexData) -> bool {
    forall|k: int|
        0 <= k < index.file_systems.len() ==> settled(
            (#[trigger] index.file_systems[k]).filename,
        ) && forall|j: int|
            0 <= j < index.file_systems[k].files.len() ==> settled(
                #[trigger] index.file_systems[k].files[j].filepath,
            )
}

/// The paths of an index that was read are in the host's form.
pub proof fn lemma_read_paths_in_host_form(s: Seq<u8>, pos: nat)
    requires
        index_at(s, pos) is Some,
    ensures
        forall|k: int|
            0 <= k < index_at(s, pos)->0.file_systems.len() ==> paths_in_host_form(
                #[trigger] index_at(s, pos)->0.file_systems[k],
            ),
{
    let files_good = |file: FileData| host_path(file.filepath) == file.filepath;
    let archive_good = |archive: ArchiveData| paths_in_host_form(archive);
    let file_item = |s: Seq<u8>, p: nat| file_at(s, p);
    let entry_item = |s: Seq<u8>, p: nat| entry_at(s, p);
    assert forall|p: nat|
        match #[trigger] file_item(s, p) {
            Some((x, _)) => files_good(x),
            None => true,
        } by {
        match string_u16_at(s, p) {
            Some((path, _)) => {
                lemma_host_path_settles(path);
            },
            None => {},
        }
    }
    assert forall|p: nat|
        match #[trigger] entry_item(s, p) {
            Some((x, _)) => archive_good(x),
            None => true,
        } by {
        match entry_item(s, p) {
            Some((x, _)) => {
                let (_, next) = string_u16_at(s, p)->0;
                let target = body_target(i32_at(s, next));
                lemma_repeated_all(
                    s,
                    target + 12,
                    count32(i32_at(s, target)),
                    file_item,
                    files_good,
                );
            },
            None => {},
        }
    }
    lemma_repeated_all(s, pos + 12, count32(i32_at(s, pos + 8)), entry_item, archive_good);
}

/// An index that was read, written and read again is the index that was
/// read first: it has as many archives, each with as many files, and every
/// file with the same path and the same numbers and flags. In the bytes that
/// were written, the count of the deleted files of every archive is the
/// number of its files that are marked as deleted.
///
/// This is so where the index that was read can be written again, and none
/// of its texts ends in a zero byte.
pub proof fn law_index_round_trip(s: Seq<u8>, pos: nat)
    requires
        index_at(s, pos) is Some,
        index_encodable(index_at(s, pos)->0, 0),
        texts_settled(index_at(s, pos)->0),
    ensures
        ({
            let index = index_at(s, pos)->0;
            let written = index_bytes(index, 0);
            &&& index_at(written, 0) == Some(index)
            &&& forall|k: int|
                0 <= k < index.file_systems.len() ==> i32_at(
                    written,
                    #[trigger] body_offset(index.file_systems, 0, k) + 4,
                ) == deleted_count(index.file_systems[k].files)
        }),
{
    let index = index_at(s, pos)->0;
    let written = index_bytes(index, 0);
    lemma_read_paths_in_host_form(s, pos);
    assert forall|k: int| 0 <= k < index.file_systems.len() implies archive_settled(
        #[trigger] index.file_systems[k],
    ) by {
        let archive = index.file_systems[k];
        assert(paths_in_host_form(archive));
        assert forall|j: int| 0 <= j < archive.files.len() implies file_settled(
            #[trigger] archive.files[j],
        ) by {
            assert(settled(index.file_systems[k].files[j].filepath));
            assert(host_path(archive.files[j].filepath) == archive.files[j].filepath);
        }
    }
    assert(run(written, 0, written.len()) =~= written);
    law_written_index_reads_back(written, 0, index);
}

} // verus!

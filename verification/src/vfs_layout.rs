//! The layout of an index of the virtual file system on the wire.
//!
//! The index is its two versions and the count of its archives, then a
//! table with one entry for each archive, then one body for each archive. An
//! entry of the table is the name of the archive and the offset, counted
//! from the start of the stream, at which the body of that archive begins.
//! The offsets depend on the lengths of all the entries and of all the
//! bodies before, so the bytes of an index depend on where in the stream it
//! is written.

use crate::io::path::host_path;
use crate::io::runs::{count32, countable32, joined, repeated};
use crate::io::text::text_bytes;
use crate::io::wire::{
    bool_at, bool_bytes, fits, fixed, i32_at, i32_bytes, overwrite, string_u16_at, string_u16_bytes,
};
use vstd::prelude::*;

verus! {

/// A file as the contracts see it.
pub struct FileData {
    pub filepath: Seq<char>,
    pub offset: i32,
    pub size: i32,
    pub block_size: i32,
    pub is_deleted: bool,
    pub is_compressed: bool,
    pub is_encrypted: bool,
    pub version: i32,
    pub checksum: i32,
}

/// An archive as the contracts see it.
pub struct ArchiveData {
    pub filename: Seq<char>,
    pub files: Seq<FileData>,
}

/// An index as the contracts see it.
#[verifier::ext_equal]
pub struct IndexData {
    pub base_version: i32,
    pub current_version: i32,
    pub file_systems: Seq<ArchiveData>,
}

/// The record of a file that stands at `pos`: its path after a length of
/// two bytes, put into the host's form, and then, in 23 bytes, its offset,
/// size and block size, its three flags, its version and its checksum.
pub open spec fn file_at(s: Seq<u8>, pos: nat) -> Option<(FileData, nat)> {
    match string_u16_at(s, pos) {
        None => None,
        Some((path, p)) => fixed(
            s,
            p,
            23,
            FileData {
                filepath: host_path(path),
                offset: i32_at(s, p),
                size: i32_at(s, p + 4),
                block_size: i32_at(s, p + 8),
                is_deleted: bool_at(s, p + 12),
                is_compressed: bool_at(s, p + 13),
                is_encrypted: bool_at(s, p + 14),
                version: i32_at(s, p + 15),
                checksum: i32_at(s, p + 19),
            },
        ),
    }
}

/// The body of an archive that stands at `pos`: the count of its files, two
/// more integers that say nothing new (how many of the files are deleted,
/// and the offset of the first), and the records of the files.
pub open spec fn body_at(s: Seq<u8>, pos: nat) -> Option<(Seq<FileData>, nat)> {
    if fits(s, pos, 12) {
        repeated(s, pos + 12, count32(i32_at(s, pos)), |s: Seq<u8>, p: nat| file_at(s, p))
    } else {
        None
    }
}

/// The place in the stream that the offset `offset` of a table entry points
/// to. A negative offset is taken as the unsigned 64-bit integer with the
/// same bits, which lies past the end of any stream that fits in memory.
pub open spec fn body_target(offset: i32) -> nat {
    if offset >= 0 {
        offset as nat
    } else {
        (0x1_0000_0000_0000_0000 + offset) as nat
    }
}

/// The body that the table entry at `pos` points to, with the position
/// after it: the entry is a name after a length of two bytes and an
/// offset, and the body stands at that offset.
pub open spec fn entry_body_at(s: Seq<u8>, pos: nat) -> Option<(Seq<FileData>, nat)> {
    match string_u16_at(s, pos) {
        None => None,
        Some((_, p)) => if fits(s, p, 4) && body_target(i32_at(s, p)) <= s.len() {
            body_at(s, body_target(i32_at(s, p)))
        } else {
            None
        },
    }
}

/// The archive whose table entry stands at `pos`, with the position of the
/// next entry.
pub open spec fn entry_at(s: Seq<u8>, pos: nat) -> Option<(ArchiveData, nat)> {
    match string_u16_at(s, pos) {
        None => None,
        Some((filename, p)) => match entry_body_at(s, pos) {
            None => None,
            Some((files, _)) => Some((ArchiveData { filename, files }, p + 4)),
        },
    }
}

/// The index that stands at `pos`: the two versions, the count of the
/// archives, and the table of their entries.
pub open spec fn index_at(s: Seq<u8>, pos: nat) -> Option<IndexData> {
    if fits(s, pos, 12) {
        match repeated(
            s,
            pos + 12,
            count32(i32_at(s, pos + 8)),
            |s: Seq<u8>, p: nat| entry_at(s, p),
        ) {
            None => None,
            Some((file_systems, _)) => Some(
                IndexData {
                    base_version: i32_at(s, pos),
                    current_version: i32_at(s, pos + 4),
                    file_systems,
                },
            ),
        }
    } else {
        None
    }
}

/// Where a decode that starts at `pos` leaves the cursor: after the body
/// of the last archive; after the count, where there is no archive; and at
/// the end of the stream, where the stream ends too early.
pub open spec fn index_stop(s: Seq<u8>, pos: nat) -> nat {
    if index_at(s, pos) is None {
        s.len()
    } else {
        let n = count32(i32_at(s, pos + 8));
        if n == 0 {
            pos + 12
        } else {
            match repeated(s, pos + 12, (n - 1) as nat, |s: Seq<u8>, p: nat| entry_at(s, p)) {
                None => s.len(),
                Some((_, last)) => match entry_body_at(s, last) {
                    None => s.len(),
                    Some((_, end)) => end,
                },
            }
        }
    }
}

/// The bytes of the record of a file.
#[verifier::opaque]
pub open spec fn file_bytes(file: FileData) -> Seq<u8> {
    string_u16_bytes(file.filepath) + i32_bytes(file.offset) + i32_bytes(file.size) + i32_bytes(
        file.block_size,
    ) + bool_bytes(file.is_deleted) + bool_bytes(file.is_compressed) + bool_bytes(
        file.is_encrypted,
    ) + i32_bytes(file.version) + i32_bytes(file.checksum)
}

/// How many of the files are marked as deleted.
pub open spec fn deleted_count(files: Seq<FileData>) -> nat
    decreases files.len(),
{
    if files.len() == 0 {
        0
    } else {
        deleted_count(files.drop_last()) + if files.last().is_deleted {
            1nat
        } else {
            0nat
        }
    }
}

/// The offset that the header of a body repeats: that of the first file of
/// the archive, and zero for an archive without files.
pub open spec fn first_offset(files: Seq<FileData>) -> i32 {
    if files.len() > 0 {
        files[0].offset
    } else {
        0
    }
}

/// The bytes of the records of a run of files.
pub open spec fn files_bytes(files: Seq<FileData>) -> Seq<u8> {
    joined(files, |file: FileData| file_bytes(file))
}

/// The bytes of the body of an archive: the count of its files, the count
/// of those that are deleted, the offset of the first, and the records.
#[verifier::opaque]
pub open spec fn body_bytes(archive: ArchiveData) -> Seq<u8> {
    i32_bytes(archive.files.len() as i32) + i32_bytes(deleted_count(archive.files) as i32)
        + i32_bytes(first_offset(archive.files)) + files_bytes(archive.files)
}

/// The bytes of the bodies of a run of archives.
pub open spec fn bodies_bytes(archives: Seq<ArchiveData>) -> Seq<u8> {
    joined(archives, |archive: ArchiveData| body_bytes(archive))
}

/// The bytes of the entry of an archive in the table, with `offset` as the
/// offset of its body.
pub open spec fn entry_bytes(archive: ArchiveData, offset: i32) -> Seq<u8> {
    string_u16_bytes(archive.filename) + i32_bytes(offset)
}

/// The bytes of the table of a run of archives whose bodies begin at
/// `offsets`.
pub open spec fn table_bytes(archives: Seq<ArchiveData>, offsets: Seq<i32>) -> Seq<u8>
    decreases archives.len(),
{
    if archives.len() == 0 {
        Seq::<u8>::empty()
    } else {
        table_bytes(archives.drop_last(), offsets.drop_last()) + entry_bytes(
            archives.last(),
            offsets.last(),
        )
    }
}

/// The length of the table of a run of archives.
pub open spec fn table_len(archives: Seq<ArchiveData>) -> nat
    decreases archives.len(),
{
    if archives.len() == 0 {
        0
    } else {
        table_len(archives.drop_last()) + string_u16_bytes(archives.last().filename).len() + 4
    }
}

/// Where the body of archive `k` begins in an index that is written at
/// `start`: after the twelve bytes of the versions and the count, the
/// table, and the bodies of the archives before it.
pub open spec fn body_offset(archives: Seq<ArchiveData>, start: nat, k: int) -> nat {
    start + 12 + table_len(archives) + bodies_bytes(archives.take(k)).len()
}

/// The offsets of all the bodies of an index that is written at `start`.
pub open spec fn body_offsets(archives: Seq<ArchiveData>, start: nat) -> Seq<i32> {
    Seq::new(archives.len(), |k: int| body_offset(archives, start, k) as i32)
}

/// The bytes of an index that is written at `start`.
#[verifier::opaque]
pub open spec fn index_bytes(index: IndexData, start: nat) -> Seq<u8> {
    i32_bytes(index.base_version) + i32_bytes(index.current_version) + i32_bytes(
        index.file_systems.len() as i32,
    ) + table_bytes(index.file_systems, body_offsets(index.file_systems, start)) + bodies_bytes(
        index.file_systems,
    )
}

/// A text can be written after a length of two bytes.
pub open spec fn medium_text(text: Seq<char>) -> bool {
    text_bytes(text).len() <= 0xffff
}

/// The body of an archive can be written: its files can be counted, and
/// their paths are short enough.
pub open spec fn body_encodable(archive: ArchiveData) -> bool {
    &&& countable32(archive.files.len())
    &&& forall|k: int|
        0 <= k < archive.files.len() ==> medium_text(#[trigger] archive.files[k].filepath)
}

/// An index can be written at `start`: its archives can be counted, their
/// names are short enough, their bodies can be written, and the offset of
/// each body can be written as a signed 32-bit integer.
pub open spec fn index_encodable(index: IndexData, start: nat) -> bool {
    &&& countable32(index.file_systems.len())
    &&& forall|k: int|
        0 <= k < index.file_systems.len() ==> medium_text(
            #[trigger] index.file_systems[k].filename,
        )
    &&& forall|k: int|
        0 <= k < index.file_systems.len() ==> body_encodable(#[trigger] index.file_systems[k])
    &&& forall|k: int|
        0 <= k < index.file_systems.len() ==> #[trigger] body_offset(
            index.file_systems,
            start,
            k,
        ) <= 0x7fff_ffff
}

/// The run `d` with the bytes from `q` on replaced by `x`.
pub open spec fn patched(d: Seq<u8>, q: int, x: Seq<u8>) -> Seq<u8> {
    d.subrange(0, q) + x + d.subrange(q + x.len(), d.len() as int)
}

/// A write into the middle of what was written before is a write of the
/// patched run.
pub proof fn lemma_overwrite_inside(s: Seq<u8>, p: nat, d: Seq<u8>, q: nat, x: Seq<u8>)
    requires
        q + x.len() <= d.len(),
    ensures
        overwrite(overwrite(s, p, d), p + q, x) == overwrite(s, p, patched(d, q as int, x)),
        patched(d, q as int, x).len() == d.len(),
{
    reveal(overwrite);
    assert(overwrite(overwrite(s, p, d), p + q, x) =~= overwrite(s, p, patched(d, q as int, x)));
}

/// A patch of the middle one of three runs is a patch of the three put
/// together.
pub proof fn lemma_patched_middle(a: Seq<u8>, t: Seq<u8>, b: Seq<u8>, q: nat, x: Seq<u8>)
    requires
        q + x.len() <= t.len(),
    ensures
        patched(a + t + b, (a.len() + q) as int, x) == a + patched(t, q as int, x) + b,
{
    assert(patched(a + t + b, (a.len() + q) as int, x) =~= a + patched(t, q as int, x) + b);
}

/// The table is as long as `table_len` says, whatever the offsets are.
pub proof fn lemma_table_len(archives: Seq<ArchiveData>, offsets: Seq<i32>)
    ensures
        table_bytes(archives, offsets).len() == table_len(archives),
    decreases archives.len(),
{
    if archives.len() > 0 {
        lemma_table_len(archives.drop_last(), offsets.drop_last());
    }
}

/// The table of the first `k + 1` archives is that of the first `k` and
/// then the entry of archive `k`.
pub proof fn lemma_table_take(archives: Seq<ArchiveData>, offsets: Seq<i32>, k: int)
    requires
        0 <= k < archives.len(),
        archives.len() == offsets.len(),
    ensures
        table_bytes(archives.take(k + 1), offsets.take(k + 1)) == table_bytes(
            archives.take(k),
            offsets.take(k),
        ) + entry_bytes(archives[k], offsets[k]),
        table_len(archives.take(k + 1)) == table_len(archives.take(k)) + string_u16_bytes(
            archives[k].filename,
        ).len() + 4,
{
    assert(archives.take(k + 1).drop_last() =~= archives.take(k));
    assert(offsets.take(k + 1).drop_last() =~= offsets.take(k));
}

/// Where the offset of entry `k` stands in the table: after the entries
/// before it and the name of the archive.
pub open spec fn offset_place(archives: Seq<ArchiveData>, k: int) -> nat {
    table_len(archives.take(k)) + string_u16_bytes(archives[k].filename).len()
}

/// The table with one offset changed is the table with the four bytes of
/// that offset replaced.
pub proof fn lemma_table_patched(
    archives: Seq<ArchiveData>,
    offsets: Seq<i32>,
    k: int,
    offset: i32,
)
    requires
        0 <= k < archives.len(),
        archives.len() == offsets.len(),
    ensures
        offset_place(archives, k) + 4 <= table_len(archives),
        table_bytes(archives, offsets.update(k, offset)) == patched(
            table_bytes(archives, offsets),
            offset_place(archives, k) as int,
            i32_bytes(offset),
        ),
    decreases archives.len(),
{
    let front = archives.drop_last();
    let front_offsets = offsets.drop_last();
    let table = table_bytes(archives, offsets);
    let front_table = table_bytes(front, front_offsets);
    let name = string_u16_bytes(archives.last().filename);
    lemma_table_len(front, front_offsets);
    lemma_table_len(archives, offsets);
    if k == archives.len() - 1 {
        assert(offsets.update(k, offset).drop_last() =~= front_offsets);
        assert(archives.take(k) =~= front);
        assert(table_bytes(archives, offsets.update(k, offset)) =~= patched(
            table,
            offset_place(archives, k) as int,
            i32_bytes(offset),
        ));
    } else {
        lemma_table_patched(front, front_offsets, k, offset);
        assert(offsets.update(k, offset).drop_last() =~= front_offsets.update(k, offset));
        assert(front.take(k) =~= archives.take(k));
        assert(offset_place(front, k) == offset_place(archives, k));
        let place = offset_place(archives, k) as int;
        let patch = i32_bytes(offset);
        let last = entry_bytes(archives.last(), offsets.last());
        assert(patched(front_table + last, place, patch) =~= patched(front_table, place, patch)
            + last);
    }
}

} // verus!

//! The index of the virtual file system.
//!
//! The game ships its assets in archives. The index names the archives and,
//! for each of them, the files it holds: where in the archive a file lies,
//! how long it is, and how it is stored. The index holds no asset data.
//!
//! On the wire the index is a table of archive names, each with the offset
//! of a body that stands further on in the same stream, and then the bodies:
//! each a short header and one record per file.

use crate::errors::Error;
use crate::io::path::from_rose_path;
use crate::io::reader::ReadRoseExt;
use crate::io::runs::{
    count32, joined, lemma_concat_assoc, lemma_joined_take, lemma_kept_twice, lemma_repeated_fails,
    lemma_wrote_kept, read_count32, record_yields, repeated, written_or_refused,
};
use crate::io::stream::SeekRoseExt;
use crate::io::wire::{bool_bytes, fits, i32_at, i32_bytes, overwrite, string_u16_bytes, wrote};
use crate::io::writer::{lemma_wrote_twice, WriteRoseExt};
use crate::vfs_layout::{
    bodies_bytes, body_at, body_bytes, body_encodable, body_offset, body_offsets, body_target,
    deleted_count, entry_at, entry_bytes, file_at, file_bytes, index_at, index_bytes,
    index_encodable, index_stop, lemma_overwrite_inside, lemma_patched_middle, lemma_table_len,
    lemma_table_patched, lemma_table_take, medium_text, offset_place, table_bytes, ArchiveData,
    FileData, IndexData,
};
use vstd::prelude::*;

verus! {

/// The index: two version numbers and one entry for each archive.
#[derive(Debug)]
pub struct VfsIndex {
    pub base_version: i32,
    pub current_version: i32,
    pub file_systems: Vec<VfsMetadata>,
}

/// One archive: its name and the files it holds.
#[derive(Debug)]
pub struct VfsMetadata {
    pub filename: String,
    pub files: Vec<VfsFileMetadata>,
}

/// One file of an archive.
#[derive(Debug)]
pub struct VfsFileMetadata {
    /// The path of the file, relative to the root of the file system, with
    /// slashes between its directories.
    pub filepath: String,
    /// Where the file starts in the archive.
    pub offset: i32,
    pub size: i32,
    pub block_size: i32,
    pub is_deleted: bool,
    pub is_compressed: bool,
    pub is_encrypted: bool,
    pub version: i32,
    pub checksum: i32,
}

impl View for VfsFileMetadata {
    type V = FileData;

    open spec fn view(&self) -> FileData {
        FileData {
            filepath: self.filepath@,
            offset: self.offset,
            size: self.size,
            block_size: self.block_size,
            is_deleted: self.is_deleted,
            is_compressed: self.is_compressed,
            is_encrypted: self.is_encrypted,
            version: self.version,
            checksum: self.checksum,
        }
    }
}

/// The files of a run, each as the contracts see it.
pub open spec fn files_view(files: Seq<VfsFileMetadata>) -> Seq<FileData> {
    files.map_values(|file: VfsFileMetadata| file@)
}

impl View for VfsMetadata {
    type V = ArchiveData;

    open spec fn view(&self) -> ArchiveData {
        ArchiveData { filename: self.filename@, files: files_view(self.files@) }
    }
}

/// The archives of a run, each as the contracts see it.
pub open spec fn archives_view(archives: Seq<VfsMetadata>) -> Seq<ArchiveData> {
    archives.map_values(|archive: VfsMetadata| archive@)
}

impl View for VfsIndex {
    type V = IndexData;

    open spec fn view(&self) -> IndexData {
        IndexData {
            base_version: self.base_version,
            current_version: self.current_version,
            file_systems: archives_view(self.file_systems@),
        }
    }
}

impl VfsFileMetadata {
    /// The record that `new` makes.
    pub open spec fn blank() -> FileData {
        FileData {
            filepath: Seq::<char>::empty(),
            offset: 0,
            size: 0,
            block_size: 0,
            is_deleted: false,
            is_compressed: false,
            is_encrypted: false,
            version: 0,
            checksum: 0,
        }
    }

    /// A record without a path, all its numbers zero and its flags unset.
    pub fn new() -> (file: VfsFileMetadata)
        ensures
            file@ == VfsFileMetadata::blank(),
    {
        VfsFileMetadata {
            filepath: String::new(),
            offset: 0,
            size: 0,
            block_size: 0,
            is_deleted: false,
            is_compressed: false,
            is_encrypted: false,
            version: 0,
            checksum: 0,
        }
    }
}

impl VfsMetadata {
    /// An archive without a name and without files.
    pub fn new() -> (archive: VfsMetadata)
        ensures
            archive.filename@.len() == 0,
            archive.files@.len() == 0,
            archive@ == (ArchiveData {
                filename: Seq::<char>::empty(),
                files: Seq::<FileData>::empty(),
            }),
    {
        let archive = VfsMetadata { filename: String::new(), files: Vec::new() };
        proof {
            assert(archive@.files =~= Seq::<FileData>::empty());
            assert(archive@.filename =~= Seq::<char>::empty());
        }
        archive
    }
}

fn read_file<R: ReadRoseExt>(reader: &mut R) -> (r: Result<VfsFileMetadata, Error>)
    ensures
        final(reader).stream() == old(reader).stream(),
        record_yields(
            r,
            final(reader).offset(),
            file_at(old(reader).stream(), old(reader).offset()),
            old(reader).stream().len(),
        ),
{
    let path = reader.read_string_u16()?;
    let filepath = from_rose_path(path.as_str());
    let offset = reader.read_i32()?;
    let size = reader.read_i32()?;
    let block_size = reader.read_i32()?;
    let is_deleted = reader.read_bool()?;
    let is_compressed = reader.read_bool()?;
    let is_encrypted = reader.read_bool()?;
    let version = reader.read_i32()?;
    let checksum = reader.read_i32()?;
    Ok(
        VfsFileMetadata {
            filepath,
            offset,
            size,
            block_size,
            is_deleted,
            is_compressed,
            is_encrypted,
            version,
            checksum,
        },
    )
}

/// Reads the body of an archive.
fn read_body<R: ReadRoseExt>(reader: &mut R) -> (r: Result<Vec<VfsFileMetadata>, Error>)
    ensures
        final(reader).stream() == old(reader).stream(),
        match body_at(old(reader).stream(), old(reader).offset()) {
            Some((files, end)) => r is Ok && files_view(r->Ok_0@) == files
                && final(reader).offset() == end,
            None => r is Err && r->Err_0 == Error::UnexpectedEof && final(reader).offset()
                == old(reader).stream().len(),
        },
{
    let ghost s = reader.stream();
    let ghost item = |s: Seq<u8>, p: nat| file_at(s, p);
    let n = read_count32(reader)?;
    let _delete_count = reader.read_i32()?;
    let _start_offset = reader.read_i32()?;
    let ghost base = reader.offset();
    let mut files: Vec<VfsFileMetadata> = Vec::new();
    proof {
        assert(files_view(files@) =~= Seq::<FileData>::empty());
    }
    let mut i: usize = 0;
    while i < n
        invariant
            reader.stream() == s,
            s == old(reader).stream(),
            item == (|s: Seq<u8>, p: nat| file_at(s, p)),
            fits(s, old(reader).offset(), 12),
            base == old(reader).offset() + 12,
            n == count32(i32_at(s, old(reader).offset())),
            i <= n,
            repeated(s, base, i as nat, item) == Some((files_view(files@), reader.offset())),
        decreases n - i,
    {
        let ghost before = files@;
        match read_file(reader) {
            Ok(file) => {
                files.push(file);
                proof {
                    assert(files_view(files@) =~= files_view(before).push(file@));
                }
            },
            Err(e) => {
                proof {
                    assert(repeated(s, base, (i + 1) as nat, item) is None);
                    lemma_repeated_fails(s, base, (i + 1) as nat, n as nat, item);
                }
                return Err(e);
            },
        }
        i += 1;
    }
    Ok(files)
}

/// The place in the stream that an offset of the table points to.
fn target_of(offset: i32) -> (target: u64)
    ensures
        target == body_target(offset),
{
    if offset >= 0 {
        offset as u64
    } else {
        let back: u64 = (-(offset as i64)) as u64;
        u64::MAX - (back - 1)
    }
}

fn write_file<W: WriteRoseExt>(writer: &mut W, file: &VfsFileMetadata) -> (r: Result<(), Error>)
    ensures
        written_or_refused(
            r,
            medium_text(file@.filepath),
            old(writer).stream(),
            old(writer).offset(),
            file_bytes(file@),
            final(writer).stream(),
            final(writer).offset(),
        ),
{
    let ghost s0 = writer.stream();
    let ghost p0 = writer.offset();
    proof {
        reveal(file_bytes);
        writer.lemma_offset_in_stream();
        assert(s0.take(p0 as int) =~= s0.take(p0 as int));
    }
    writer.write_string_u16(file.filepath.as_str())?;
    let ghost d1 = string_u16_bytes(file@.filepath);
    let ghost s1 = writer.stream();
    let ghost p1 = writer.offset();
    writer.write_i32(file.offset)?;
    let ghost d2 = d1 + i32_bytes(file.offset);
    let ghost s2 = writer.stream();
    let ghost p2 = writer.offset();
    proof {
        lemma_wrote_twice(s0, p0, d1, s1, p1, i32_bytes(file.offset), s2, p2);
    }
    writer.write_i32(file.size)?;
    let ghost d3 = d2 + i32_bytes(file.size);
    let ghost s3 = writer.stream();
    let ghost p3 = writer.offset();
    proof {
        lemma_wrote_twice(s0, p0, d2, s2, p2, i32_bytes(file.size), s3, p3);
    }
    writer.write_i32(file.block_size)?;
    let ghost d4 = d3 + i32_bytes(file.block_size);
    let ghost s4 = writer.stream();
    let ghost p4 = writer.offset();
    proof {
        lemma_wrote_twice(s0, p0, d3, s3, p3, i32_bytes(file.block_size), s4, p4);
    }
    writer.write_bool(file.is_deleted)?;
    let ghost d5 = d4 + bool_bytes(file.is_deleted);
    let ghost s5 = writer.stream();
    let ghost p5 = writer.offset();
    proof {
        lemma_wrote_twice(s0, p0, d4, s4, p4, bool_bytes(file.is_deleted), s5, p5);
    }
    writer.write_bool(file.is_compressed)?;
    let ghost d6 = d5 + bool_bytes(file.is_compressed);
    let ghost s6 = writer.stream();
    let ghost p6 = writer.offset();
    proof {
        lemma_wrote_twice(s0, p0, d5, s5, p5, bool_bytes(file.is_compressed), s6, p6);
    }
    writer.write_bool(file.is_encrypted)?;
    let ghost d7 = d6 + bool_bytes(file.is_encrypted);
    let ghost s7 = writer.stream();
    let ghost p7 = writer.offset();
    proof {
        lemma_wrote_twice(s0, p0, d6, s6, p6, bool_bytes(file.is_encrypted), s7, p7);
    }
    writer.write_i32(file.version)?;
    let ghost d8 = d7 + i32_bytes(file.version);
    let ghost s8 = writer.stream();
    let ghost p8 = writer.offset();
    proof {
        lemma_wrote_twice(s0, p0, d7, s7, p7, i32_bytes(file.version), s8, p8);
    }
    writer.write_i32(file.checksum)?;
    proof {
        lemma_wrote_twice(
            s0,
            p0,
            d8,
            s8,
            p8,
            i32_bytes(file.checksum),
            writer.stream(),
            writer.offset(),
        );
    }
    Ok(())
}

/// Counts the files that are marked as deleted.
fn count_deleted(files: &Vec<VfsFileMetadata>) -> (count: i32)
    requires
        files@.len() <= 0x7fff_ffff,
    ensures
        count == deleted_count(files_view(files@)),
{
    let ghost all = files_view(files@);
    let mut count: i32 = 0;
    let mut i: usize = 0;
    proof {
        assert(all.take(0) =~= Seq::<FileData>::empty());
    }
    while i < files.len()
        invariant
            i <= files@.len() <= 0x7fff_ffff,
            all == files_view(files@),
            0 <= count <= i,
            count == deleted_count(all.take(i as int)),
        decreases files@.len() - i,
    {
        proof {
            assert(all.take(i + 1).drop_last() =~= all.take(i as int));
            assert(all.take(i + 1).last() == files@[i as int]@);
        }
        if files[i].is_deleted {
            count = count + 1;
        }
        i += 1;
    }
    proof {
        assert(all.take(files@.len() as int) =~= all);
    }
    count
}

/// Writes the body of an archive.
fn write_body<W: WriteRoseExt>(writer: &mut W, archive: &VfsMetadata) -> (r: Result<(), Error>)
    ensures
        written_or_refused(
            r,
            body_encodable(archive@),
            old(writer).stream(),
            old(writer).offset(),
            body_bytes(archive@),
            final(writer).stream(),
            final(writer).offset(),
        ),
{
    let ghost s0 = writer.stream();
    let ghost p0 = writer.offset();
    let ghost files = archive@.files;
    let ghost item = |file: FileData| file_bytes(file);
    proof {
        reveal(body_bytes);
        writer.lemma_offset_in_stream();
        assert(s0.take(p0 as int) =~= s0.take(p0 as int));
    }
    let n = archive.files.len();
    if n > 0x7fff_ffff {
        return Err(Error::TooLarge);
    }
    let deleted = count_deleted(&archive.files);
    let first = if n > 0 {
        archive.files[0].offset
    } else {
        0
    };
    writer.write_i32(n as i32)?;
    let ghost d1 = i32_bytes(n as i32);
    let ghost s1 = writer.stream();
    let ghost p1 = writer.offset();
    writer.write_i32(deleted)?;
    let ghost d2 = d1 + i32_bytes(deleted);
    let ghost s2 = writer.stream();
    let ghost p2 = writer.offset();
    proof {
        lemma_wrote_twice(s0, p0, d1, s1, p1, i32_bytes(deleted), s2, p2);
    }
    writer.write_i32(first)?;
    let ghost head = d2 + i32_bytes(first);
    proof {
        lemma_wrote_twice(
            s0,
            p0,
            d2,
            s2,
            p2,
            i32_bytes(first),
            writer.stream(),
            writer.offset(),
        );
        assert(head + joined(files.take(0), item) =~= head);
    }
    let mut i: usize = 0;
    while i < n
        invariant
            i <= n == archive.files@.len(),
            n == files.len(),
            n <= 0x7fff_ffff,
            files == archive@.files,
            item == (|file: FileData| file_bytes(file)),
            s0 == old(writer).stream(),
            p0 == old(writer).offset(),
            p0 <= s0.len(),
            forall|k: int| 0 <= k < i ==> medium_text(#[trigger] files[k].filepath),
            wrote(
                s0,
                p0,
                head + joined(files.take(i as int), item),
                writer.stream(),
                writer.offset(),
            ),
        decreases n - i,
    {
        let ghost s3 = writer.stream();
        let ghost p3 = writer.offset();
        let file = &archive.files[i];
        proof {
            assert(file@ == files[i as int]);
            lemma_wrote_kept(s0, p0, head + joined(files.take(i as int), item), s3, p3);
        }
        match write_file(writer, file) {
            Ok(()) => {
                proof {
                    lemma_joined_take(files, i as int, item);
                    lemma_wrote_twice(
                        s0,
                        p0,
                        head + joined(files.take(i as int), item),
                        s3,
                        p3,
                        file_bytes(files[i as int]),
                        writer.stream(),
                        writer.offset(),
                    );
                    lemma_concat_assoc(
                        head,
                        joined(files.take(i as int), item),
                        file_bytes(files[i as int]),
                    );
                }
            },
            Err(e) => {
                proof {
                    assert(!medium_text(files[i as int].filepath));
                    lemma_kept_twice(s0, p0, s3, p3, writer.stream());
                }
                return Err(e);
            },
        }
        i += 1;
    }
    proof {
        reveal(body_bytes);
        assert(files.take(n as int) =~= files);
    }
    Ok(())
}

impl VfsIndex {
    /// An index without archives, both versions zero.
    pub fn new() -> (index: VfsIndex)
        ensures
            index.file_systems@.len() == 0,
            index@ == (IndexData {
                base_version: 0,
                current_version: 0,
                file_systems: Seq::<ArchiveData>::empty(),
            }),
    {
        let index = VfsIndex { base_version: 0, current_version: 0, file_systems: Vec::new() };
        proof {
            assert(index@ =~= (IndexData {
                base_version: 0,
                current_version: 0,
                file_systems: Seq::<ArchiveData>::empty(),
            }));
        }
        index
    }

    /// Reads an index from the cursor onwards into `self`, in place of what
    /// it held.
    ///
    /// For each entry of the table the read follows the entry's offset to the
    /// body, reads the body, and comes back for the next entry; after the
    /// last body it stays where it is. Where the stream ends too early, or an
    /// offset points past its end, `self` is left as it was and the cursor
    /// stands at the end of the stream.
    pub fn load_reader<R: ReadRoseExt>(&mut self, reader: &mut R) -> (r: Result<(), Error>)
        ensures
            final(reader).stream() == old(reader).stream(),
            final(reader).offset() == index_stop(old(reader).stream(), old(reader).offset()),
            match index_at(old(reader).stream(), old(reader).offset()) {
                Some(index) => r is Ok && final(self)@ == index,
                None => r == Err::<(), Error>(Error::UnexpectedEof) && *final(self) == *old(self),
            },
    {
        let ghost s = reader.stream();
        let ghost pos = reader.offset();
        let ghost item = |s: Seq<u8>, p: nat| entry_at(s, p);
        let base_version = reader.read_i32()?;
        let current_version = reader.read_i32()?;
        let n = read_count32(reader)?;
        let mut file_systems: Vec<VfsMetadata> = Vec::new();
        proof {
            assert(archives_view(file_systems@) =~= Seq::<ArchiveData>::empty());
        }
        let ghost mut header = reader.offset();
        let mut i: usize = 0;
        while i < n
            invariant
                reader.stream() == s,
                s == old(reader).stream(),
                pos == old(reader).offset(),
                *self == *old(self),
                item == (|s: Seq<u8>, p: nat| entry_at(s, p)),
                fits(s, pos, 12),
                n == count32(i32_at(s, pos + 8)),
                i <= n,
                repeated(s, pos + 12, i as nat, item) == Some(
                    (archives_view(file_systems@), header),
                ),
                i < n ==> reader.offset() == header,
                i == n ==> reader.offset() == index_stop(s, pos),
            decreases n - i,
        {
            let ghost before = file_systems@;
            proof {
                assert(repeated(s, pos + 12, (i + 1) as nat, item) == match item(s, header) {
                    None => None::<(Seq<ArchiveData>, nat)>,
                    Some((x, q)) => Some((archives_view(before).push(x), q)),
                });
                if item(s, header) is None {
                    lemma_repeated_fails(s, pos + 12, (i + 1) as nat, n as nat, item);
                }
            }
            let filename = reader.read_string_u16()?;
            let offset = reader.read_i32()?;
            let next_filesystem = reader.stream_position();
            let _ = reader.seek(target_of(offset))?;
            let files = read_body(reader)?;
            let archive = VfsMetadata { filename, files };
            file_systems.push(archive);
            proof {
                assert(archives_view(file_systems@) =~= archives_view(before).push(archive@));
                header = next_filesystem as nat;
            }
            if i < n - 1 {
                let _ = reader.seek(next_filesystem)?;
            }
            i += 1;
        }
        self.base_version = base_version;
        self.current_version = current_version;
        self.file_systems = file_systems;
        Ok(())
    }

    /// Writes the index at the cursor, in two passes over the archives.
    ///
    /// The first pass writes the table with a zero in the place of every
    /// offset and remembers where each of these places is. The second pass
    /// writes the bodies: before each body it goes back to the place kept
    /// for its offset, writes there the position at which the body is about
    /// to begin, and returns to that position.
    ///
    /// An index that the format cannot hold, because a text, a count or an
    /// offset is too large for its field, is given up at the first such
    /// field with `Error::TooLarge`; what was written until then stays in
    /// the stream.
    pub fn save_writer<W: WriteRoseExt>(&mut self, writer: &mut W) -> (r: Result<(), Error>)
        ensures
            *final(self) == *old(self),
            written_or_refused(
                r,
                index_encodable(old(self)@, old(writer).offset()),
                old(writer).stream(),
                old(writer).offset(),
                index_bytes(old(self)@, old(writer).offset()),
                final(writer).stream(),
                final(writer).offset(),
            ),
    {
        let ghost s0 = writer.stream();
        let ghost p0 = writer.offset();
        let ghost index = self@;
        let ghost archives = self@.file_systems;
        proof {
            writer.lemma_offset_in_stream();
            assert(s0.take(p0 as int) =~= s0.take(p0 as int));
        }
        let n = self.file_systems.len();
        if n > 0x7fff_ffff {
            return Err(Error::TooLarge);
        }
        writer.write_i32(self.base_version)?;
        let ghost d1 = i32_bytes(self.base_version);
        let ghost s1 = writer.stream();
        let ghost p1 = writer.offset();
        writer.write_i32(self.current_version)?;
        let ghost d2 = d1 + i32_bytes(self.current_version);
        let ghost s2 = writer.stream();
        let ghost p2 = writer.offset();
        proof {
            lemma_wrote_twice(s0, p0, d1, s1, p1, i32_bytes(self.current_version), s2, p2);
        }
        writer.write_i32(n as i32)?;
        let ghost head = d2 + i32_bytes(n as i32);
        let ghost zeros = Seq::new(n as nat, |k: int| 0i32);
        proof {
            lemma_wrote_twice(
                s0,
                p0,
                d2,
                s2,
                p2,
                i32_bytes(n as i32),
                writer.stream(),
                writer.offset(),
            );
            assert(head + table_bytes(archives.take(0), zeros.take(0)) =~= head);
        }
        let mut file_system_offsets: Vec<u64> = Vec::new();
        let mut i: usize = 0;
        while i < n
            invariant
                *self == *old(self),
                index == self@,
                archives == index.file_systems,
                i <= n == self.file_systems@.len(),
                n == archives.len(),
                n <= 0x7fff_ffff,
                zeros == Seq::new(n as nat, |k: int| 0i32),
                head.len() == 12,
                s0 == old(writer).stream(),
                p0 == old(writer).offset(),
                p0 <= s0.len(),
                file_system_offsets@.len() == i,
                forall|k: int|
                    0 <= k < i ==> #[trigger] file_system_offsets@[k] == p0 + 12 + offset_place(
                        archives,
                        k,
                    ),
                forall|k: int| 0 <= k < i ==> medium_text(#[trigger] archives[k].filename),
                wrote(
                    s0,
                    p0,
                    head + table_bytes(archives.take(i as int), zeros.take(i as int)),
                    writer.stream(),
                    writer.offset(),
                ),
            decreases n - i,
        {
            let ghost s3 = writer.stream();
            let ghost p3 = writer.offset();
            let ghost before = head + table_bytes(archives.take(i as int), zeros.take(i as int));
            let archive = &self.file_systems[i];
            proof {
                assert(archive@ == archives[i as int]);
                lemma_wrote_kept(s0, p0, before, s3, p3);
                lemma_table_len(archives.take(i as int), zeros.take(i as int));
                lemma_table_take(archives, zeros, i as int);
            }
            match writer.write_string_u16(archive.filename.as_str()) {
                Ok(()) => {},
                Err(e) => {
                    proof {
                        assert(!medium_text(archives[i as int].filename));
                    }
                    return Err(e);
                },
            }
            let ghost name = string_u16_bytes(archives[i as int].filename);
            let ghost s4 = writer.stream();
            let ghost p4 = writer.offset();
            proof {
                lemma_wrote_twice(s0, p0, before, s3, p3, name, s4, p4);
                lemma_wrote_kept(s0, p0, before + name, s4, p4);
            }
            let place = writer.stream_position();
            file_system_offsets.push(place);
            writer.write_i32(0)?;
            proof {
                lemma_wrote_twice(
                    s0,
                    p0,
                    before + name,
                    s4,
                    p4,
                    i32_bytes(0),
                    writer.stream(),
                    writer.offset(),
                );
                lemma_concat_assoc(before, name, i32_bytes(0));
                lemma_concat_assoc(
                    head,
                    table_bytes(archives.take(i as int), zeros.take(i as int)),
                    entry_bytes(archives[i as int], 0),
                );
            }
            i += 1;
        }
        let ghost mut offsets = zeros;
        proof {
            assert(archives.take(n as int) =~= archives);
            assert(zeros.take(n as int) =~= zeros);
            assert(head + table_bytes(archives, offsets) + bodies_bytes(archives.take(0)) =~= head
                + table_bytes(archives, offsets));
        }
        let mut j: usize = 0;
        while j < n
            invariant
                *self == *old(self),
                index == self@,
                archives == index.file_systems,
                j <= n == self.file_systems@.len(),
                n == archives.len(),
                n <= 0x7fff_ffff,
                head.len() == 12,
                head == i32_bytes(index.base_version) + i32_bytes(index.current_version)
                    + i32_bytes(n as i32),
                s0 == old(writer).stream(),
                p0 == old(writer).offset(),
                p0 <= s0.len(),
                file_system_offsets@.len() == n,
                forall|k: int|
                    0 <= k < n ==> #[trigger] file_system_offsets@[k] == p0 + 12 + offset_place(
                        archives,
                        k,
                    ),
                forall|k: int| 0 <= k < n ==> medium_text(#[trigger] archives[k].filename),
                forall|k: int| 0 <= k < j ==> body_encodable(#[trigger] archives[k]),
                forall|k: int|
                    0 <= k < j ==> #[trigger] body_offset(archives, p0, k) <= 0x7fff_ffff,
                offsets.len() == n,
                forall|k: int|
                    0 <= k < j ==> #[trigger] offsets[k] == body_offset(archives, p0, k) as i32,
                forall|k: int| j <= k < n ==> #[trigger] offsets[k] == 0i32,
                wrote(
                    s0,
                    p0,
                    head + table_bytes(archives, offsets) + bodies_bytes(archives.take(j as int)),
                    writer.stream(),
                    writer.offset(),
                ),
            decreases n - j,
        {
            let ghost table = table_bytes(archives, offsets);
            let ghost bodies = bodies_bytes(archives.take(j as int));
            let ghost s5 = writer.stream();
            let ghost p5 = writer.offset();
            let archive = &self.file_systems[j];
            proof {
                assert(archive@ == archives[j as int]);
                lemma_wrote_kept(s0, p0, head + table + bodies, s5, p5);
                lemma_table_len(archives, offsets);
                assert(p5 == body_offset(archives, p0, j as int));
            }
            let file_offset = writer.stream_position();
            if file_offset > 0x7fff_ffff {
                return Err(Error::TooLarge);
            }
            let ghost patch = i32_bytes(file_offset as i32);
            let ghost place = offset_place(archives, j as int);
            proof {
                lemma_table_patched(archives, offsets, j as int, file_offset as i32);
                lemma_overwrite_inside(s0, p0, head + table + bodies, 12 + place, patch);
                lemma_patched_middle(head, table, bodies, place, patch);
            }
            let _ = writer.seek(file_system_offsets[j])?;
            writer.write_i32(file_offset as i32)?;
            proof {
                offsets = offsets.update(j as int, file_offset as i32);
            }
            let ghost patched_table = table_bytes(archives, offsets);
            let ghost s6 = writer.stream();
            proof {
                lemma_table_len(archives, offsets);
                assert(s6 == overwrite(s0, p0, head + patched_table + bodies));
                assert(wrote(s0, p0, head + patched_table + bodies, s6, p5));
                lemma_wrote_kept(s0, p0, head + patched_table + bodies, s6, p5);
            }
            let _ = writer.seek(file_offset)?;
            match write_body(writer, archive) {
                Ok(()) => {
                    proof {
                        let items = |archive: ArchiveData| body_bytes(archive);
                        lemma_joined_take(archives, j as int, items);
                        lemma_wrote_twice(
                            s0,
                            p0,
                            head + patched_table + bodies,
                            s6,
                            p5,
                            body_bytes(archives[j as int]),
                            writer.stream(),
                            writer.offset(),
                        );
                        lemma_concat_assoc(
                            head + patched_table,
                            bodies,
                            body_bytes(archives[j as int]),
                        );
                    }
                },
                Err(e) => {
                    proof {
                        assert(!body_encodable(archives[j as int]));
                        lemma_kept_twice(s0, p0, s6, p5, writer.stream());
                    }
                    return Err(e);
                },
            }
            j += 1;
        }
        proof {
            reveal(index_bytes);
            assert(archives.take(n as int) =~= archives);
            assert(offsets =~= body_offsets(archives, p0));
        }
        Ok(())
    }
}

} // verus!

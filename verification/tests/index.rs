use roselib::errors::Error;
use roselib::io::ByteCursor;
use roselib::io::ReadRoseExt;
use roselib::vfs::{VfsFileMetadata, VfsIndex, VfsMetadata};

fn put_i32(out: &mut Vec<u8>, v: i32) {
    out.extend_from_slice(&v.to_le_bytes());
}

fn put_text(out: &mut Vec<u8>, text: &[u8]) {
    out.extend_from_slice(&(text.len() as u16).to_le_bytes());
    out.extend_from_slice(text);
}

fn file(path: &str, seed: i32) -> VfsFileMetadata {
    let mut file = VfsFileMetadata::new();
    file.filepath = String::from(path);
    file.offset = seed;
    file.size = seed + 1;
    file.block_size = seed + 2;
    file.is_deleted = seed % 2 == 1;
    file.is_compressed = seed % 3 == 1;
    file.is_encrypted = seed % 5 == 1;
    file.version = seed + 3;
    file.checksum = -seed;
    file
}

fn put_file(out: &mut Vec<u8>, raw_path: &[u8], file: &VfsFileMetadata) {
    put_text(out, raw_path);
    put_i32(out, file.offset);
    put_i32(out, file.size);
    put_i32(out, file.block_size);
    out.push(file.is_deleted as u8);
    out.push(file.is_compressed as u8);
    out.push(file.is_encrypted as u8);
    put_i32(out, file.version);
    put_i32(out, file.checksum);
}

/// An index file made up for a test, laid out as the game lays it out:
/// the table first, the bodies after it, paths with backslashes.
fn made_up(names: &[&str], files: &[Vec<VfsFileMetadata>]) -> Vec<u8> {
    let mut out = Vec::new();
    put_i32(&mut out, 129);
    put_i32(&mut out, 129);
    put_i32(&mut out, names.len() as i32);
    let mut places = Vec::new();
    for name in names {
        put_text(&mut out, name.as_bytes());
        places.push(out.len());
        put_i32(&mut out, 0);
    }
    for (k, list) in files.iter().enumerate() {
        let here = out.len() as i32;
        out[places[k]..places[k] + 4].copy_from_slice(&here.to_le_bytes());
        put_i32(&mut out, list.len() as i32);
        put_i32(&mut out, list.iter().filter(|f| f.is_deleted).count() as i32);
        put_i32(&mut out, list.first().map_or(0, |f| f.offset));
        for f in list {
            put_file(&mut out, f.filepath.replace('/', "\\").as_bytes(), f);
        }
    }
    out
}

fn game_index() -> Vec<u8> {
    let mut data: Vec<VfsFileMetadata> =
        (0..3192).map(|k| file(&format!("3DDATA/AVATAR/FILE{}.ZMS", k), k)).collect();
    data.push(file("3DDATA/EFFECT/_YETITYRANT_SKILL_01.EFT", 3192));
    let mut map: Vec<VfsFileMetadata> =
        (0..11052).map(|k| file(&format!("3DDATA/MAPS/TILE{}.HIM", k), k)).collect();
    map.push(file("3DDATA/TERRAIN/TILES/ZONETYPEINFO.STB", 11052));
    made_up(&["DATA.VFS", "MAP.VFS"], &[data, map])
}

fn decode(bytes: Vec<u8>) -> Result<VfsIndex, Error> {
    let mut cursor = ByteCursor::new(bytes);
    let mut index = VfsIndex::new();
    index.load_reader(&mut cursor)?;
    Ok(index)
}

#[test]
fn vfs_index_load() {
    let idx = decode(game_index()).unwrap();

    assert_eq!(idx.base_version, 129);
    assert_eq!(idx.current_version, 129);
    assert_eq!(idx.file_systems.len(), 2);

    let ref data_vfs = idx.file_systems[0];
    let ref data_vfs_last = data_vfs.files[data_vfs.files.len() - 1];

    assert_eq!(data_vfs.filename.as_str(), "DATA.VFS");
    assert_eq!(data_vfs.files.len(), 3193);
    assert_eq!(data_vfs_last.filepath.as_str(), "3DDATA/EFFECT/_YETITYRANT_SKILL_01.EFT");

    let ref map_vfs = idx.file_systems[1];
    let ref map_vfs_last = map_vfs.files[map_vfs.files.len() - 1];

    assert_eq!(map_vfs.filename.as_str(), "MAP.VFS");
    assert_eq!(map_vfs.files.len(), 11053);
    assert_eq!(map_vfs_last.filepath.as_str(), "3DDATA/TERRAIN/TILES/ZONETYPEINFO.STB");
}

#[test]
fn vfs_index_save() {
    let bytes = game_index();
    let idx_size = bytes.len();

    let mut orig_idx = decode(bytes).unwrap();

    let mut buffer: Vec<u8> = Vec::new();
    buffer.resize(idx_size, 0u8);

    let mut cursor = ByteCursor::new(buffer);
    orig_idx.save_writer(&mut cursor).unwrap();

    // Load again to check save was successful
    assert!(cursor.set_position(0));
    let mut new_idx = VfsIndex::new();
    new_idx.load_reader(&mut cursor).unwrap();

    assert_eq!(new_idx.base_version, 129);
    assert_eq!(new_idx.current_version, 129);
    assert_eq!(new_idx.file_systems.len(), 2);

    let ref data_vfs = new_idx.file_systems[0];
    let ref data_vfs_last = data_vfs.files[data_vfs.files.len() - 1];

    assert_eq!(data_vfs.filename.as_str(), "DATA.VFS");
    assert_eq!(data_vfs.files.len(), 3193);
    assert_eq!(data_vfs_last.filepath.as_str(), "3DDATA/EFFECT/_YETITYRANT_SKILL_01.EFT");

    let ref map_vfs = new_idx.file_systems[1];
    let ref map_vfs_last = map_vfs.files[map_vfs.files.len() - 1];

    assert_eq!(map_vfs.filename.as_str(), "MAP.VFS");
    assert_eq!(map_vfs.files.len(), 11053);
    assert_eq!(map_vfs_last.filepath.as_str(), "3DDATA/TERRAIN/TILES/ZONETYPEINFO.STB");
}

fn same_file(a: &VfsFileMetadata, b: &VfsFileMetadata) -> bool {
    a.filepath == b.filepath
        && a.offset == b.offset
        && a.size == b.size
        && a.block_size == b.block_size
        && a.is_deleted == b.is_deleted
        && a.is_compressed == b.is_compressed
        && a.is_encrypted == b.is_encrypted
        && a.version == b.version
        && a.checksum == b.checksum
}

fn same_index(a: &VfsIndex, b: &VfsIndex) -> bool {
    a.base_version == b.base_version
        && a.current_version == b.current_version
        && a.file_systems.len() == b.file_systems.len()
        && a.file_systems.iter().zip(&b.file_systems).all(|(x, y)| {
            x.filename == y.filename
                && x.files.len() == y.files.len()
                && x.files.iter().zip(&y.files).all(|(f, g)| same_file(f, g))
        })
}

#[test]
fn new_records_are_blank() {
    let index = VfsIndex::new();
    assert_eq!((index.base_version, index.current_version, index.file_systems.len()), (0, 0, 0));
    let archive = VfsMetadata::new();
    assert_eq!(archive.filename, "");
    assert!(archive.files.is_empty());
    let file = VfsFileMetadata::new();
    assert_eq!(file.filepath, "");
    assert_eq!((file.offset, file.size, file.block_size), (0, 0, 0));
    assert_eq!((file.version, file.checksum), (0, 0));
    assert_eq!((file.is_deleted, file.is_compressed, file.is_encrypted), (false, false, false));
}

#[test]
fn an_index_of_two_archives_one_of_them_empty() {
    let mut index = VfsIndex::new();
    index.base_version = 7;
    index.current_version = 9;
    let mut first = VfsMetadata::new();
    first.filename = String::from("A.VFS");
    first.files.push(file("DIR/ONE.BIN", 41));
    let mut second = VfsMetadata::new();
    second.filename = String::from("BB.VFS");
    index.file_systems.push(first);
    index.file_systems.push(second);

    let mut cursor = ByteCursor::new(Vec::new());
    assert_eq!(index.save_writer(&mut cursor), Ok(()));
    let written = cursor.get_ref().clone();

    let mut expected = Vec::new();
    put_i32(&mut expected, 7);
    put_i32(&mut expected, 9);
    put_i32(&mut expected, 2);
    put_text(&mut expected, b"A.VFS");
    put_i32(&mut expected, 35);
    put_text(&mut expected, b"BB.VFS");
    put_i32(&mut expected, 35 + 12 + 2 + 11 + 23);
    assert_eq!(expected.len(), 35);
    put_i32(&mut expected, 1);
    put_i32(&mut expected, 1);
    put_i32(&mut expected, 41);
    put_file(&mut expected, b"DIR/ONE.BIN", &file("DIR/ONE.BIN", 41));
    assert_eq!(expected.len(), 83);
    put_i32(&mut expected, 0);
    put_i32(&mut expected, 0);
    put_i32(&mut expected, 0);
    assert_eq!(written, expected);
    assert_eq!(cursor.position(), 95);

    assert!(cursor.set_position(0));
    let mut back = VfsIndex::new();
    assert_eq!(back.load_reader(&mut cursor), Ok(()));
    assert_eq!(cursor.position(), 95);
    assert_eq!(back.file_systems.len(), 2);
    assert_eq!(back.file_systems[0].files.len(), 1);
    assert_eq!(back.file_systems[1].files.len(), 0);
    assert!(same_index(&back, &index));
    assert_eq!(written[83 + 8..].to_vec(), vec![0, 0, 0, 0]);
}

#[test]
fn an_index_without_archives() {
    let mut index = VfsIndex::new();
    index.base_version = 1;
    index.current_version = -2;
    let mut cursor = ByteCursor::new(Vec::new());
    assert_eq!(index.save_writer(&mut cursor), Ok(()));
    assert_eq!(cursor.get_ref().clone(), vec![1, 0, 0, 0, 0xfe, 0xff, 0xff, 0xff, 0, 0, 0, 0]);
    assert!(cursor.set_position(0));
    let mut back = VfsIndex::new();
    assert_eq!(back.load_reader(&mut cursor), Ok(()));
    assert_eq!(cursor.position(), 12);
    assert!(same_index(&back, &index));
    let negative = decode(vec![1, 0, 0, 0, 2, 0, 0, 0, 0xff, 0xff, 0xff, 0xff]).unwrap();
    assert_eq!(negative.file_systems.len(), 0);
}

#[test]
fn the_deleted_files_are_counted() {
    let mut index = VfsIndex::new();
    for (name, seeds) in [("X", vec![1, 2, 3, 5, 7, 8]), ("Y", vec![2, 4]), ("Z", vec![9])] {
        let mut archive = VfsMetadata::new();
        archive.filename = String::from(name);
        for seed in seeds {
            archive.files.push(file(&format!("F{}", seed), seed));
        }
        index.file_systems.push(archive);
    }
    let mut cursor = ByteCursor::new(Vec::new());
    index.save_writer(&mut cursor).unwrap();
    let bytes = cursor.into_inner();
    let mut table = ByteCursor::new(bytes.clone());
    assert!(table.set_position(12));
    for (files, deleted, first) in [(6, 4, 1), (2, 0, 2), (1, 1, 9)] {
        let _ = table.read_string_u16().unwrap();
        let offset = table.read_i32().unwrap();
        let mut body = ByteCursor::new(bytes.clone());
        assert!(body.set_position(offset as u64));
        assert_eq!(body.read_i32(), Ok(files));
        assert_eq!(body.read_i32(), Ok(deleted));
        assert_eq!(body.read_i32(), Ok(first));
    }
    let back = decode(bytes).unwrap();
    assert!(same_index(&back, &index));
    let marked: Vec<usize> = back
        .file_systems
        .iter()
        .map(|a| a.files.iter().filter(|f| f.is_deleted).count())
        .collect();
    assert_eq!(marked, vec![4, 0, 1]);
}

#[test]
fn an_index_is_written_where_the_cursor_stands() {
    let mut index = VfsIndex::new();
    let mut archive = VfsMetadata::new();
    archive.filename = String::from("A");
    archive.files.push(file("P", 4));
    index.file_systems.push(archive);
    let mut cursor = ByteCursor::new(vec![0xee; 40]);
    assert!(cursor.set_position(10));
    assert_eq!(index.save_writer(&mut cursor), Ok(()));
    let bytes = cursor.get_ref().clone();
    assert_eq!(bytes[..10].to_vec(), vec![0xee; 10]);
    assert_eq!(bytes[10 + 12 + 3..10 + 12 + 7].to_vec(), 29i32.to_le_bytes().to_vec());
    assert_eq!(cursor.position(), 29 + 12 + 3 + 23);
    assert_eq!(bytes.len(), 29 + 12 + 3 + 23);
    assert!(cursor.set_position(10));
    let mut back = VfsIndex::new();
    assert_eq!(back.load_reader(&mut cursor), Ok(()));
    assert!(same_index(&back, &index));
    assert_eq!(cursor.position(), bytes.len() as u64);
}

#[test]
fn bodies_are_found_by_their_offsets() {
    let one = file("A/B", 6);
    let two = file("C", 7);
    let mut out = Vec::new();
    put_i32(&mut out, 1);
    put_i32(&mut out, 2);
    put_i32(&mut out, 2);
    put_text(&mut out, b"FIRST");
    let first_place = out.len();
    put_i32(&mut out, 0);
    put_text(&mut out, b"SECOND");
    let second_place = out.len();
    put_i32(&mut out, 0);
    out.extend_from_slice(&[0xaa; 9]);
    let second_body = out.len() as i32;
    put_i32(&mut out, 1);
    put_i32(&mut out, 99);
    put_i32(&mut out, 98);
    put_file(&mut out, b"C", &two);
    out.extend_from_slice(&[0xbb; 4]);
    let first_body = out.len() as i32;
    put_i32(&mut out, 2);
    put_i32(&mut out, 0);
    put_i32(&mut out, 0);
    put_file(&mut out, b"A\\B", &one);
    put_file(&mut out, b"C", &two);
    let end_of_first = out.len();
    out[first_place..first_place + 4].copy_from_slice(&first_body.to_le_bytes());
    out[second_place..second_place + 4].copy_from_slice(&second_body.to_le_bytes());

    let mut cursor = ByteCursor::new(out.clone());
    let mut index = VfsIndex::new();
    assert_eq!(index.load_reader(&mut cursor), Ok(()));
    assert_eq!(cursor.position(), first_body as u64 - 4);
    assert_eq!(index.file_systems[0].filename, "FIRST");
    assert_eq!(index.file_systems[0].files.len(), 2);
    assert!(same_file(&index.file_systems[0].files[0], &one));
    assert!(same_file(&index.file_systems[0].files[1], &two));
    assert_eq!(index.file_systems[1].filename, "SECOND");
    assert_eq!(index.file_systems[1].files.len(), 1);
    assert!(same_file(&index.file_systems[1].files[0], &two));

    out[second_place..second_place + 4].copy_from_slice(&first_body.to_le_bytes());
    let mut cursor = ByteCursor::new(out);
    let mut shared = VfsIndex::new();
    assert_eq!(shared.load_reader(&mut cursor), Ok(()));
    assert_eq!(cursor.position(), end_of_first as u64);
    assert_eq!(shared.file_systems[1].files.len(), 2);
}

#[test]
fn an_offset_outside_the_stream_is_a_short_read() {
    let good = made_up(&["A"], &[vec![file("P", 1)]]);
    assert!(decode(good.clone()).is_ok());
    let end = good.len() as i32;
    for offset in [-1i32, i32::MIN, end + 1, i32::MAX, end, end - 3] {
        let mut bad = good.clone();
        bad[15..19].copy_from_slice(&offset.to_le_bytes());
        let mut cursor = ByteCursor::new(bad);
        let mut index = VfsIndex::new();
        index.base_version = 5;
        assert_eq!(index.load_reader(&mut cursor), Err(Error::UnexpectedEof));
        assert_eq!(cursor.position(), good.len() as u64);
        assert_eq!(index.base_version, 5);
        assert!(index.file_systems.is_empty());
    }
}

#[test]
fn every_truncation_of_an_index_is_a_short_read() {
    let whole = made_up(&["A", "B"], &[vec![file("P", 1), file("Q", 2)], vec![]]);
    for len in 0..whole.len() {
        let mut cursor = ByteCursor::new(whole[..len].to_vec());
        let mut index = VfsIndex::new();
        assert_eq!(index.load_reader(&mut cursor), Err(Error::UnexpectedEof));
        assert_eq!(cursor.position(), len as u64);
    }
    let index = decode(whole).unwrap();
    assert_eq!(index.file_systems[1].files.len(), 0);
}

#[test]
fn texts_too_long_for_the_index_are_refused() {
    let mut index = VfsIndex::new();
    let mut archive = VfsMetadata::new();
    archive.filename = "n".repeat(65536);
    index.file_systems.push(archive);
    let mut cursor = ByteCursor::new(vec![0xee; 3]);
    assert!(cursor.set_position(3));
    assert_eq!(index.save_writer(&mut cursor), Err(Error::TooLarge));
    assert_eq!(cursor.get_ref()[..3].to_vec(), vec![0xee; 3]);

    index.file_systems[0].filename = String::from("ok");
    index.file_systems[0].files.push(file("fine", 1));
    index.file_systems[0].files.push(file(&"p".repeat(70000), 2));
    let mut cursor = ByteCursor::new(Vec::new());
    assert_eq!(index.save_writer(&mut cursor), Err(Error::TooLarge));
    index.file_systems[0].files.pop();
    let mut cursor = ByteCursor::new(Vec::new());
    assert_eq!(index.save_writer(&mut cursor), Ok(()));
}

#[test]
fn a_text_that_ends_in_a_zero_byte_loses_it_on_the_way_back() {
    let mut bytes = Vec::new();
    put_i32(&mut bytes, 0);
    put_i32(&mut bytes, 0);
    put_i32(&mut bytes, 1);
    put_text(&mut bytes, b"A\0\0");
    put_i32(&mut bytes, 21);
    put_i32(&mut bytes, 0);
    put_i32(&mut bytes, 0);
    put_i32(&mut bytes, 0);
    let mut first = decode(bytes).unwrap();
    assert_eq!(first.file_systems[0].filename, "A\0");
    let mut cursor = ByteCursor::new(Vec::new());
    first.save_writer(&mut cursor).unwrap();
    let second = decode(cursor.into_inner()).unwrap();
    assert_eq!(second.file_systems[0].filename, "A");
}

use roselib::errors::Error;
use roselib::him::Heightmap;
use roselib::io::ByteCursor;
use roselib::lightmap::{Lightmap, LightmapObject, LightmapPart};
use roselib::utils::Float32;

fn put_i32(out: &mut Vec<u8>, v: i32) {
    out.extend_from_slice(&v.to_le_bytes());
}

fn put_text(out: &mut Vec<u8>, text: &str) {
    out.push(text.len() as u8);
    out.extend_from_slice(text.as_bytes());
}

fn part(name: &str, filename: &str, numbers: [i32; 5]) -> LightmapPart {
    let mut part = LightmapPart::new();
    part.name = String::from(name);
    part.id = numbers[0];
    part.filename = String::from(filename);
    part.lightmap_index = numbers[1];
    part.pixels_per_part = numbers[2];
    part.parts_per_width = numbers[3];
    part.part_position = numbers[4];
    part
}

fn put_part(out: &mut Vec<u8>, part: &LightmapPart) {
    put_text(out, &part.name);
    put_i32(out, part.id);
    put_text(out, &part.filename);
    put_i32(out, part.lightmap_index);
    put_i32(out, part.pixels_per_part);
    put_i32(out, part.parts_per_width);
    put_i32(out, part.part_position);
}

/// A lightmap file made up for a test.
fn game_lightmap() -> Vec<u8> {
    let mut out = Vec::new();
    put_i32(&mut out, 266);
    for id in 1..=266 {
        let count = if id == 1 { 8 } else if id == 266 { 1 } else { id % 4 };
        put_i32(&mut out, count);
        put_i32(&mut out, id);
        for k in 0..count {
            let made = if id == 1 && k == 0 {
                let name = "fountain_Object_1_0_32_32_LightingMap.tga";
                part(name, "Object_256_1.dds", [0, 10, 256, 2, 2])
            } else if id == 266 {
                let name = "stonewall03_Object_266_0_32_32_LightingMap.tga";
                part(name, "Object_32_0.dds", [0, 0, 32, 16, 52])
            } else {
                part(&format!("part_{}_{}", id, k), "Object_64_3.dds", [k, id, 64, 8, k + id])
            };
            put_part(&mut out, &made);
        }
    }
    put_i32(&mut out, 38);
    for k in 0..38 {
        put_text(&mut out, &format!("Object_{}.dds", k));
    }
    out
}

fn check_game_lightmap(lit: &Lightmap) {
    assert_eq!(lit.objects.len(), 266);
    assert_eq!(lit.filenames.len(), 38);

    let ref first_obj = lit.objects[0];
    let ref first_part = first_obj.parts[0];
    let ref last_obj = lit.objects[lit.objects.len() - 1];
    let ref last_part = last_obj.parts[last_obj.parts.len() - 1];

    assert_eq!(first_obj.id, 1);
    assert_eq!(first_obj.parts.len(), 8);

    assert_eq!(first_part.name, "fountain_Object_1_0_32_32_LightingMap.tga");
    assert_eq!(first_part.id, 0);
    assert_eq!(first_part.filename, "Object_256_1.dds");
    assert_eq!(first_part.lightmap_index, 10);
    assert_eq!(first_part.pixels_per_part, 256);
    assert_eq!(first_part.parts_per_width, 2);
    assert_eq!(first_part.part_position, 2);

    assert_eq!(last_obj.id, 266);
    assert_eq!(last_obj.parts.len(), 1);

    assert_eq!(last_part.name, "stonewall03_Object_266_0_32_32_LightingMap.tga");
    assert_eq!(last_part.id, 0);
    assert_eq!(last_part.filename, "Object_32_0.dds");
    assert_eq!(last_part.lightmap_index, 0);
    assert_eq!(last_part.pixels_per_part, 32);
    assert_eq!(last_part.parts_per_width, 16);
    assert_eq!(last_part.part_position, 52);
}

#[test]
fn lightmap_load() {
    let mut cursor = ByteCursor::new(game_lightmap());
    let mut lit = Lightmap::new();
    lit.load_reader(&mut cursor).unwrap();
    check_game_lightmap(&lit);
}

#[test]
fn lightmap_save() {
    let bytes = game_lightmap();
    let lit_size = bytes.len();

    let mut cursor = ByteCursor::new(bytes.clone());
    let mut orig_lit = Lightmap::new();
    orig_lit.load_reader(&mut cursor).unwrap();

    let mut buffer: Vec<u8> = Vec::new();
    buffer.resize(lit_size, 0u8);

    let mut cursor = ByteCursor::new(buffer);
    orig_lit.save_writer(&mut cursor).unwrap();
    assert_eq!(cursor.get_ref().clone(), bytes);

    assert!(cursor.set_position(0));
    let mut new_lit = Lightmap::new();
    new_lit.load_reader(&mut cursor).unwrap();
    check_game_lightmap(&new_lit);
}

#[test]
fn new_lightmap_records_are_blank() {
    let table = Lightmap::new();
    assert!(table.objects.is_empty() && table.filenames.is_empty());
    let object = LightmapObject::new();
    assert_eq!(object.id, -1);
    assert!(object.parts.is_empty());
    let part = LightmapPart::new();
    assert_eq!((part.name.as_str(), part.filename.as_str()), ("", ""));
    assert_eq!((part.id, part.lightmap_index, part.part_position), (-1, -1, -1));
    assert_eq!((part.pixels_per_part, part.parts_per_width), (0, 0));
}

#[test]
fn an_empty_lightmap_is_two_counts() {
    let mut table = Lightmap::new();
    let mut cursor = ByteCursor::new(Vec::new());
    assert_eq!(table.save_writer(&mut cursor), Ok(()));
    assert_eq!(cursor.get_ref().clone(), vec![0; 8]);
    let mut cursor = ByteCursor::new(vec![0xff, 0xff, 0xff, 0xff, 0, 0, 0, 0x80, 7]);
    assert_eq!(table.load_reader(&mut cursor), Ok(()));
    assert_eq!(cursor.position(), 8);
    assert!(table.objects.is_empty() && table.filenames.is_empty());
}

#[test]
fn every_truncation_of_a_lightmap_is_a_short_read() {
    let mut whole = Vec::new();
    put_i32(&mut whole, 1);
    put_i32(&mut whole, 2);
    put_i32(&mut whole, 5);
    put_part(&mut whole, &part("a", "bc", [1, 2, 3, 4, 5]));
    put_part(&mut whole, &part("", "", [6, 7, 8, 9, 10]));
    put_i32(&mut whole, 1);
    put_text(&mut whole, "name");
    for len in 0..whole.len() {
        let mut cursor = ByteCursor::new(whole[..len].to_vec());
        let mut table = Lightmap::new();
        table.filenames.push(String::from("kept"));
        assert_eq!(table.load_reader(&mut cursor), Err(Error::UnexpectedEof));
        assert_eq!(cursor.position(), len as u64);
        assert_eq!(table.filenames, vec![String::from("kept")]);
    }
    let mut cursor = ByteCursor::new(whole.clone());
    let mut table = Lightmap::new();
    table.filenames.push(String::from("replaced"));
    assert_eq!(table.load_reader(&mut cursor), Ok(()));
    assert_eq!(table.objects[0].id, 5);
    assert_eq!(table.objects[0].parts[1].part_position, 10);
    assert_eq!(table.filenames, vec![String::from("name")]);
    let mut out = ByteCursor::new(Vec::new());
    assert_eq!(table.save_writer(&mut out), Ok(()));
    assert_eq!(out.into_inner(), whole);
}

#[test]
fn a_lightmap_text_of_more_than_255_bytes_is_refused() {
    let mut table = Lightmap::new();
    let mut object = LightmapObject::new();
    object.parts.push(part("short", &"f".repeat(256), [0; 5]));
    table.objects.push(object);
    let mut cursor = ByteCursor::new(vec![0xee; 2]);
    assert!(cursor.set_position(2));
    assert_eq!(table.save_writer(&mut cursor), Err(Error::TooLarge));
    assert_eq!(cursor.get_ref()[..2].to_vec(), vec![0xee; 2]);
    table.objects[0].parts[0].filename.pop();
    table.filenames.push("n".repeat(300));
    let mut cursor = ByteCursor::new(Vec::new());
    assert_eq!(table.save_writer(&mut cursor), Err(Error::TooLarge));
    table.filenames[0].truncate(255);
    let mut cursor = ByteCursor::new(Vec::new());
    assert_eq!(table.save_writer(&mut cursor), Ok(()));
}

fn heightmap_bytes(width: i32, height: i32, samples: &[f32]) -> Vec<u8> {
    let mut out = Vec::new();
    put_i32(&mut out, width);
    put_i32(&mut out, height);
    put_i32(&mut out, 4);
    out.extend_from_slice(&2.5f32.to_le_bytes());
    for sample in samples {
        out.extend_from_slice(&sample.to_le_bytes());
    }
    out
}

fn number(bits: Float32) -> f32 {
    f32::from_bits(bits.to_bits())
}

#[test]
fn a_heightmap_is_read_row_by_row() {
    let samples = [3.0f32, -1.5, 7.25, 0.0, 2.0, -8.0];
    let mut bytes = heightmap_bytes(3, 2, &samples);
    bytes.extend_from_slice(&[1, 2, 3, 4, 5]);
    let mut cursor = ByteCursor::new(bytes);
    let mut map = Heightmap::new();
    assert!(number(map.min_height).is_nan() && number(map.max_height).is_nan());
    assert_eq!(map.read(&mut cursor), Ok(()));
    assert_eq!(cursor.position(), 16 + 24);
    assert_eq!((map.width, map.height, map.grid_count), (3, 2, 4));
    assert_eq!(number(map.scale), 2.5);
    assert_eq!(map.heights.len(), 2);
    let rows: Vec<Vec<f32>> =
        map.heights.iter().map(|row| row.iter().map(|s| number(*s)).collect()).collect();
    assert_eq!(rows, vec![vec![3.0, -1.5, 7.25], vec![0.0, 2.0, -8.0]]);
    assert_eq!(number(map.min_height), -8.0);
    assert_eq!(number(map.max_height), 7.25);
}

#[test]
fn the_minimum_and_the_maximum_run_as_the_primitive_type_compares() {
    let cases: [&[f32]; 6] = [
        &[f32::NAN, 1.0, f32::NAN, -2.0, 0.5],
        &[1.0, f32::NAN],
        &[f32::NAN],
        &[0.0, -0.0],
        &[-0.0, 0.0, f32::INFINITY, f32::NEG_INFINITY],
        &[5.0, 5.0, 4.0, 6.0, f32::NAN, 6.5],
    ];
    for samples in cases {
        let mut low = f32::NAN;
        let mut high = f32::NAN;
        for &sample in samples {
            if low.is_nan() || sample < low {
                low = sample;
            }
            if high.is_nan() || sample > high {
                high = sample;
            }
        }
        let mut cursor = ByteCursor::new(heightmap_bytes(samples.len() as i32, 1, samples));
        let mut map = Heightmap::new();
        assert_eq!(map.read(&mut cursor), Ok(()));
        assert_eq!(map.min_height.to_bits(), low.to_bits());
        assert_eq!(map.max_height.to_bits(), high.to_bits());
    }
}

#[test]
fn a_heightmap_without_samples() {
    for (width, height, rows) in [(0, 0, 0), (4, 0, 0), (0, 3, 3), (-1, 2, 2), (5, -2, 0)] {
        let mut cursor = ByteCursor::new(heightmap_bytes(width, height, &[]));
        let mut map = Heightmap::new();
        assert_eq!(map.read(&mut cursor), Ok(()));
        assert_eq!(cursor.position(), 16);
        assert_eq!(map.heights.len(), rows);
        assert!(map.heights.iter().all(|row| row.is_empty()));
        assert!(number(map.min_height).is_nan() && number(map.max_height).is_nan());
        assert_eq!((map.width, map.height), (width, height));
    }
}

#[test]
fn every_truncation_of_a_heightmap_is_a_short_read() {
    let whole = heightmap_bytes(2, 2, &[1.0, 2.0, 3.0, 4.0]);
    for len in 0..whole.len() {
        let mut cursor = ByteCursor::new(whole[..len].to_vec());
        let mut map = Heightmap::new();
        map.width = 9;
        assert_eq!(map.read(&mut cursor), Err(Error::UnexpectedEof));
        assert_eq!(cursor.position(), len as u64);
        assert_eq!(map.width, 9);
        assert!(map.heights.is_empty());
    }
}

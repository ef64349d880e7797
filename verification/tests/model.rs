use roselib::errors::Error;
use roselib::files::zms::{version_number, ModelFile};
use roselib::files::zms_layout::{Column, ModelVertex, VertFormat};
use roselib::files::RoseFile;
use roselib::io::ByteCursor;
use roselib::io::ReadRoseExt;
use roselib::utils::{BoundingBox, Color4, Float32, Vector2, Vector3, Vector4};

fn single(value: f32) -> Float32 {
    Float32::from_bits(value.to_bits())
}

fn put_i16(out: &mut Vec<u8>, v: i16) {
    out.extend_from_slice(&v.to_le_bytes());
}

fn put_f32(out: &mut Vec<u8>, v: f32) {
    out.extend_from_slice(&v.to_le_bytes());
}

/// The width of one vertex in the block of a model with this bitmask.
fn stride(format: i32) -> usize {
    let mut width = 0;
    for (bit, bytes) in [(1, 12), (2, 12), (3, 16), (6, 12), (7, 8), (8, 8), (9, 8), (10, 8)] {
        if format & (1 << bit) != 0 {
            width += bytes;
        }
    }
    if format & (1 << 4) != 0 && format & (1 << 5) != 0 {
        width += 24;
    }
    width
}

/// A model file made up for a test: the header, the counts and the pool tag
/// are as given, and every other byte is a counter.
fn made_up(
    identifier: &str,
    format: i32,
    bones: i16,
    vertices: i16,
    indices: i16,
    materials: i16,
    strips: i16,
    pool: Option<i16>,
) -> Vec<u8> {
    let mut out = identifier.as_bytes().to_vec();
    out.push(0);
    out.extend_from_slice(&format.to_le_bytes());
    for k in 0..6 {
        put_f32(&mut out, k as f32);
    }
    let mut counter = 0u8;
    let mut fill = |out: &mut Vec<u8>, n: usize| {
        for _ in 0..n {
            out.push(counter);
            counter = counter.wrapping_add(1);
        }
    };
    put_i16(&mut out, bones);
    fill(&mut out, 2 * bones.max(0) as usize);
    put_i16(&mut out, vertices);
    fill(&mut out, stride(format) * vertices.max(0) as usize);
    put_i16(&mut out, indices);
    fill(&mut out, 6 * indices.max(0) as usize);
    put_i16(&mut out, materials);
    fill(&mut out, 2 * materials.max(0) as usize);
    put_i16(&mut out, strips);
    fill(&mut out, 2 * strips.max(0) as usize);
    if let Some(pool) = pool {
        put_i16(&mut out, pool);
    }
    out
}

fn decode(bytes: Vec<u8>) -> Result<ModelFile, Error> {
    let mut cursor = ByteCursor::new(bytes);
    ModelFile::from_reader(&mut cursor)
}

fn model_files() -> [Vec<u8>; 3] {
    [
        made_up("ZMS0008", 182, 8, 336, 578, 6, 0, Some(0)),
        made_up("ZMS0007", 390, 0, 131, 128, 0, 0, None),
        made_up("ZMS0008", 134, 0, 544, 532, 2, 0, Some(0)),
    ]
}

#[test]
fn model_load() {
    let [file1, file2, file3] = model_files();

    let model1 = decode(file1).unwrap();
    assert_eq!(model1.identifier.as_str(), "ZMS0008");
    assert_eq!(model1.format, 182);
    assert_eq!(model1.positions_enabled(), true);
    assert_eq!(model1.normals_enabled(), true);
    assert_eq!(model1.colors_enabled(), false);
    assert_eq!(model1.bones_enabled(), true);
    assert_eq!(model1.tangents_enabled(), false);
    assert_eq!(model1.uv1_enabled(), true);
    assert_eq!(model1.uv2_enabled(), false);
    assert_eq!(model1.uv3_enabled(), false);
    assert_eq!(model1.uv4_enabled(), false);

    assert_eq!(model1.bones.len(), 8);
    assert_eq!(model1.vertices.len(), 336);
    assert_eq!(model1.indices.len(), 578);
    assert_eq!(model1.materials.len(), 6);
    assert_eq!(model1.strips.len(), 0);
    assert_eq!(model1.pool, 0);

    let model2 = decode(file2).unwrap();
    assert_eq!(model2.identifier.as_str(), "ZMS0007");
    assert_eq!(model2.format, 390);
    assert_eq!(model2.positions_enabled(), true);
    assert_eq!(model2.normals_enabled(), true);
    assert_eq!(model2.colors_enabled(), false);
    assert_eq!(model2.bones_enabled(), false);
    assert_eq!(model2.tangents_enabled(), false);
    assert_eq!(model2.uv1_enabled(), true);
    assert_eq!(model2.uv2_enabled(), true);
    assert_eq!(model2.uv3_enabled(), false);
    assert_eq!(model2.uv4_enabled(), false);

    assert_eq!(model2.bones.len(), 0);
    assert_eq!(model2.vertices.len(), 131);
    assert_eq!(model2.indices.len(), 128);
    assert_eq!(model2.materials.len(), 0);
    assert_eq!(model2.strips.len(), 0);
    assert_eq!(model2.pool, 0);

    let model3 = decode(file3).unwrap();
    assert_eq!(model3.identifier.as_str(), "ZMS0008");
    assert_eq!(model3.format, 134);
    assert_eq!(model3.positions_enabled(), true);
    assert_eq!(model3.normals_enabled(), true);
    assert_eq!(model3.colors_enabled(), false);
    assert_eq!(model3.bones_enabled(), false);
    assert_eq!(model3.tangents_enabled(), false);
    assert_eq!(model3.uv1_enabled(), true);
    assert_eq!(model3.uv2_enabled(), false);
    assert_eq!(model3.uv3_enabled(), false);
    assert_eq!(model3.uv4_enabled(), false);

    assert_eq!(model3.bones.len(), 0);
    assert_eq!(model3.vertices.len(), 544);
    assert_eq!(model3.indices.len(), 532);
    assert_eq!(model3.materials.len(), 2);
    assert_eq!(model3.strips.len(), 0);
    assert_eq!(model3.pool, 0);
}

#[test]
fn model_save() {
    for zms_file in model_files() {
        let zms_size = zms_file.len();

        let mut orig_zms = decode(zms_file).unwrap();

        let mut buffer: Vec<u8> = Vec::new();
        buffer.resize(zms_size, 0u8);

        let mut cursor = ByteCursor::new(buffer);
        orig_zms.write(&mut cursor).unwrap();

        assert!(cursor.set_position(0));

        let mut new_zms = ModelFile::new();
        new_zms.read(&mut cursor).unwrap();

        if orig_zms.identifier.as_str() == "ZMS0007" {
            orig_zms.identifier = String::from("ZMS0008");
        }

        assert_eq!(orig_zms, new_zms);
    }
}

#[test]
fn a_new_model_is_empty() {
    let model = ModelFile::new();
    assert_eq!(model.identifier, "");
    assert_eq!(model.format, -1);
    let origin = Vector3::<Float32>::new();
    assert_eq!(model.bounding_box, BoundingBox { min: origin, max: origin });
    assert!(model.bones.is_empty() && model.vertices.is_empty() && model.indices.is_empty());
    assert!(model.materials.is_empty() && model.strips.is_empty());
    assert_eq!(model.pool, 0);
    let vertex = ModelVertex::new();
    assert_eq!(vertex.position, Vector3 { x: single(0.0), y: single(0.0), z: single(0.0) });
    assert_eq!(vertex.color, Color4::new());
    assert_eq!(vertex.bone_indices, Vector4 { w: 0, x: 0, y: 0, z: 0 });
    assert_eq!(vertex.uv4, Vector2::<Float32>::new());
}

#[test]
fn the_bits_of_the_bitmask() {
    assert_eq!(VertFormat::Position.mask(), 1 << 1);
    assert_eq!(VertFormat::Normal.mask(), 1 << 2);
    assert_eq!(VertFormat::Color.mask(), 1 << 3);
    assert_eq!(VertFormat::BoneWeight.mask(), 1 << 4);
    assert_eq!(VertFormat::BoneIndex.mask(), 1 << 5);
    assert_eq!(VertFormat::Tangent.mask(), 1 << 6);
    assert_eq!(VertFormat::UV1.mask(), 1 << 7);
    assert_eq!(VertFormat::UV2.mask(), 1 << 8);
    assert_eq!(VertFormat::UV3.mask(), 1 << 9);
    assert_eq!(VertFormat::UV4.mask(), 1 << 10);
    assert!(VertFormat::UV1.is_set(182));
    assert!(!VertFormat::Color.is_set(182));
    assert!(Column::Bones.enabled(48));
    assert!(!Column::Bones.enabled(16));
    assert!(!Column::Bones.enabled(32));
    assert!(Column::Uv4.enabled(-1));
    assert!(!Column::Position.enabled(1));
}

/// Position, normal and the first texture coordinate; four vertices and two
/// triangles; nothing else.
fn small_model(identifier: &str, pool: Option<i16>) -> Vec<u8> {
    let mut out = identifier.as_bytes().to_vec();
    out.push(0);
    out.extend_from_slice(&(2i32 | 4 | 128).to_le_bytes());
    for v in [-1.0f32, -2.0, -3.0, 1.0, 2.0, 3.0] {
        put_f32(&mut out, v);
    }
    put_i16(&mut out, 0);
    put_i16(&mut out, 4);
    for k in 0..4 {
        for axis in 0..3 {
            put_f32(&mut out, (10 * k + axis) as f32);
        }
    }
    for k in 0..4 {
        for axis in 0..3 {
            put_f32(&mut out, (100 + 10 * k + axis) as f32);
        }
    }
    for k in 0..4 {
        for axis in 0..2 {
            put_f32(&mut out, (200 + 10 * k + axis) as f32);
        }
    }
    put_i16(&mut out, 2);
    for v in [0i16, 1, 2, 2, 3, 0] {
        put_i16(&mut out, v);
    }
    put_i16(&mut out, 0);
    put_i16(&mut out, 0);
    if let Some(pool) = pool {
        put_i16(&mut out, pool);
    }
    out
}

#[test]
fn an_old_model_comes_back_as_the_newest_version() {
    let old = small_model("ZMS0007", None);
    let mut cursor = ByteCursor::new(old.clone());
    let mut model = ModelFile::from_reader(&mut cursor).unwrap();
    assert_eq!(cursor.position(), old.len() as u64);
    assert_eq!(model.identifier, "ZMS0007");
    assert_eq!(model.format, 134);
    assert_eq!(
        model.bounding_box,
        BoundingBox {
            min: Vector3 { x: single(-1.0), y: single(-2.0), z: single(-3.0) },
            max: Vector3 { x: single(1.0), y: single(2.0), z: single(3.0) },
        }
    );
    assert!(model.bones.is_empty());
    assert!(model.materials.is_empty());
    assert!(model.strips.is_empty());
    assert_eq!(model.pool, 0);
    assert_eq!(model.vertices.len(), 4);
    for (k, vertex) in model.vertices.iter().enumerate() {
        let at = |first: f32| single(first + 10.0 * k as f32);
        assert_eq!(vertex.position, Vector3 { x: at(0.0), y: at(1.0), z: at(2.0) });
        assert_eq!(vertex.normal, Vector3 { x: at(100.0), y: at(101.0), z: at(102.0) });
        assert_eq!(vertex.uv1, Vector2 { x: at(200.0), y: at(201.0) });
        assert_eq!(vertex.color, Color4::new());
        assert_eq!(vertex.bone_weights, Vector4::<Float32>::new());
        assert_eq!(vertex.bone_indices, Vector4::<i16>::new());
        assert_eq!(vertex.tangent, Vector3::<Float32>::new());
        assert_eq!(vertex.uv2, Vector2::<Float32>::new());
        assert_eq!(vertex.uv3, Vector2::<Float32>::new());
        assert_eq!(vertex.uv4, Vector2::<Float32>::new());
    }
    assert_eq!(model.indices.len(), 2);
    assert_eq!(model.indices[0], Vector3 { x: 0, y: 1, z: 2 });
    assert_eq!(model.indices[1], Vector3 { x: 2, y: 3, z: 0 });

    let mut out = ByteCursor::new(Vec::new());
    assert_eq!(model.write(&mut out), Ok(()));
    let written = out.into_inner();
    assert_eq!(written, small_model("ZMS0008", Some(0)));
    assert_eq!(written.len(), old.len() + 2);
    assert_eq!(written[..7].to_vec(), b"ZMS0008".to_vec());
    assert_eq!(written[8..old.len()].to_vec(), old[8..].to_vec());
    assert_eq!(written[old.len()..].to_vec(), vec![0, 0]);

    let again = decode(written).unwrap();
    model.identifier = String::from("ZMS0008");
    assert_eq!(again, model);
}

#[test]
fn the_pool_tag_is_read_from_version_eight_on() {
    let mut bytes = small_model("ZMS0008", Some(-5));
    bytes.extend_from_slice(&[1, 2, 3]);
    let mut cursor = ByteCursor::new(bytes.clone());
    let model = ModelFile::from_reader(&mut cursor).unwrap();
    assert_eq!(model.pool, -5);
    assert_eq!(cursor.position(), bytes.len() as u64 - 3);

    let mut cursor = ByteCursor::new(small_model("ZMS0007", Some(-5)));
    let model = ModelFile::from_reader(&mut cursor).unwrap();
    assert_eq!(model.pool, 0);
    assert_eq!(cursor.position(), cursor.get_ref().len() as u64 - 2);

    let mut cursor = ByteCursor::new(small_model("ZMS0008", None));
    assert_eq!(ModelFile::from_reader(&mut cursor).err(), Some(Error::UnexpectedEof));
}

#[test]
fn an_unknown_identifier_stops_the_read_right_after_it() {
    for identifier in ["ZMS0006", "ZMS0009", "", "zms0008", "ZMS0008 ", "ZMS00080"] {
        let bytes = small_model(identifier, Some(0));
        let mut cursor = ByteCursor::new(bytes);
        let mut model = ModelFile::new();
        model.pool = 77;
        assert_eq!(model.read(&mut cursor), Err(Error::UnsupportedVersion));
        assert_eq!(cursor.position(), identifier.len() as u64 + 1);
        assert_eq!(model.pool, 77);
        assert_eq!(model.identifier, "");
        assert_eq!(cursor.read_i32(), Ok(134));
    }
    let mut cursor = ByteCursor::new(b"ZMS0008".to_vec());
    assert_eq!(ModelFile::from_reader(&mut cursor).err(), Some(Error::UnexpectedEof));
}

#[test]
fn two_identifiers_are_known() {
    assert_eq!(version_number("ZMS0007"), Some(7));
    assert_eq!(version_number("ZMS0008"), Some(8));
    for other in ["", "ZMS", "ZMS0006", "ZMS0009", "ZMS00070", "zms0007", " ZMS0007", "ZMS0007\0"] {
        assert_eq!(version_number(other), None);
    }
}

#[test]
fn a_read_starts_at_the_cursor() {
    let mut bytes = vec![0xee; 5];
    bytes.extend_from_slice(&small_model("ZMS0008", Some(3)));
    let mut cursor = ByteCursor::new(bytes);
    assert!(cursor.set_position(5));
    let model = ModelFile::from_reader(&mut cursor).unwrap();
    assert_eq!(model.pool, 3);
    assert_eq!(cursor.position(), cursor.get_ref().len() as u64);
}

#[test]
fn every_truncation_is_a_short_read() {
    let whole = small_model("ZMS0008", Some(0));
    for len in 0..whole.len() {
        let mut cursor = ByteCursor::new(whole[..len].to_vec());
        let mut model = ModelFile::new();
        assert_eq!(model.read(&mut cursor), Err(Error::UnexpectedEof));
        assert_eq!(cursor.position(), len as u64);
        assert_eq!(model, ModelFile::new());
    }
    assert!(decode(whole).is_ok());
}

#[test]
fn only_the_columns_of_the_bitmask_are_read() {
    for format in 0..2048i32 {
        let bytes = made_up("ZMS0008", format, 1, 3, 1, 1, 1, Some(9));
        assert_eq!(bytes.len(), 8 + 4 + 24 + 4 + 2 + 3 * stride(format) + 8 + 4 + 4 + 2);
        let mut cursor = ByteCursor::new(bytes);
        let model = ModelFile::from_reader(&mut cursor).unwrap();
        assert_eq!(cursor.position(), cursor.get_ref().len() as u64);
        assert_eq!(model.vertices.len(), 3);
        assert_eq!(model.pool, 9);
        let zero = ModelVertex::new();
        for vertex in &model.vertices {
            if !model.colors_enabled() {
                assert_eq!(vertex.color, zero.color);
            }
            if !model.bones_enabled() {
                assert_eq!(vertex.bone_weights, zero.bone_weights);
                assert_eq!(vertex.bone_indices, zero.bone_indices);
            }
            if !model.uv3_enabled() {
                assert_eq!(vertex.uv3, zero.uv3);
            }
        }
    }
}

#[test]
fn one_bone_bit_alone_reads_no_bone_bytes() {
    for format in [16, 32, 2 | 16, 4 | 32] {
        assert_eq!(stride(format), stride(format & !48));
        let bytes = made_up("ZMS0008", format, 0, 5, 0, 0, 0, Some(0));
        let mut cursor = ByteCursor::new(bytes);
        let model = ModelFile::from_reader(&mut cursor).unwrap();
        assert_eq!(model.bones_enabled(), false);
        assert_eq!(cursor.position(), cursor.get_ref().len() as u64);
        for vertex in &model.vertices {
            assert_eq!(vertex.bone_weights, Vector4::<Float32>::new());
            assert_eq!(vertex.bone_indices, Vector4::<i16>::new());
        }
    }
    let both = made_up("ZMS0008", 48, 0, 5, 0, 0, 0, Some(0));
    assert_eq!(both.len(), made_up("ZMS0008", 16, 0, 5, 0, 0, 0, Some(0)).len() + 5 * 24);
    let model = decode(both).unwrap();
    assert_eq!(model.bones_enabled(), true);
    assert_eq!(
        model.vertices[1].bone_indices,
        Vector4 { w: 0x2928, x: 0x2b2a, y: 0x2d2c, z: 0x2f2e }
    );
}

#[test]
fn columns_come_one_after_the_other() {
    let bytes = made_up("ZMS0008", 2 | 128, 0, 2, 0, 0, 0, Some(0));
    let model = decode(bytes).unwrap();
    let word = |at: u8| Float32::from_bits(u32::from_le_bytes([at, at + 1, at + 2, at + 3]));
    assert_eq!(model.vertices[0].position, Vector3 { x: word(0), y: word(4), z: word(8) });
    assert_eq!(model.vertices[1].position, Vector3 { x: word(12), y: word(16), z: word(20) });
    assert_eq!(model.vertices[0].uv1, Vector2 { x: word(24), y: word(28) });
    assert_eq!(model.vertices[1].uv1, Vector2 { x: word(32), y: word(36) });
}

#[test]
fn a_negative_count_counts_as_none() {
    let bytes = made_up("ZMS0008", 2, -1, -7, -3, i16::MIN, -1, Some(4));
    let mut cursor = ByteCursor::new(bytes);
    let mut model = ModelFile::from_reader(&mut cursor).unwrap();
    assert_eq!(cursor.position(), cursor.get_ref().len() as u64);
    assert!(model.bones.is_empty() && model.vertices.is_empty() && model.indices.is_empty());
    assert!(model.materials.is_empty() && model.strips.is_empty());
    assert_eq!(model.pool, 4);
    let mut out = ByteCursor::new(Vec::new());
    model.write(&mut out).unwrap();
    assert_eq!(out.into_inner(), made_up("ZMS0008", 2, 0, 0, 0, 0, 0, Some(4)));
}

#[test]
fn a_run_too_long_for_its_count_is_refused_before_anything_is_written() {
    let mut model = ModelFile::new();
    model.format = 0;
    model.strips = vec![0; 0x8000];
    let mut cursor = ByteCursor::new(vec![1, 2, 3]);
    assert_eq!(model.write(&mut cursor), Err(Error::TooLarge));
    assert_eq!(cursor.position(), 0);
    assert_eq!(cursor.get_ref().clone(), vec![1, 2, 3]);
    model.strips.pop();
    assert_eq!(model.write(&mut cursor), Ok(()));
    assert_eq!(cursor.get_ref().len(), 8 + 4 + 24 + 2 + 2 + 2 + 2 + 2 + 2 * 0x7fff + 2);
    model.vertices = vec![ModelVertex::new(); 0x8000];
    assert_eq!(model.write(&mut cursor), Err(Error::TooLarge));
    model.vertices.clear();
    model.bones = vec![0; 0x8000];
    assert_eq!(model.write(&mut cursor), Err(Error::TooLarge));
    model.bones.clear();
    model.indices = vec![Vector3::<i16>::new(); 0x8000];
    assert_eq!(model.write(&mut cursor), Err(Error::TooLarge));
    model.indices.clear();
    model.materials = vec![0; 0x8000];
    assert_eq!(model.write(&mut cursor), Err(Error::TooLarge));
}

#[test]
fn a_written_model_reads_back_with_unused_attributes_blank() {
    let mut model = ModelFile::new();
    model.identifier = String::from("anything");
    model.format = 8 | 16 | 32 | 64 | 512;
    model.bounding_box.max = Vector3 { x: single(1.0), y: single(f32::NAN), z: single(-0.0) };
    model.bones = vec![3, -4];
    model.materials = vec![5];
    model.strips = vec![6, 7, 8];
    model.indices = vec![Vector3 { x: 1, y: 2, z: 3 }];
    model.pool = 2;
    for k in 0..3 {
        let mut vertex = ModelVertex::new();
        let f = |v: i32| single((100 * k + v) as f32);
        vertex.position = Vector3 { x: f(1), y: f(2), z: f(3) };
        vertex.color = Color4 { r: f(4), g: f(5), b: f(6), a: f(7) };
        vertex.bone_weights = Vector4 { w: f(8), x: f(9), y: f(10), z: f(11) };
        vertex.bone_indices = Vector4 { w: 12, x: 13, y: 14, z: k as i16 };
        vertex.tangent = Vector3 { x: f(15), y: f(16), z: f(17) };
        vertex.uv2 = Vector2 { x: f(18), y: f(19) };
        vertex.uv3 = Vector2 { x: f(20), y: f(21) };
        model.vertices.push(vertex);
    }
    let mut cursor = ByteCursor::new(Vec::new());
    assert_eq!(model.write(&mut cursor), Ok(()));
    let head = 8 + 4 + 24;
    let block = 3 * (16 + 24 + 12 + 8);
    assert_eq!(cursor.get_ref().len(), head + 2 + 4 + 2 + block + 2 + 6 + 2 + 2 + 2 + 6 + 2);
    assert!(cursor.set_position(0));
    let back = ModelFile::from_reader(&mut cursor).unwrap();
    assert_eq!(back.identifier, "ZMS0008");
    assert_eq!(back.format, model.format);
    assert_eq!(back.bounding_box, model.bounding_box);
    assert_eq!(back.bones, model.bones);
    assert_eq!(back.indices, model.indices);
    assert_eq!(back.materials, model.materials);
    assert_eq!(back.strips, model.strips);
    assert_eq!(back.pool, 2);
    for (got, sent) in back.vertices.iter().zip(&model.vertices) {
        assert_eq!(got.position, Vector3::<Float32>::new());
        assert_eq!(got.uv2, Vector2::<Float32>::new());
        assert_eq!(got.color, sent.color);
        assert_eq!(got.bone_weights, sent.bone_weights);
        assert_eq!(got.bone_indices, sent.bone_indices);
        assert_eq!(got.tangent, sent.tangent);
        assert_eq!(got.uv3, sent.uv3);
    }
}

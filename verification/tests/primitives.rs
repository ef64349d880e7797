use roselib::errors::Error;
use roselib::io::from_rose_path;
use roselib::io::ByteCursor;
use roselib::io::ReadRoseExt;
use roselib::io::SeekRoseExt;
use roselib::io::WriteRoseExt;
use roselib::utils::{Color4, Float32, Float64, Vector2, Vector3, Vector4};

fn single(value: f32) -> Float32 {
    Float32::from_bits(value.to_bits())
}

fn value(bits: Float32) -> f32 {
    f32::from_bits(bits.to_bits())
}

#[test]
fn unsigned_integers_are_little_endian() {
    let mut cursor = ByteCursor::new(vec![0xab, 0x34, 0x12, 0x78, 0x56, 0x34, 0x12]);
    assert_eq!(cursor.read_u8(), Ok(0xab));
    assert_eq!(cursor.read_u16(), Ok(0x1234));
    assert_eq!(cursor.read_u32(), Ok(0x1234_5678));
    assert_eq!(cursor.position(), 7);
}

#[test]
fn signed_integers_are_twos_complement() {
    let mut cursor = ByteCursor::new(vec![
        0xff, 0x80, 0xfe, 0xff, 0x00, 0x80, 0xfe, 0xff, 0xff, 0xff, 0x00, 0x00, 0x00, 0x80,
    ]);
    assert_eq!(cursor.read_i8(), Ok(-1));
    assert_eq!(cursor.read_i8(), Ok(-128));
    assert_eq!(cursor.read_i16(), Ok(-2));
    assert_eq!(cursor.read_i16(), Ok(i16::MIN));
    assert_eq!(cursor.read_i32(), Ok(-2));
    assert_eq!(cursor.read_i32(), Ok(i32::MIN));
}

#[test]
fn flags_are_one_byte_and_any_nonzero_is_true() {
    let mut cursor = ByteCursor::new(vec![0, 1, 2, 0xff]);
    assert_eq!(cursor.read_bool(), Ok(false));
    assert_eq!(cursor.read_bool(), Ok(true));
    assert_eq!(cursor.read_bool(), Ok(true));
    assert_eq!(cursor.read_bool(), Ok(true));
    assert_eq!(cursor.read_bool(), Err(Error::UnexpectedEof));
}

#[test]
fn floats_are_read_by_their_bits() {
    let mut bytes = 1.5f32.to_le_bytes().to_vec();
    bytes.extend_from_slice(&(-0.25f64).to_le_bytes());
    let mut cursor = ByteCursor::new(bytes);
    assert_eq!(value(cursor.read_f32().unwrap()), 1.5);
    let double = cursor.read_f64().unwrap();
    assert_eq!(f64::from_bits(double.to_bits()), -0.25);
    assert_eq!(double, Float64::from_bits((-0.25f64).to_bits()));
}

#[test]
fn writes_are_little_endian() {
    let mut cursor = ByteCursor::new(Vec::new());
    assert_eq!(cursor.write_u8(0xab), Ok(()));
    assert_eq!(cursor.write_u16(0x1234), Ok(()));
    assert_eq!(cursor.write_u32(0x1234_5678), Ok(()));
    assert_eq!(cursor.write_i8(-2), Ok(()));
    assert_eq!(cursor.write_i16(-2), Ok(()));
    assert_eq!(cursor.write_i32(-2), Ok(()));
    assert_eq!(cursor.write_bool(true), Ok(()));
    assert_eq!(cursor.write_bool(false), Ok(()));
    assert_eq!(cursor.write_f32(single(1.0)), Ok(()));
    assert_eq!(cursor.write_f64(Float64::from_bits(1.0f64.to_bits())), Ok(()));
    let mut expected = vec![
        0xab, 0x34, 0x12, 0x78, 0x56, 0x34, 0x12, 0xfe, 0xfe, 0xff, 0xfe, 0xff, 0xff, 0xff, 1, 0,
    ];
    expected.extend_from_slice(&1.0f32.to_le_bytes());
    expected.extend_from_slice(&1.0f64.to_le_bytes());
    assert_eq!(cursor.position(), expected.len() as u64);
    assert_eq!(cursor.into_inner(), expected);
}

#[test]
fn every_integer_survives_a_round_trip() {
    for v in [0i32, 1, -1, 255, 256, -256, 65535, 65536, i32::MAX, i32::MIN, 0x1234_5678] {
        let mut cursor = ByteCursor::new(Vec::new());
        cursor.write_i32(v).unwrap();
        assert!(cursor.set_position(0));
        assert_eq!(cursor.read_i32(), Ok(v));
    }
    for v in [0i16, 1, -1, 255, 256, i16::MAX, i16::MIN] {
        let mut cursor = ByteCursor::new(Vec::new());
        cursor.write_i16(v).unwrap();
        assert!(cursor.set_position(0));
        assert_eq!(cursor.read_i16(), Ok(v));
    }
    for v in [0u64, 1, u64::MAX, 0x0102_0304_0506_0708] {
        let mut cursor = ByteCursor::new(Vec::new());
        cursor.write_f64(Float64::from_bits(v)).unwrap();
        assert_eq!(cursor.get_ref().clone(), v.to_le_bytes().to_vec());
        assert!(cursor.set_position(0));
        assert_eq!(cursor.read_f64().unwrap().to_bits(), v);
    }
}

#[test]
fn a_short_read_reports_the_end_and_leaves_the_cursor_there() {
    let mut cursor = ByteCursor::new(vec![1, 2, 3]);
    assert_eq!(cursor.read_u32(), Err(Error::UnexpectedEof));
    assert_eq!(cursor.position(), 3);
    let mut cursor = ByteCursor::new(vec![1, 2, 3]);
    assert_eq!(cursor.read_u8(), Ok(1));
    assert_eq!(cursor.read_vector3_i16(), Err(Error::UnexpectedEof));
    assert_eq!(cursor.position(), 3);
    let mut empty = ByteCursor::new(Vec::new());
    assert_eq!(empty.read_u8(), Err(Error::UnexpectedEof));
    assert_eq!(empty.read_f64().is_err(), true);
}

#[test]
fn null_terminated_text() {
    let mut cursor = ByteCursor::new(b"hello\0world\0".to_vec());
    assert_eq!(cursor.read_cstring().unwrap(), "hello");
    assert_eq!(cursor.position(), 6);
    assert_eq!(cursor.read_cstring().unwrap(), "world");
    assert_eq!(cursor.position(), 12);
    assert_eq!(cursor.read_cstring(), Err(Error::UnexpectedEof));
    let mut empty_text = ByteCursor::new(vec![0, 7]);
    assert_eq!(empty_text.read_cstring().unwrap(), "");
    assert_eq!(empty_text.position(), 1);
}

#[test]
fn text_without_a_terminator_is_a_short_read() {
    let mut cursor = ByteCursor::new(b"abc".to_vec());
    assert_eq!(cursor.read_cstring(), Err(Error::UnexpectedEof));
    assert_eq!(cursor.position(), 3);
}

#[test]
fn text_after_a_length() {
    let mut cursor = ByteCursor::new(vec![3, b'a', b'b', b'c', 2, 0, b'd', b'e', 1, 0, 0, 0, b'f']);
    assert_eq!(cursor.read_string_u8().unwrap(), "abc");
    assert_eq!(cursor.read_string_u16().unwrap(), "de");
    assert_eq!(cursor.read_string_u32().unwrap(), "f");
    assert_eq!(cursor.position(), 13);
}

#[test]
fn one_trailing_zero_byte_is_dropped_from_text_after_a_length() {
    let mut cursor = ByteCursor::new(vec![4, b'a', b'b', 0, 0, 3, b'c', 0, b'd', 0]);
    assert_eq!(cursor.read_string_u8().unwrap(), "ab\0");
    assert_eq!(cursor.read_string_u8().unwrap(), "c\0d");
    assert_eq!(cursor.read_string_u8().unwrap(), "");
    assert_eq!(cursor.position(), 10);
    let mut raw = ByteCursor::new(vec![b'x', 0, b'y']);
    assert_eq!(raw.read_string(2).unwrap(), "x");
    assert_eq!(raw.read_string(0).unwrap(), "");
    assert_eq!(raw.read_string(2), Err(Error::UnexpectedEof));
}

#[test]
fn text_shorter_than_its_length_is_a_short_read() {
    let mut cursor = ByteCursor::new(vec![5, b'a', b'b']);
    assert_eq!(cursor.read_string_u8(), Err(Error::UnexpectedEof));
    assert_eq!(cursor.position(), 3);
    let mut cursor = ByteCursor::new(vec![5]);
    assert_eq!(cursor.read_string_u16(), Err(Error::UnexpectedEof));
}

#[test]
fn text_is_decoded_permissively() {
    let mut cursor = ByteCursor::new(vec![4, b'a', 0xff, b'b', 0xc0, 0xe2, 0x82, 0xac, 0]);
    assert_eq!(cursor.read_string_u8().unwrap(), "a\u{fffd}b\u{fffd}");
    assert_eq!(cursor.read_cstring().unwrap(), "\u{20ac}");
    let mut korean = ByteCursor::new(vec![0xc7, 0xd1, 0]);
    assert_eq!(korean.read_cstring().unwrap(), "\u{fffd}\u{fffd}");
}

#[test]
fn text_is_written_as_its_bytes() {
    let mut cursor = ByteCursor::new(Vec::new());
    assert_eq!(cursor.write_cstring("ab"), Ok(()));
    assert_eq!(cursor.write_string_u8("cd"), Ok(()));
    assert_eq!(cursor.write_string_u16("\u{20ac}"), Ok(()));
    assert_eq!(cursor.write_string_u32(""), Ok(()));
    assert_eq!(
        cursor.into_inner(),
        vec![b'a', b'b', 0, 2, b'c', b'd', 3, 0, 0xe2, 0x82, 0xac, 0, 0, 0, 0]
    );
}

#[test]
fn text_too_long_for_its_length_is_refused_and_nothing_is_written() {
    let long = "x".repeat(256);
    let mut cursor = ByteCursor::new(vec![9, 9]);
    assert!(cursor.set_position(1));
    assert_eq!(cursor.write_string_u8(&long), Err(Error::TooLarge));
    assert_eq!(cursor.position(), 1);
    assert_eq!(cursor.get_ref().clone(), vec![9, 9]);
    assert_eq!(cursor.write_string_u8(&long[..255]), Ok(()));
    assert_eq!(cursor.get_ref().len(), 1 + 1 + 255);
    let longer = "y".repeat(65536);
    let mut cursor = ByteCursor::new(Vec::new());
    assert_eq!(cursor.write_string_u16(&longer), Err(Error::TooLarge));
    assert_eq!(cursor.get_ref().len(), 0);
    assert_eq!(cursor.write_string_u16(&longer[..65535]), Ok(()));
    assert_eq!(cursor.write_string_u32(&longer), Ok(()));
    assert_eq!(cursor.get_ref().len(), 2 + 65535 + 4 + 65536);
}

#[test]
fn aggregates_keep_the_order_of_the_wire() {
    let mut bytes = Vec::new();
    for v in [1.0f32, 2.0, 3.0, 4.0] {
        bytes.extend_from_slice(&v.to_le_bytes());
    }
    let mut cursor = ByteCursor::new(bytes.clone());
    let color = cursor.read_color4().unwrap();
    assert_eq!((value(color.r), value(color.g)), (1.0, 2.0));
    assert_eq!((value(color.b), value(color.a)), (3.0, 4.0));
    let mut cursor = ByteCursor::new(bytes.clone());
    let v4 = cursor.read_vector4_f32().unwrap();
    assert_eq!((value(v4.w), value(v4.x), value(v4.y), value(v4.z)), (1.0, 2.0, 3.0, 4.0));
    let mut cursor = ByteCursor::new(bytes.clone());
    let v3 = cursor.read_vector3_f32().unwrap();
    assert_eq!((value(v3.x), value(v3.y), value(v3.z)), (1.0, 2.0, 3.0));
    let v2 = {
        assert!(cursor.set_position(8));
        cursor.read_vector2_f32().unwrap()
    };
    assert_eq!((value(v2.x), value(v2.y)), (3.0, 4.0));
    let mut ints = ByteCursor::new(vec![1, 0, 2, 0, 3, 0, 4, 0]);
    assert_eq!(ints.read_vector4_i16(), Ok(Vector4 { w: 1, x: 2, y: 3, z: 4 }));
    assert!(ints.set_position(2));
    assert_eq!(ints.read_vector3_i16(), Ok(Vector3 { x: 2, y: 3, z: 4 }));
}

#[test]
fn aggregates_are_written_in_the_order_of_the_wire() {
    let mut cursor = ByteCursor::new(Vec::new());
    let color = Color4 { r: single(1.0), g: single(2.0), b: single(3.0), a: single(4.0) };
    cursor.write_color4(&color).unwrap();
    let four = Vector4 { w: single(5.0), x: single(6.0), y: single(7.0), z: single(8.0) };
    cursor.write_vector4_f32(&four).unwrap();
    let three = Vector3 { x: single(9.0), y: single(10.0), z: single(11.0) };
    cursor.write_vector3_f32(&three).unwrap();
    cursor.write_vector2_f32(&Vector2 { x: single(12.0), y: single(13.0) }).unwrap();
    cursor.write_vector3_i16(&Vector3 { x: 14, y: 15, z: 16 }).unwrap();
    cursor.write_vector4_i16(&Vector4 { w: 17, x: 18, y: 19, z: 20 }).unwrap();
    let mut expected = Vec::new();
    for k in 1..=13 {
        expected.extend_from_slice(&(k as f32).to_le_bytes());
    }
    for k in 14..=20i16 {
        expected.extend_from_slice(&k.to_le_bytes());
    }
    assert_eq!(cursor.into_inner(), expected);
}

#[test]
fn a_write_replaces_what_stands_in_its_way_and_lengthens_the_stream() {
    let mut cursor = ByteCursor::new(vec![1, 2, 3, 4, 5, 6]);
    assert!(cursor.set_position(2));
    assert_eq!(cursor.write_u16(0xbbaa), Ok(()));
    assert_eq!(cursor.get_ref().clone(), vec![1, 2, 0xaa, 0xbb, 5, 6]);
    assert_eq!(cursor.position(), 4);
    assert_eq!(cursor.write_u32(0x0403_0201), Ok(()));
    assert_eq!(cursor.get_ref().clone(), vec![1, 2, 0xaa, 0xbb, 1, 2, 3, 4]);
    assert_eq!(cursor.position(), 8);
    assert_eq!(cursor.write_all(&[]), Ok(()));
    assert_eq!(cursor.write_all(&[7, 7]), Ok(()));
    assert_eq!(cursor.into_inner(), vec![1, 2, 0xaa, 0xbb, 1, 2, 3, 4, 7, 7]);
}

#[test]
fn the_cursor_cannot_leave_the_stream() {
    let mut cursor = ByteCursor::new(vec![1, 2, 3]);
    assert_eq!(cursor.seek(3), Ok(3));
    assert_eq!(cursor.stream_position(), 3);
    assert_eq!(cursor.seek(1), Ok(1));
    assert_eq!(cursor.read_u8(), Ok(2));
    assert_eq!(cursor.seek(4), Err(Error::UnexpectedEof));
    assert_eq!(cursor.stream_position(), 3);
    assert_eq!(cursor.set_position(1), true);
    assert_eq!(cursor.set_position(4), false);
    assert_eq!(cursor.position(), 1);
    assert_eq!(cursor.seek(u64::MAX), Err(Error::UnexpectedEof));
}

#[test]
fn raw_reads() {
    let mut cursor = ByteCursor::new(vec![1, 2, 0, 3, 4]);
    assert_eq!(cursor.read_exact(2), Ok(vec![1, 2]));
    assert_eq!(cursor.read_until_nul(), Ok(vec![]));
    assert_eq!(cursor.read_exact(0), Ok(vec![]));
    assert_eq!(cursor.read_until_nul(), Err(Error::UnexpectedEof));
    assert_eq!(cursor.position(), 5);
    assert_eq!(cursor.read_exact(u64::MAX), Err(Error::UnexpectedEof));
}

#[test]
fn paths_take_the_form_of_the_host() {
    assert_eq!(from_rose_path("3DDATA\\EFFECT\\X.EFT"), "3DDATA/EFFECT/X.EFT");
    assert_eq!(from_rose_path("a/b\\c"), "a/b/c");
    assert_eq!(from_rose_path(""), "");
    assert_eq!(from_rose_path("\\\\"), "//");
    assert_eq!(from_rose_path("plain"), "plain");
}

#[test]
fn errors_name_what_failed() {
    assert_eq!(Error::UnsupportedVersion.message(), "Unsupported ZMS version");
    assert_ne!(Error::UnexpectedEof.message(), Error::TooLarge.message());
}

#[test]
fn singles_compare_as_the_primitive_type_does() {
    let samples = [
        0.0f32,
        -0.0,
        1.0,
        -1.0,
        1.5,
        -1.5,
        f32::MIN_POSITIVE,
        -f32::MIN_POSITIVE,
        1.0e-45,
        -1.0e-45,
        f32::MAX,
        f32::MIN,
        f32::INFINITY,
        f32::NEG_INFINITY,
        f32::NAN,
        -f32::NAN,
        f32::from_bits(0x7f80_0001),
        f32::from_bits(0xffff_ffff),
        123.456,
        -123.456,
    ];
    for a in samples {
        assert_eq!(single(a).is_nan(), a.is_nan());
        for b in samples {
            assert_eq!(single(a).lt(single(b)), a < b);
        }
    }
    assert_eq!(Float32::NAN_BITS, f32::NAN.to_bits());
    assert_eq!(Float32::new().to_bits(), 0.0f32.to_bits());
}

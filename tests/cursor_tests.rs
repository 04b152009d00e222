use craftip::cursor::{get_varint, CustomCursor};
use craftip::datatypes::PacketError;

struct TestVarInt {
    buffer: Vec<u8>,
    value: (i32, usize),
}

fn varint_vectors() -> Vec<TestVarInt> {
    vec![
        TestVarInt { buffer: vec![0x00], value: (0, 1) },
        TestVarInt { buffer: vec![0x01], value: (1, 1) },
        TestVarInt { buffer: vec![0x7f], value: (127, 1) },
        TestVarInt { buffer: vec![0x80, 0x01], value: (128, 2) },
        TestVarInt { buffer: vec![0xff, 0xff, 0xff, 0xff, 0x07], value: (2147483647, 5) },
        TestVarInt { buffer: vec![0xff, 0xff, 0xff, 0xff, 0x0f], value: (-1, 5) },
        TestVarInt { buffer: vec![0x80, 0x80, 0x80, 0x80, 0x08], value: (-2147483648, 5) },
    ]
}

#[test]
fn test_varint() {
    for test in varint_vectors() {
        println!("Testing {:?}...", test.value);
        let value = get_varint(&test.buffer.clone(), 0).unwrap().unwrap();
        assert_eq!(value, test.value);
    }
}

#[test]
fn test_test_varint() {
    for test in varint_vectors() {
        println!("Testing {:?} which should be {}...", test.buffer, test.value.0);
        for len in 0..test.buffer.len() {
            let mut cursor = CustomCursor::new(test.buffer[..len].to_vec());
            let value = cursor.get_varint();
            assert_eq!(value, Ok(None), "If packet is not complete, parser should return too small!");
        }
        let mut cursor = CustomCursor::new(test.buffer.clone());
        let res = cursor.get_varint().unwrap().unwrap();
        assert_eq!(res, test.value.0);
        assert_eq!(cursor.remaining(), 0, "Did not advance cursor sufficiently!");
        let mut new_cursor = CustomCursor::new(Vec::new());
        new_cursor.put_varint(test.value.0);
        assert_eq!(new_cursor.get_ref().len(), test.value.1);
        assert_eq!(new_cursor.get_ref()[..], test.buffer[..]);
    }
}

#[test]
fn test_all_numbers() {
    let inner = vec![0; 32];
    let mut cursor = CustomCursor::new(inner);
    for i in (i32::MIN..i32::MAX).step_by(1013) {
        cursor.clear();
        cursor.put_varint(i);
        cursor.set_position(0);
        assert_eq!(cursor.get_varint(), Ok(Some(i)));
    }
}

#[test]
fn test_utf8_str() {
    let test = vec![2, b'h', b'i'];
    let mut cursor = CustomCursor::new(Vec::new());
    cursor.put_utf8_string("hi");
    assert_eq!(cursor.get_ref(), &test);
    cursor.put_utf8_string("hi");
    assert_eq!(cursor.get_ref()[..], [test.clone(), test.clone()].concat()[..]);
}

#[test]
fn varint_longer_than_five_bytes_is_invalid() {
    let buf = vec![0x80, 0x80, 0x80, 0x80, 0x80, 0x01];
    assert_eq!(get_varint(&buf, 0), Err(PacketError::NotValid));
}

#[test]
fn varint_read_at_offset_counts_its_bytes() {
    let buf = vec![0xAA, 0x80, 0x01, 0x05];
    assert_eq!(get_varint(&buf, 1), Ok(Some((128, 2))));
    assert_eq!(get_varint(&buf, 3), Ok(Some((5, 1))));
    assert_eq!(get_varint(&buf, 4), Ok(None));
}

#[test]
fn utf8_string_round_trip_and_bad_encoding() {
    let mut cursor = CustomCursor::new(Vec::new());
    cursor.put_utf8_string("grüße");
    assert_eq!(cursor.get_utf8_string(), Ok(Some("grüße".to_string())));
    assert_eq!(cursor.remaining(), 0);

    let mut bad = CustomCursor::new(vec![2, 0xC3, 0x28]);
    assert_eq!(bad.get_utf8_string(), Err(PacketError::NotValidStringEncoding));
    assert_eq!(bad.position(), 0);

    let mut short = CustomCursor::new(vec![3, b'a']);
    assert_eq!(short.get_utf8_string(), Ok(None));
}

#[test]
fn utf16_string_reads_and_rejects_lone_surrogate() {
    let mut cursor = CustomCursor::new(vec![0, 2, 0, b'h', 0, b'i', 0xFF]);
    assert_eq!(cursor.get_utf16_string(), Ok(Some("hi".to_string())));
    assert_eq!(cursor.position(), 6);

    let mut pair = CustomCursor::new(vec![0, 2, 0xD8, 0x3D, 0xDE, 0x00]);
    assert_eq!(pair.get_utf16_string(), Ok(Some("\u{1F600}".to_string())));

    let mut lone = CustomCursor::new(vec![0, 1, 0xD8, 0x00]);
    assert_eq!(lone.get_utf16_string(), Err(PacketError::NotValidStringEncoding));

    let mut short = CustomCursor::new(vec![0, 2, 0, b'h']);
    assert_eq!(short.get_utf16_string(), Ok(None));
}

#[test]
fn match_bytes_advances_only_on_match() {
    let mut cursor = CustomCursor::new(vec![1, 2, 3]);
    assert!(!cursor.match_bytes(&[1, 3]));
    assert_eq!(cursor.position(), 0);
    assert!(cursor.match_bytes(&[1, 2]));
    assert_eq!(cursor.position(), 2);
    assert!(!cursor.match_bytes(&[3, 4]));
}


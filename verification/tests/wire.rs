//! Field-level decoding: scalar encodings round-trip, incomplete prefixes
//! suspend, malformed bytes fail with the right error.

use minipb::field_reader::FieldReader;
use minipb::pb::{read_fixed32, read_fixed64, read_varint, read_varint32, read_varint64};
use minipb::FieldValue::{DataLength, Fixed32, Fixed64, Varint};
use minipb::{varint_bytes, DecodingError, FieldValue, Status, WireType};

#[test]
fn test_varint_bytes() {
    assert_eq!(&varint_bytes(227), &[0xe3, 0x01]);
    assert_eq!(&varint_bytes(242), &[0xf2, 0x01]);
}

#[test]
fn read_basic_fields() {
    let expected = &[
        (Varint(42), 2, 0),
        (Varint(242), 3, 0),
        (Varint(22_242), 4, 0),
        (Varint(2_097_153), 5, 0),
        (Varint(268_435_457), 6, 0),
        (Varint(34_359_738_369), 7, 0),
        (Varint(4_398_046_511_105), 8, 0),
        (Varint(562_949_953_421_313), 9, 0),
        (Varint(u64::max_value()), 11, 0),
        (Fixed64(1), 9, 0),
        (Fixed32(1), 5, 0),
        (DataLength(1), 2, 1),
        (DataLength(242), 3, 242),
        (DataLength(22242), 4, 22242),
        (DataLength(u32::max_value()), 6, u32::max_value() as usize),
        // longer fields are not supported
    ];

    let mut buffer = Vec::new();

    for (field, expected_consumed, expected_field_len) in expected {
        buffer.extend(field.output_with_field_id(1));

        let mut fr = FieldReader::default();

        let read_field = fr.next(&buffer[..]).unwrap().unwrap();
        assert_eq!(read_field.consumed, *expected_consumed);
        assert_eq!(read_field.field_id(), 1);
        assert_eq!(read_field.field_len(), *expected_field_len);

        // select non-empty slices but incomplete starting from the beginning to make sure that
        // all those report back NeedMoreBytes
        for end_byte in 1..(buffer.len() - 1) {
            let need_more = fr.next(&buffer[..end_byte]).unwrap().unwrap_err();
            assert!(matches!(need_more, Status::NeedMoreBytes));
        }

        buffer.clear();
    }
}

#[test]
fn read_good_pb() {
    // 0a200804121c2e2e2f2e2e2f2e2e2f617263682f61726d36342f626f6f742f647473
    let input: Vec<u8> = vec![
        0x0a, 0x20, 0x08, 0x04, 0x12, 0x1c, 0x2e, 0x2e, 0x2f, 0x2e, 0x2e, 0x2f, 0x2e, 0x2e, 0x2f,
        0x61, 0x72, 0x63, 0x68, 0x2f, 0x61, 0x72, 0x6d, 0x36, 0x34, 0x2f, 0x62, 0x6f, 0x6f, 0x74,
        0x2f, 0x64, 0x74, 0x73,
    ];

    let mut fr = FieldReader::default();

    let f = fr.next(&input[..]).unwrap().unwrap();
    assert_eq!(f.consumed, 2);
    assert_eq!(f.field_id(), 1);
    assert_eq!(f.field_len(), 32);
    assert!(
        matches!(f.value(), FieldValue::DataLength(32)),
        "{:?}",
        f.value()
    );

    let f = fr.next(&input[2..]).unwrap().unwrap();
    assert_eq!(f.consumed, 2);
    assert_eq!(f.field_id(), 1);
    assert_eq!(f.field_len(), 0); // well this is a bit interesting value..?
    assert!(
        matches!(f.value(), FieldValue::Varint(4)),
        "{:?}",
        f.value()
    );

    let f = fr.next(&input[4..]).unwrap().unwrap();
    assert_eq!(f.consumed, 2);
    assert_eq!(f.field_id(), 2);
    assert_eq!(f.field_len(), 28);
    assert!(
        matches!(f.value(), FieldValue::DataLength(28)),
        "{:?}",
        f.value()
    );

    assert_eq!(
        std::str::from_utf8(&input[6..]),
        Ok("../../../arch/arm64/boot/dts")
    );
}

#[test]
fn varint32_of_five_continuation_bytes_fails() {
    // all five permitted bytes carry the continuation bit
    let input = [0x80u8, 0x80, 0x80, 0x80, 0x80];
    let err = read_varint32(&input).unwrap_err();
    assert!(matches!(err, DecodingError::TooManyVarint32Bytes));

    // the same bytes arriving as a field tag fail the same way
    let mut fr = FieldReader::default();
    let err = fr.next(&input[..]).unwrap_err();
    assert!(matches!(err, DecodingError::TooManyVarint32Bytes));
}

#[test]
fn varint64_of_ten_continuation_bytes_fails() {
    let input = [0x80u8; 10];
    let err = read_varint64(&input).unwrap_err();
    assert!(matches!(err, DecodingError::TooManyVarint64Bytes));

    // a varint field value of ten unterminated bytes
    let mut field = vec![0x08u8];
    field.extend_from_slice(&input);
    let mut fr = FieldReader::default();
    let err = fr.next(&field[..]).unwrap_err();
    assert!(matches!(err, DecodingError::TooManyVarint64Bytes));
}

#[test]
fn group_wire_types_are_rejected() {
    let mut fr = FieldReader::default();
    // field id 1, wire type 3 (start group)
    let err = fr.next(&[0x0b]).unwrap_err();
    assert!(matches!(err, DecodingError::UnsupportedGroupWireType(0x0b)));
    // field id 1, wire type 4 (end group)
    let err = fr.next(&[0x0c]).unwrap_err();
    assert!(matches!(err, DecodingError::UnsupportedGroupWireType(0x0c)));
}

#[test]
fn unknown_wire_types_are_rejected() {
    let mut fr = FieldReader::default();
    // field id 1, wire type 6
    let err = fr.next(&[0x0e]).unwrap_err();
    assert!(matches!(err, DecodingError::UnknownWireType(0x0e)));
    assert!(matches!(WireType::from_tag(0x0e), Err(DecodingError::UnknownWireType(0x0e))));
    assert!(matches!(WireType::from_tag(0x0d), Ok(WireType::Fixed32)));
}

#[test]
fn empty_buffer_is_idle_not_an_error() {
    let mut fr = FieldReader::default();
    for _ in 0..3 {
        let status = fr.next(&[]).unwrap().unwrap_err();
        assert!(matches!(status, Status::IdleAtEndOfBuffer));
    }
}

#[test]
fn incremental_feed_agrees_for_all_wire_types() {
    let cases = &[
        Varint(1),
        Varint(u64::max_value()),
        Fixed64(0x0102030405060708),
        Fixed32(0xdeadbeef),
        DataLength(300),
    ];

    for case in cases {
        let encoded = case.output_with_field_id(7);
        run_incremental_case(case, encoded);
    }

    // zero values get the canonical single-byte varint the emitting helper
    // leaves out
    run_incremental_case(&Varint(0), vec![0x38, 0x00]);
    run_incremental_case(&DataLength(0), vec![0x3a, 0x00]);
}

fn run_incremental_case(case: &FieldValue, encoded: Vec<u8>) {
    let mut fr = FieldReader::default();

    // every proper prefix suspends...
    for end in 0..encoded.len() {
        match fr.next(&encoded[..end]).unwrap().unwrap_err() {
            Status::IdleAtEndOfBuffer => assert_eq!(end, 0),
            Status::NeedMoreBytes => assert!(end > 0),
        }
    }

    // ...and the full encoding decodes to the value, regardless of what
    // follows it
    let mut extended = encoded.clone();
    extended.extend_from_slice(&[0xff, 0xff]);
    let f = fr.next(&extended[..]).unwrap().unwrap();
    assert_eq!(f.consumed, encoded.len());
    assert_eq!(f.field_id(), 7);
    assert_eq!(f.value(), case);
}

#[test]
fn fixed_width_reads_need_all_bytes() {
    assert!(read_fixed32(&[1, 0, 0]).is_err());
    assert_eq!(read_fixed32(&[1, 0, 0, 0]).unwrap(), (4, 1));
    assert_eq!(read_fixed32(&[0x78, 0x56, 0x34, 0x12]).unwrap(), (4, 0x12345678));
    assert!(read_fixed64(&[1, 0, 0, 0, 0, 0, 0]).is_err());
    assert_eq!(read_fixed64(&[2, 0, 0, 0, 0, 0, 0, 0]).unwrap(), (8, 2));
}

#[test]
fn varint_reads_count_their_bytes() {
    let r = read_varint(&[0xe3, 0x01, 0x55], 10).unwrap().unwrap();
    assert_eq!(r, (2, 227));
    assert!(read_varint(&[0x80, 0x80], 10).unwrap().is_err());
    let r = read_varint32(&[0x05]).unwrap().unwrap();
    assert_eq!(r, (1, 5));
}

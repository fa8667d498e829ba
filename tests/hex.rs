use ergodox::hex::{
    decode_hex_bytes, flatten_segments, load_hex_image, parse_hex, HexErrorKind, HexSegment,
    ImageError, LoadError,
};

#[test]
fn test_parse_simple_hex() {
    let hex = ":10000000000102030405060708090A0B0C0D0E0F78\n\
               :00000001FF\n";
    let segments = parse_hex(hex).unwrap();
    assert_eq!(segments.len(), 1);
    assert_eq!(segments[0].address, 0);
    assert_eq!(
        segments[0].data,
        vec![0, 1, 2, 3, 4, 5, 6, 7, 8, 9, 10, 11, 12, 13, 14, 15]
    );
}

#[test]
fn test_parse_extended_segment() {
    let hex = ":020000020100FB\n\
               :10000000112233445566778899AABBCCDDEEFF00F8\n\
               :00000001FF\n";
    let segments = parse_hex(hex).unwrap();
    assert_eq!(segments.len(), 1);
    assert_eq!(segments[0].address, 0x1000);
}

#[test]
fn test_checksum_error() {
    let hex = ":10000000000102030405060708090A0B0C0D0E0F00\n\
               :00000001FF\n";
    assert!(parse_hex(hex).is_err());
}

#[test]
fn test_contiguous_merge() {
    let hex = ":04000000AABBCCDDEE\n\
               :04000400112233444E\n\
               :00000001FF\n";
    let segments = parse_hex(hex).unwrap();
    assert_eq!(segments.len(), 1);
    assert_eq!(segments[0].data, vec![0xAA, 0xBB, 0xCC, 0xDD, 0x11, 0x22, 0x33, 0x44]);
}

#[test]
fn test_flatten() {
    let segments = vec![
        HexSegment {
            address: 0x100,
            data: vec![0xAA, 0xBB],
        },
        HexSegment {
            address: 0x110,
            data: vec![0xCC, 0xDD],
        },
    ];
    let (base, image) = flatten_segments(&segments).unwrap();
    assert_eq!(base, 0x100);
    assert_eq!(image.len(), 0x12);
    assert_eq!(image[0], 0xAA);
    assert_eq!(image[1], 0xBB);
    assert_eq!(image[2], 0xFF);
    assert_eq!(image[0x10], 0xCC);
    assert_eq!(image[0x11], 0xDD);
}

#[test]
fn flatten_fills_whole_gap_with_erased_bytes() {
    let segments = vec![
        HexSegment { address: 0x100, data: vec![0xAA, 0xBB] },
        HexSegment { address: 0x110, data: vec![0xCC, 0xDD] },
    ];
    let (_, image) = flatten_segments(&segments).unwrap();
    assert!(image[2..=0x0F].iter().all(|&b| b == 0xFF));
    assert_eq!(&image[0x10..=0x11], &[0xCC, 0xDD]);
}

#[test]
fn flatten_uses_lowest_address_as_base_in_any_order() {
    let segments = vec![
        HexSegment { address: 0x20, data: vec![1, 2] },
        HexSegment { address: 0x10, data: vec![3] },
    ];
    let (base, image) = flatten_segments(&segments).unwrap();
    assert_eq!(base, 0x10);
    assert_eq!(image.len(), 0x12);
    assert_eq!(image[0], 3);
    assert_eq!(image[0x10], 1);
    assert_eq!(image[0x11], 2);
}

#[test]
fn flatten_later_segment_wins_on_overlap() {
    let segments = vec![
        HexSegment { address: 0, data: vec![1, 2, 3] },
        HexSegment { address: 1, data: vec![9] },
    ];
    let (_, image) = flatten_segments(&segments).unwrap();
    assert_eq!(image, vec![1, 9, 3]);
}

#[test]
fn flatten_of_nothing_fails() {
    assert_eq!(flatten_segments(&[]).err(), Some(ImageError::NoSegments));
}

#[test]
fn parse_then_flatten_keeps_every_record_byte() {
    let hex = ":020000001122CB\n\
               :0200060055663D\n\
               :00000001FF\n";
    let segments = parse_hex(hex).unwrap();
    assert_eq!(segments.len(), 2);
    let (base, image) = flatten_segments(&segments).unwrap();
    assert_eq!(base, 0);
    assert_eq!(image, vec![0x11, 0x22, 0xFF, 0xFF, 0xFF, 0xFF, 0x55, 0x66]);
}

#[test]
fn checksum_error_cites_line() {
    let hex = ":00000001FF\n";
    assert!(parse_hex(hex).is_ok());
    let bad = ":020000001122CC\n:02000200334485\n";
    let err = parse_hex(bad).unwrap_err();
    assert_eq!(err.line, 1);
    assert_eq!(err.kind, HexErrorKind::ChecksumMismatch);
    let bad2 = "\n:020000001122CB\n:02000200334486\n";
    let err2 = parse_hex(bad2).unwrap_err();
    assert_eq!(err2.line, 3);
    assert_eq!(err2.kind, HexErrorKind::ChecksumMismatch);
}

#[test]
fn missing_start_code_is_rejected() {
    let err = parse_hex("00000001FF\n").unwrap_err();
    assert_eq!(err.line, 1);
    assert_eq!(err.kind, HexErrorKind::MissingStartCode);
}

#[test]
fn odd_or_non_hex_digits_are_rejected() {
    assert_eq!(parse_hex(":00000001F\n").unwrap_err().kind, HexErrorKind::InvalidHex);
    assert_eq!(parse_hex(":0000000XFF\n").unwrap_err().kind, HexErrorKind::InvalidHex);
}

#[test]
fn short_record_is_rejected() {
    assert_eq!(parse_hex(":00000001\n").unwrap_err().kind, HexErrorKind::RecordTooShort);
}

#[test]
fn byte_count_must_match_data() {
    let err = parse_hex(":0500000000FB\n").unwrap_err();
    assert_eq!(
        err.kind,
        HexErrorKind::LengthMismatch { declared: 5, actual: 1 }
    );
}

#[test]
fn extended_segment_needs_two_bytes() {
    let err = parse_hex(":0100000201FC\n").unwrap_err();
    assert_eq!(err.kind, HexErrorKind::BadExtendedSegment);
}

#[test]
fn unknown_record_type_is_rejected() {
    let err = parse_hex(":00000005FB\n").unwrap_err();
    assert_eq!(err.kind, HexErrorKind::UnsupportedRecordType(5));
}

#[test]
fn input_after_end_of_file_is_ignored() {
    let hex = ":0100000042BD\n:00000001FF\nnot a record\n";
    let segments = parse_hex(hex).unwrap();
    assert_eq!(segments.len(), 1);
    assert_eq!(segments[0].data, vec![0x42]);
}

#[test]
fn whitespace_and_crlf_around_records_are_trimmed() {
    let hex = "  :0100000042BD\r\n\t\r\n:00000001FF";
    let segments = parse_hex(hex).unwrap();
    assert_eq!(segments.len(), 1);
    assert_eq!(segments[0].address, 0);
}

#[test]
fn empty_input_has_no_segments() {
    assert_eq!(parse_hex("").unwrap().len(), 0);
}

#[test]
fn non_contiguous_records_make_new_segments() {
    let hex = ":0100000042BD\n:0100050043B7\n:00000001FF\n";
    let segments = parse_hex(hex).unwrap();
    assert_eq!(segments.len(), 2);
    assert_eq!(segments[1].address, 5);
}

#[test]
fn lowercase_hex_digits_decode() {
    let digits: Vec<char> = "0aFf".chars().collect();
    assert_eq!(decode_hex_bytes(&digits), Some(vec![0x0A, 0xFF]));
    let odd: Vec<char> = "abc".chars().collect();
    assert_eq!(decode_hex_bytes(&odd), None);
}

#[test]
fn load_hex_image_parses_and_flattens() {
    let hex = ":020000001122CB\n:0200060055663D\n:00000001FF\n";
    let (base, image) = load_hex_image(hex).unwrap();
    assert_eq!(base, 0);
    assert_eq!(image, vec![0x11, 0x22, 0xFF, 0xFF, 0xFF, 0xFF, 0x55, 0x66]);
    assert_eq!(
        load_hex_image(":00000001FF\n").err(),
        Some(LoadError::Image(ImageError::NoSegments))
    );
    match load_hex_image("x\n") {
        Err(LoadError::Hex(e)) => {
            assert_eq!(e.line, 1);
            assert_eq!(e.kind, HexErrorKind::MissingStartCode);
        }
        other => panic!("unexpected {:?}", other),
    }
}

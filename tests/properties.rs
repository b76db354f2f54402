use bytes::Bytes;
use segment_codec::segment::{total_len_checked, Segment, SegmentError, SegmentType, FIXED_HEADER_LEN};

#[test]
fn syn_segment_encodes_to_exact_bytes() {
    let segment = Segment::new(SegmentType::Syn, 12345, vec![0x11, 0x22, 0x33]);
    let encoded = segment.encode().unwrap();
    let expected: Vec<u8> = vec![
        0x00, 0x00, 0x00, 0x10, 0x02, 0x00, 0x00, 0x00, 0x00, 0x00, 0x00, 0x30, 0x39, 0x11, 0x22,
        0x33,
    ];
    assert_eq!(&encoded[..], &expected[..]);
    let decoded = Segment::decode(&expected).unwrap();
    assert_eq!(decoded.segment_type, SegmentType::Syn);
    assert_eq!(decoded.seq, 12345);
    assert_eq!(decoded.data, Bytes::from(vec![0x11, 0x22, 0x33]));
}

#[test]
fn round_trip_data_and_ack() {
    let payload: Vec<u8> = (0..=255u8).collect();
    for (kind, seq) in [(SegmentType::Data, 0u64), (SegmentType::Ack, u64::MAX), (SegmentType::Syn, 0x0102030405060708)] {
        let encoded = Segment::new(kind, seq, payload.clone()).encode().unwrap();
        let decoded = Segment::decode(&encoded).unwrap();
        assert_eq!(decoded.segment_type, kind);
        assert_eq!(decoded.seq, seq);
        assert_eq!(&decoded.data[..], &payload[..]);
    }
}

#[test]
fn empty_payload_is_header_only() {
    let encoded = Segment::new(SegmentType::Ack, 7, vec![]).encode().unwrap();
    assert_eq!(&encoded[..], &[0, 0, 0, 13, 1, 0, 0, 0, 0, 0, 0, 0, 7][..]);
    let decoded = Segment::decode(&encoded).unwrap();
    assert_eq!(decoded.segment_type, SegmentType::Ack);
    assert_eq!(decoded.seq, 7);
    assert!(decoded.data.is_empty());
}

#[test]
fn length_field_equals_buffer_length() {
    for n in [0usize, 1, 100, 1000] {
        let encoded = Segment::new(SegmentType::Data, 1, vec![0xAB; n]).encode().unwrap();
        let declared = u32::from_be_bytes([encoded[0], encoded[1], encoded[2], encoded[3]]);
        assert_eq!(declared as usize, encoded.len());
        assert_eq!(encoded.len(), FIXED_HEADER_LEN + n);
    }
}

#[test]
fn short_buffers_are_too_short() {
    assert!(matches!(Segment::decode(&[]), Err(SegmentError::TooShort)));
    assert!(matches!(Segment::decode(&[0]), Err(SegmentError::TooShort)));
    assert!(matches!(Segment::decode(&[0, 0, 0]), Err(SegmentError::TooShort)));
}

#[test]
fn declared_length_below_header_is_invalid() {
    let buf: Vec<u8> = vec![0, 0, 0, 12, 0, 0, 0, 0, 0, 0, 0, 0, 0];
    assert!(matches!(Segment::decode(&buf), Err(SegmentError::InvalidTotalLen(12, 13))));
    let buf: Vec<u8> = vec![0, 0, 0, 0];
    assert!(matches!(Segment::decode(&buf), Err(SegmentError::InvalidTotalLen(0, 4))));
}

#[test]
fn declared_length_beyond_buffer_is_invalid() {
    let buf: Vec<u8> = vec![0xFF, 0xFF, 0xFF, 0xFF, 0, 0, 0, 0, 0, 0, 0, 0, 0, 1];
    let result = Segment::decode(&buf);
    assert_eq!(result.unwrap_err(), SegmentError::InvalidTotalLen(u32::MAX, 14));
}

#[test]
fn unknown_tag_is_rejected_not_defaulted() {
    let buf: Vec<u8> = vec![0, 0, 0, 13, 0xFF, 0, 0, 0, 0, 0, 0, 0, 0];
    assert_eq!(Segment::decode(&buf).unwrap_err(), SegmentError::UnknownFrameType(0xFF));
}

#[test]
fn bytes_after_declared_length_are_ignored() {
    let buf: Vec<u8> = vec![0, 0, 0, 14, 0, 0, 0, 0, 0, 0, 0, 0, 9, 0x55, 0x66, 0x77];
    let decoded = Segment::decode(&buf).unwrap();
    assert_eq!(decoded.segment_type, SegmentType::Data);
    assert_eq!(decoded.seq, 9);
    assert_eq!(decoded.data, Bytes::from(vec![0x55]));
}

#[test]
fn total_length_boundary() {
    assert_eq!(total_len_checked(0), Ok(13));
    assert_eq!(total_len_checked((u32::MAX - 13) as usize), Ok(u32::MAX));
    assert_eq!(
        total_len_checked((u32::MAX - 12) as usize),
        Err(SegmentError::TotalLenOverflow(u32::MAX as usize + 1))
    );
    assert_eq!(
        total_len_checked(u32::MAX as usize + 1),
        Err(SegmentError::TotalLenOverflow(u32::MAX as usize + 14))
    );
}

#[test]
fn tags_map_both_ways() {
    assert_eq!(SegmentType::Data.tag(), 0);
    assert_eq!(SegmentType::Ack.tag(), 1);
    assert_eq!(SegmentType::Syn.tag(), 2);
    assert_eq!(SegmentType::from_tag(0), Some(SegmentType::Data));
    assert_eq!(SegmentType::from_tag(1), Some(SegmentType::Ack));
    assert_eq!(SegmentType::from_tag(2), Some(SegmentType::Syn));
    assert_eq!(SegmentType::from_tag(3), None);
}

#[test]
fn new_keeps_payload() {
    let segment = Segment::new(SegmentType::Data, 42, vec![1, 2, 3]);
    assert_eq!(segment.segment_type, SegmentType::Data);
    assert_eq!(segment.seq, 42);
    assert_eq!(segment.data, Bytes::from(vec![1, 2, 3]));
}

use cdrs_core::codec::{decode_frame, encode_with};
use cdrs_core::compression::Compression;
use cdrs_core::error::CodecError;
use cdrs_core::frame::{parse_header, serialize_header, Direction, Flags, Frame, Header, Opcode,
    Version};

fn request_frame(opcode: Opcode, body: Vec<u8>) -> Frame {
    Frame::new(Version::V4, Direction::Request, Flags::empty(), opcode, body, None, Vec::new())
}

#[test]
fn header_serialize_parse_round_trip() {
    let h = Header {
        version: Version::V4,
        direction: Direction::Response,
        flags: Flags { compression: true, tracing: false, custom_payload: false, warning: true },
        stream_id: -1,
        opcode: Opcode::Event,
        body_len: 77,
    };
    let bytes = serialize_header(&h);
    assert_eq!(bytes.len(), 9);
    assert_eq!(parse_header(&bytes), Ok(h));
}

#[test]
fn header_invalid_version_and_opcode_are_errors() {
    let h = Header {
        version: Version::V3,
        direction: Direction::Request,
        flags: Flags::empty(),
        stream_id: 7,
        opcode: Opcode::Query,
        body_len: 0,
    };
    let mut bytes = serialize_header(&h);
    bytes[0] = 0x09;
    assert_eq!(parse_header(&bytes), Err(CodecError::InvalidVersion(0x09)));
    let mut bytes2 = serialize_header(&h);
    bytes2[4] = 0x42;
    assert_eq!(parse_header(&bytes2), Err(CodecError::InvalidOpcode(0x42)));
    assert_eq!(parse_header(&vec![0x04, 0x00]), Err(CodecError::UnexpectedEnd));
}

fn assert_round_trip(frame: Frame, compression: Compression) {
    let body = frame.body.clone();
    let flags = frame.flags;
    let opcode = frame.opcode;
    let bytes = encode_with(&frame, compression).unwrap();
    let back = decode_frame(&bytes, compression).unwrap();
    assert_eq!(back.version, frame.version);
    assert_eq!(back.direction, frame.direction);
    assert_eq!(back.flags, flags);
    assert_eq!(back.stream_id, frame.stream_id);
    assert_eq!(back.opcode, opcode);
    assert_eq!(back.body, body);
    assert_eq!(back.tracing_id, frame.tracing_id);
    assert_eq!(back.warnings, frame.warnings);
}

#[test]
fn frame_round_trip_uncompressed() {
    let mut frame = request_frame(Opcode::Query, vec![1, 2, 3, 4, 5]);
    frame.set_stream_id(42);
    assert_round_trip(frame, Compression::Uncompressed);
}

#[test]
fn frame_round_trip_snappy() {
    let mut frame = request_frame(Opcode::Query, b"SELECT * FROM t WHERE k = 1".to_vec());
    frame.set_stream_id(17);
    assert_round_trip(frame, Compression::Snappy);
}

#[test]
fn frame_round_trip_lz4() {
    let mut frame = request_frame(Opcode::Query, b"abcabcabcabcabcabcabcabc".to_vec());
    frame.set_stream_id(-3);
    assert_round_trip(frame, Compression::Lz4);
}

#[test]
fn frame_round_trip_startup_stays_uncompressed() {
    // STARTUP negotiates compression, so it is never itself compressed.
    let frame = request_frame(Opcode::Startup, vec![0, 0]);
    let plain = encode_with(&frame, Compression::Uncompressed).unwrap();
    let frame2 = request_frame(Opcode::Startup, vec![0, 0]);
    let with_snappy = encode_with(&frame2, Compression::Snappy).unwrap();
    assert_eq!(plain, with_snappy);
    let frame3 = request_frame(Opcode::Startup, vec![0, 0]);
    assert_round_trip(frame3, Compression::Lz4);
}

#[test]
fn tracing_and_warning_round_trip() {
    let tracing: Vec<u8> = (0u8..16u8).collect();
    let warnings = vec!["first warning".to_string(), "second warning".to_string()];
    for compression in [Compression::Uncompressed, Compression::Snappy, Compression::Lz4] {
        let frame = Frame::new(
            Version::V4,
            Direction::Response,
            Flags { compression: false, tracing: true, custom_payload: false, warning: true },
            Opcode::Result,
            vec![9, 9, 9],
            Some(tracing.clone()),
            warnings.clone(),
        );
        let bytes = encode_with(&frame, compression).unwrap();
        let back = decode_frame(&bytes, compression).unwrap();
        assert_eq!(back.tracing_id, Some(tracing.clone()));
        assert_eq!(back.warnings, warnings);
        assert_eq!(back.body, vec![9, 9, 9]);
    }
}

#[test]
fn decode_rejects_compression_flag_without_scheme() {
    let mut frame = request_frame(Opcode::Query, vec![1, 2, 3]);
    frame.set_stream_id(1);
    let bytes = encode_with(&frame, Compression::Snappy).unwrap();
    assert!(matches!(decode_frame(&bytes, Compression::Uncompressed),
        Err(CodecError::UnknownCompression)));
}

#[test]
fn decode_rejects_length_mismatch() {
    let frame = request_frame(Opcode::Options, Vec::new());
    let mut bytes = encode_with(&frame, Compression::Uncompressed).unwrap();
    bytes.push(0xFF);
    assert!(matches!(decode_frame(&bytes, Compression::Uncompressed),
        Err(CodecError::LengthMismatch)));
}

#[test]
fn decode_rejects_corrupt_compressed_payload() {
    let h = Header {
        version: Version::V4,
        direction: Direction::Request,
        flags: Flags { compression: true, tracing: false, custom_payload: false, warning: false },
        stream_id: 2,
        opcode: Opcode::Query,
        body_len: 5,
    };
    let mut bytes = serialize_header(&h);
    bytes.extend_from_slice(&[0xFF; 5]);
    assert!(matches!(decode_frame(&bytes, Compression::Snappy),
        Err(CodecError::DecompressionFailed)));
}

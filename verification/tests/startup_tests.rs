use cdrs_core::frame::{Flags, Frame, Opcode, Version};
use cdrs_core::startup::BodyReqStartup;

#[test]
fn new_body_req_startup_some_compression() {
    let compression = "test_compression";
    let body = BodyReqStartup::new(Some(compression.into()));
    assert_eq!(body.get("CQL_VERSION"), Some("3.0.0".to_string()).as_ref());
    assert_eq!(body.get("COMPRESSION"), Some(compression.to_string()).as_ref());
    assert_eq!(body.map.len(), 2);
}

#[test]
fn new_body_req_startup_none_compression() {
    let body = BodyReqStartup::new(None);
    assert_eq!(body.get("CQL_VERSION"), Some("3.0.0".to_string()).as_ref());
    assert_eq!(body.map.len(), 1);
}

#[test]
fn new_req_startup() {
    let compression = Some("test_compression".to_string());
    let frame = Frame::new_req_startup(compression, Version::V4);
    assert_eq!(frame.version, Version::V4);
    assert_eq!(frame.flags, Flags::empty());
    assert_eq!(frame.opcode, Opcode::Startup);
    assert_eq!(frame.tracing_id, None);
    assert!(frame.warnings.is_empty());
}

#[test]
fn startup_body_serialize_parse_round_trip() {
    let body = BodyReqStartup::new(Some("snappy".to_string()));
    let bytes = body.serialize();
    let (parsed, end) = BodyReqStartup::from_cursor(&bytes, 0).unwrap();
    assert_eq!(end, bytes.len());
    assert_eq!(parsed.map.len(), 2);
    assert_eq!(parsed.get("CQL_VERSION"), Some("3.0.0".to_string()).as_ref());
    assert_eq!(parsed.get("COMPRESSION"), Some("snappy".to_string()).as_ref());
}

#[test]
fn startup_body_exact_bytes() {
    // [string map] with one pair: count 1, then "CQL_VERSION" -> "3.0.0".
    let body = BodyReqStartup::new(None);
    let bytes = body.serialize();
    let mut expected: Vec<u8> = vec![0x00, 0x01];
    expected.extend_from_slice(&[0x00, 0x0B]);
    expected.extend_from_slice(b"CQL_VERSION");
    expected.extend_from_slice(&[0x00, 0x05]);
    expected.extend_from_slice(b"3.0.0");
    assert_eq!(bytes, expected);
}

#[test]
fn startup_map_duplicate_key_last_binding_wins() {
    // Two bindings of one option: the later insert overrides the earlier.
    let mut bytes: Vec<u8> = vec![0x00, 0x02];
    bytes.extend_from_slice(&[0x00, 0x01, b'k', 0x00, 0x01, b'a']);
    bytes.extend_from_slice(&[0x00, 0x01, b'k', 0x00, 0x01, b'b']);
    let (body, end) = BodyReqStartup::from_cursor(&bytes, 0).unwrap();
    assert_eq!(end, bytes.len());
    assert_eq!(body.map.len(), 2);
    assert_eq!(body.get("k"), Some("b".to_string()).as_ref());
}

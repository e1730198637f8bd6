//! Error behaviour of reader and writer.

use fbx_direct::common::{FbxFormatType, Property};
use fbx_direct::reader::{ErrorKind, EventReader};
use fbx_direct::writer::sink::MemSink;
use fbx_direct::writer::Error as WError;
use fbx_direct::writer::EmitterConfig;
use fbx_direct::writer::EventWriter;
use fbx_direct::writer::FbxEvent as WEvent;

fn binary_header(version: u32) -> Vec<u8> {
    let mut bytes: Vec<u8> = Vec::new();
    bytes.extend_from_slice(b"Kaydara FBX Binary  \x00");
    bytes.extend_from_slice(&[0x1a, 0x00]);
    bytes.extend_from_slice(&version.to_le_bytes());
    bytes
}

#[test]
fn invalid_magic_is_reported_at_position_zero() {
    let mut bytes = b"Kaydara FBX Textual ".to_vec();
    bytes.push(0);
    let mut reader = EventReader::new(bytes);
    let err = reader.next().unwrap_err();
    assert!(matches!(err.kind, ErrorKind::InvalidMagic));
    assert_eq!(err.pos, 0);
}

#[test]
fn truncated_header_is_eof() {
    let bytes = b"Kaydara FBX Binary  \x00\x1a\x00\x28".to_vec();
    let mut reader = EventReader::new(bytes);
    let err = reader.next().unwrap_err();
    assert!(matches!(err.kind, ErrorKind::UnexpectedEof));
    assert_eq!(err.pos, 23);
}

#[test]
fn reader_latches_on_error() {
    let bytes = b"nonsense without any terminator".to_vec();
    let mut reader = EventReader::new(bytes);
    let e1 = reader.next().unwrap_err();
    let e2 = reader.next().unwrap_err();
    assert_eq!(e1, e2);
}

#[test]
fn high_type_code_is_a_data_error() {
    let mut bytes = binary_header(7400);
    // One node with one property whose type code has the high bit set.
    let node_start = bytes.len() as u32;
    bytes.extend_from_slice(&(node_start + 15).to_le_bytes());  // end offset (never reached)
    bytes.extend_from_slice(&1u32.to_le_bytes());  // one property
    bytes.extend_from_slice(&1u32.to_le_bytes());  // its size
    bytes.push(1);  // name length
    bytes.push(b'N');
    bytes.push(0x80);  // the offending type code
    let mut reader = EventReader::new(bytes);
    assert!(matches!(reader.next(), Ok(_)));  // StartFbx
    let err = reader.next().unwrap_err();
    assert!(matches!(err.kind, ErrorKind::DataError(_)));
    assert_eq!(err.pos, 41);
}

#[test]
fn unknown_type_code_is_unexpected_value() {
    let mut bytes = binary_header(7400);
    bytes.extend_from_slice(&100u32.to_le_bytes());
    bytes.extend_from_slice(&1u32.to_le_bytes());
    bytes.extend_from_slice(&1u32.to_le_bytes());
    bytes.push(1);
    bytes.push(b'N');
    bytes.push(b'Q');  // no property has this code
    let mut reader = EventReader::new(bytes);
    assert!(matches!(reader.next(), Ok(_)));
    let err = reader.next().unwrap_err();
    assert!(matches!(err.kind, ErrorKind::UnexpectedValue(_)));
}

#[test]
fn bad_name_bytes_are_a_utf8_error() {
    let mut bytes = binary_header(7400);
    bytes.extend_from_slice(&100u32.to_le_bytes());
    bytes.extend_from_slice(&0u32.to_le_bytes());
    bytes.extend_from_slice(&0u32.to_le_bytes());
    bytes.push(2);
    bytes.push(0xff);
    bytes.push(0xfe);
    let mut reader = EventReader::new(bytes);
    assert!(matches!(reader.next(), Ok(_)));
    let err = reader.next().unwrap_err();
    assert!(matches!(err.kind, ErrorKind::Utf8Error));
}

#[test]
fn node_must_end_where_its_header_said() {
    let mut bytes = binary_header(7400);
    // A node that claims to end far away, then a null record.
    bytes.extend_from_slice(&9999u32.to_le_bytes());
    bytes.extend_from_slice(&0u32.to_le_bytes());
    bytes.extend_from_slice(&0u32.to_le_bytes());
    bytes.push(1);
    bytes.push(b'A');
    bytes.extend_from_slice(&[0u8; 13]);
    let mut reader = EventReader::new(bytes);
    assert!(matches!(reader.next(), Ok(_)));
    assert!(matches!(reader.next(), Ok(_)));  // StartNode A
    let err = reader.next().unwrap_err();
    assert!(matches!(err.kind, ErrorKind::DataError(_)));
}

#[test]
fn ascii_body_is_unimplemented() {
    let bytes = b"; a comment line\nNode: 1\n".to_vec();
    let mut reader = EventReader::new(bytes);
    assert!(matches!(
        reader.next(),
        Ok(fbx_direct::reader::FbxEvent::StartFbx(FbxFormatType::Ascii))
    ));
    let err = reader.next().unwrap_err();
    assert!(matches!(err.kind, ErrorKind::Unimplemented(_)));
}

#[test]
fn writer_demands_start_fbx_first() {
    let mut writer = EventWriter::new(MemSink::new());
    let err = writer.write(WEvent::EndNode).unwrap_err();
    assert_eq!(err, WError::FbxNotStarted);
}

#[test]
fn writer_rejects_a_second_start() {
    let mut writer = EventWriter::new(MemSink::new());
    writer.write(WEvent::StartFbx(FbxFormatType::Binary(7400))).unwrap();
    let err = writer.write(WEvent::StartFbx(FbxFormatType::Binary(7400))).unwrap_err();
    assert_eq!(err, WError::FbxAlreadyStarted);
}

#[test]
fn writer_rejects_versions_outside_the_7000_series() {
    let mut writer = EventWriter::new(MemSink::new());
    let err = writer.write(WEvent::StartFbx(FbxFormatType::Binary(6100))).unwrap_err();
    assert_eq!(err, WError::UnsupportedFbxVersion(6100));
    let mut writer = EventWriter::new(MemSink::new());
    let err = writer.write(WEvent::StartFbx(FbxFormatType::Binary(8000))).unwrap_err();
    assert_eq!(err, WError::UnsupportedFbxVersion(8000));
}

#[test]
fn writer_rejects_extra_end_node() {
    let mut writer = EventWriter::new(MemSink::new());
    writer.write(WEvent::StartFbx(FbxFormatType::Binary(7400))).unwrap();
    let err = writer.write(WEvent::EndNode).unwrap_err();
    assert_eq!(err, WError::ExtraEndNode);
}

#[test]
fn writer_latches_on_error() {
    let mut writer = EventWriter::new(MemSink::new());
    writer.write(WEvent::StartFbx(FbxFormatType::Binary(7400))).unwrap();
    let e1 = writer.write(WEvent::EndNode).unwrap_err();
    // Even a valid event now repeats the latched error.
    let e2 = writer.write(WEvent::EndFbx).unwrap_err();
    assert_eq!(e1, e2);
}

#[test]
fn comment_into_binary_follows_the_config() {
    // Default: tolerated and dropped.
    let mut writer = EventWriter::new(MemSink::new());
    writer.write(WEvent::StartFbx(FbxFormatType::Binary(7400))).unwrap();
    writer.write(WEvent::Comment("note")).unwrap();
    writer.write(WEvent::EndFbx).unwrap();
    // Strict: refused.
    let config = EmitterConfig::new().ignore_minor_errors(false);
    let mut writer = EventWriter::new_with_config(MemSink::new(), config);
    writer.write(WEvent::StartFbx(FbxFormatType::Binary(7400))).unwrap();
    let err = writer.write(WEvent::Comment("note")).unwrap_err();
    assert_eq!(err, WError::UnwritableEvent);
}

#[test]
fn configured_version_must_match_the_event() {
    let config = EmitterConfig::new().fbx_version(Some(7400));
    let mut writer = EventWriter::new_with_config(MemSink::new(), config);
    let err = writer.write(WEvent::StartFbx(FbxFormatType::Binary(7500))).unwrap_err();
    assert!(matches!(err, WError::InvalidOption(_)));
}

#[test]
fn ascii_output_needs_a_version() {
    let mut writer = EventWriter::new(MemSink::new());
    let err = writer.write(WEvent::StartFbx(FbxFormatType::Ascii)).unwrap_err();
    assert!(matches!(err, WError::InvalidOption(_)));
}

#[test]
fn long_names_are_rejected() {
    let mut writer = EventWriter::new(MemSink::new());
    writer.write(WEvent::StartFbx(FbxFormatType::Binary(7400))).unwrap();
    let name = "x".repeat(256);
    let err = writer
        .write(WEvent::StartNode { name: &name, properties: vec![] })
        .unwrap_err();
    assert!(matches!(err, WError::DataTooLarge(_)));
}

#[test]
fn truncated_compressed_array_fails() {
    let data: Vec<i32> = vec![1, 2, 3, 4, 5, 6, 7, 8];
    let mut writer = EventWriter::new(MemSink::new());
    writer.write(WEvent::StartFbx(FbxFormatType::Binary(7400))).unwrap();
    writer
        .write(WEvent::StartNode { name: "N", properties: vec![Property::VecI32(&data)] })
        .unwrap();
    writer.write(WEvent::EndNode).unwrap();
    writer.write(WEvent::EndFbx).unwrap();
    let mut bytes = writer.into_inner().into_vec();
    // Corrupt the compressed block.
    let cpos = 27 + 13 + 1 + 13;
    bytes[cpos] ^= 0xa5;
    bytes[cpos + 1] ^= 0xa5;
    let mut reader = EventReader::new(bytes);
    assert!(matches!(reader.next(), Ok(_)));
    assert!(reader.next().is_err());
}

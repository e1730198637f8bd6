//! Binary scenarios: hand-built inputs, round trips, and the re-encoding
//! fixed point.

use fbx_direct::common::{FbxFormatType, OwnedProperty, Property};
use fbx_direct::reader::EventReader;
use fbx_direct::reader::FbxEvent as REvent;
use fbx_direct::writer::sink::MemSink;
use fbx_direct::writer::EventWriter;
use fbx_direct::writer::FbxEvent as WEvent;

fn read_all(bytes: Vec<u8>) -> Vec<REvent> {
    let mut reader = EventReader::new(bytes);
    reader.read_to_end().expect("the stream must parse")
}

fn write_all(events: &[WEvent<'_>]) -> Vec<u8> {
    let mut writer = EventWriter::new(MemSink::new());
    for e in events {
        writer.write(e.clone()).expect("the event must be writable");
    }
    writer.into_inner().into_vec()
}

fn reexport(bytes: Vec<u8>) -> Vec<u8> {
    let mut reader = EventReader::new(bytes);
    let mut writer = EventWriter::new(MemSink::new());
    loop {
        let ev = reader.next().expect("the stream must parse");
        let done = matches!(ev, REvent::EndFbx);
        writer.write(ev.as_writer_event()).expect("writable");
        if done {
            break;
        }
    }
    writer.into_inner().into_vec()
}

#[test]
fn empty_fbx_v7400_hand_built() {
    // Magic, 0x1a 0x00, version 7400, and the top-level null record; the
    // reader must not demand the footer.
    let mut bytes: Vec<u8> = Vec::new();
    bytes.extend_from_slice(b"Kaydara FBX Binary  \x00");
    bytes.extend_from_slice(&[0x1a, 0x00]);
    bytes.extend_from_slice(&7400u32.to_le_bytes());
    bytes.extend_from_slice(&[0u8; 13]);
    let events = read_all(bytes);
    assert_eq!(
        events,
        vec![REvent::StartFbx(FbxFormatType::Binary(7400)), REvent::EndFbx]
    );
}

#[test]
fn empty_fbx_v7400_written() {
    let bytes = write_all(&[WEvent::StartFbx(FbxFormatType::Binary(7400)), WEvent::EndFbx]);
    // Header: 20-byte magic, NUL, 0x1a 0x00, version.
    assert_eq!(&bytes[0..20], b"Kaydara FBX Binary  ");
    assert_eq!(&bytes[20..23], &[0x00, 0x1a, 0x00]);
    assert_eq!(&bytes[23..27], &7400u32.to_le_bytes());
    // Top-level null record.
    assert_eq!(&bytes[27..40], &[0u8; 13]);
    // Footer: the first magic, padding to 16, 4 zeros, the version, 120
    // zeros, the closing magic.
    assert_eq!(
        &bytes[40..56],
        &[0xfa, 0xbc, 0xaf, 0x0f, 0xdf, 0xcf, 0xdf, 0x6f, 0xbf, 0x7f, 0xff, 0x8f, 0x1f, 0xff, 0x2f, 0x7f]
    );
    let after_magic = 56;
    let pad = (16 - (after_magic % 16)) % 16;
    let z = after_magic + pad;
    assert!(bytes[after_magic..z].iter().all(|&b| b == 0));
    assert_eq!(&bytes[z..z + 4], &[0u8; 4]);
    assert_eq!(&bytes[z + 4..z + 8], &7400u32.to_le_bytes());
    assert!(bytes[z + 8..z + 128].iter().all(|&b| b == 0));
    assert_eq!(
        &bytes[z + 128..z + 144],
        &[0xf8, 0x5a, 0x8c, 0x6a, 0xde, 0xf5, 0xd9, 0x7e, 0xec, 0xe9, 0x0c, 0xe3, 0x75, 0x8f, 0x29, 0x0b]
    );
    assert_eq!(bytes.len(), z + 144);
    let events = read_all(bytes);
    assert_eq!(
        events,
        vec![REvent::StartFbx(FbxFormatType::Binary(7400)), REvent::EndFbx]
    );
}

#[test]
fn single_empty_node_round_trips() {
    let bytes = write_all(&[
        WEvent::StartFbx(FbxFormatType::Binary(7400)),
        WEvent::StartNode { name: "A", properties: vec![] },
        WEvent::EndNode,
        WEvent::EndFbx,
    ]);
    let events = read_all(bytes);
    assert_eq!(
        events,
        vec![
            REvent::StartFbx(FbxFormatType::Binary(7400)),
            REvent::StartNode { name: "A".to_string(), properties: vec![] },
            REvent::EndNode,
            REvent::EndFbx,
        ]
    );
}

#[test]
fn scalar_properties_round_trip() {
    let bits = 1.5f64.to_bits();
    let bytes = write_all(&[
        WEvent::StartFbx(FbxFormatType::Binary(7400)),
        WEvent::StartNode {
            name: "P",
            properties: vec![
                Property::Bool(true),
                Property::I32(-7),
                Property::F64(bits),
                Property::String("hi\0"),
            ],
        },
        WEvent::EndNode,
        WEvent::EndFbx,
    ]);
    // The string's length header holds 3: after the stream header (27),
    // the node header (13, its last byte the name length), the name (1),
    // the bool (2), the i32 (5) and the f64 (9) properties, and the
    // string's type code.
    let spos = 27 + 13 + 1 + 2 + 5 + 9 + 1;
    assert_eq!(&bytes[spos..spos + 4], &3u32.to_le_bytes());
    let events = read_all(bytes);
    assert_eq!(
        events,
        vec![
            REvent::StartFbx(FbxFormatType::Binary(7400)),
            REvent::StartNode {
                name: "P".to_string(),
                properties: vec![
                    OwnedProperty::Bool(true),
                    OwnedProperty::I32(-7),
                    OwnedProperty::F64(bits),
                    OwnedProperty::String("hi\0".to_string()),
                ],
            },
            REvent::EndNode,
            REvent::EndFbx,
        ]
    );
}

#[test]
fn compressed_array_round_trips() {
    let data: Vec<i32> = vec![1, -1, 2, -3, 5, -8, 13, -21, 34];
    let bytes = write_all(&[
        WEvent::StartFbx(FbxFormatType::Binary(7400)),
        WEvent::StartNode { name: "X", properties: vec![Property::VecI32(&data)] },
        WEvent::EndNode,
        WEvent::EndFbx,
    ]);
    // The array header after the type code: count, then encoding 1.
    let apos = 27 + 13 + 1;
    assert_eq!(bytes[apos], b'i');
    assert_eq!(&bytes[apos + 1..apos + 5], &9u32.to_le_bytes());
    assert_eq!(&bytes[apos + 5..apos + 9], &1u32.to_le_bytes());
    let events = read_all(bytes);
    match &events[1] {
        REvent::StartNode { name, properties } => {
            assert_eq!(name, "X");
            assert_eq!(properties, &vec![OwnedProperty::VecI32(data.clone())]);
            let widened: Vec<i64> = data.iter().map(|&v| i64::from(v)).collect();
            assert_eq!(properties[0].get_vec_i64(), Some(widened));
        }
        other => panic!("expected a node, got {other:?}"),
    }
}

#[test]
fn nested_nodes_round_trip_with_one_null_record() {
    let bytes = write_all(&[
        WEvent::StartFbx(FbxFormatType::Binary(7400)),
        WEvent::StartNode { name: "A", properties: vec![] },
        WEvent::StartNode { name: "B", properties: vec![Property::I32(1)] },
        WEvent::EndNode,
        WEvent::EndNode,
        WEvent::EndFbx,
    ]);
    // A (13 + 1 bytes) holds B (13 + 1 + 5 bytes) and then one null
    // record; B, with a property and no children, has none.  The
    // top-level terminator follows, then the footer magic.
    let a = 27;
    let b = a + 14;
    let after_b = b + 19;
    assert!(bytes[after_b..after_b + 13].iter().all(|&x| x == 0), "A needs a null record");
    let top = after_b + 13;
    assert!(bytes[top..top + 13].iter().all(|&x| x == 0));
    assert_eq!(bytes[top + 13], 0xfa, "B must not have its own null record");
    // And A's end offset points right after its null record.
    let a_end = u32::from_le_bytes(bytes[a..a + 4].try_into().unwrap()) as usize;
    assert_eq!(a_end, top);
    let b_end = u32::from_le_bytes(bytes[b..b + 4].try_into().unwrap()) as usize;
    assert_eq!(b_end, after_b);
    let events = read_all(bytes);
    assert_eq!(
        events,
        vec![
            REvent::StartFbx(FbxFormatType::Binary(7400)),
            REvent::StartNode { name: "A".to_string(), properties: vec![] },
            REvent::StartNode {
                name: "B".to_string(),
                properties: vec![OwnedProperty::I32(1)],
            },
            REvent::EndNode,
            REvent::EndNode,
            REvent::EndFbx,
        ]
    );
}

#[test]
fn version_7500_widens_header_fields() {
    let bits = 1.5f64.to_bits();
    let bytes = write_all(&[
        WEvent::StartFbx(FbxFormatType::Binary(7500)),
        WEvent::StartNode {
            name: "P",
            properties: vec![
                Property::Bool(true),
                Property::I32(-7),
                Property::F64(bits),
                Property::String("hi\0"),
            ],
        },
        WEvent::EndNode,
        WEvent::EndFbx,
    ]);
    // The node header is 25 bytes wide: the name length byte sits at
    // offset 27 + 24, the name right after it.
    assert_eq!(bytes[27 + 24], 1);
    assert_eq!(bytes[27 + 25], b'P');
    // num_properties is a 64-bit field now.
    assert_eq!(&bytes[27 + 8..27 + 16], &4u64.to_le_bytes());
    let events = read_all(bytes);
    assert_eq!(
        events,
        vec![
            REvent::StartFbx(FbxFormatType::Binary(7500)),
            REvent::StartNode {
                name: "P".to_string(),
                properties: vec![
                    OwnedProperty::Bool(true),
                    OwnedProperty::I32(-7),
                    OwnedProperty::F64(bits),
                    OwnedProperty::String("hi\0".to_string()),
                ],
            },
            REvent::EndNode,
            REvent::EndFbx,
        ]
    );
}

#[test]
fn all_property_kinds_round_trip() {
    let f32s: Vec<u32> = vec![1.0f32.to_bits(), (-2.5f32).to_bits()];
    let f64s: Vec<u64> = vec![0.25f64.to_bits(), 1e300f64.to_bits()];
    let i64s: Vec<i64> = vec![i64::MIN, -1, 0, i64::MAX];
    let bools: Vec<bool> = vec![true, false, false, true];
    let blob: Vec<u8> = vec![0, 1, 2, 253, 254, 255];
    let props: Vec<Property<'_>> = vec![
        Property::Bool(false),
        Property::I16(-12345),
        Property::I32(i32::MIN),
        Property::I64(i64::MAX),
        Property::F32(3.25f32.to_bits()),
        Property::F64((-0.0f64).to_bits()),
        Property::VecBool(&bools),
        Property::VecI32(&[]),
        Property::VecI64(&i64s),
        Property::VecF32(&f32s),
        Property::VecF64(&f64s),
        Property::String("héllo\nworld"),
        Property::Binary(&blob),
    ];
    let bytes = write_all(&[
        WEvent::StartFbx(FbxFormatType::Binary(7400)),
        WEvent::StartNode { name: "K", properties: props },
        WEvent::EndNode,
        WEvent::EndFbx,
    ]);
    let events = read_all(bytes);
    match &events[1] {
        REvent::StartNode { name, properties } => {
            assert_eq!(name, "K");
            assert_eq!(
                properties,
                &vec![
                    OwnedProperty::Bool(false),
                    OwnedProperty::I16(-12345),
                    OwnedProperty::I32(i32::MIN),
                    OwnedProperty::I64(i64::MAX),
                    OwnedProperty::F32(3.25f32.to_bits()),
                    OwnedProperty::F64((-0.0f64).to_bits()),
                    OwnedProperty::VecBool(bools.clone()),
                    OwnedProperty::VecI32(vec![]),
                    OwnedProperty::VecI64(i64s.clone()),
                    OwnedProperty::VecF32(f32s.clone()),
                    OwnedProperty::VecF64(f64s.clone()),
                    OwnedProperty::String("héllo\nworld".to_string()),
                    OwnedProperty::Binary(blob.clone()),
                ]
            );
        }
        other => panic!("expected a node, got {other:?}"),
    }
}

#[test]
fn reencoding_reaches_a_fixed_point() {
    let data: Vec<i32> = vec![9, 8, 7, 6, 5];
    let x = write_all(&[
        WEvent::StartFbx(FbxFormatType::Binary(7400)),
        WEvent::StartNode { name: "Top", properties: vec![Property::String("s")] },
        WEvent::StartNode { name: "Inner", properties: vec![Property::VecI32(&data)] },
        WEvent::EndNode,
        WEvent::EndNode,
        WEvent::StartNode { name: "Empty", properties: vec![] },
        WEvent::EndNode,
        WEvent::EndFbx,
    ]);
    let once = reexport(x);
    let twice = reexport(once.clone());
    assert_eq!(once, twice);
}

#[test]
fn positions_never_move_backwards() {
    let bytes = write_all(&[
        WEvent::StartFbx(FbxFormatType::Binary(7400)),
        WEvent::StartNode { name: "A", properties: vec![Property::I64(5)] },
        WEvent::StartNode { name: "B", properties: vec![] },
        WEvent::EndNode,
        WEvent::EndNode,
        WEvent::EndFbx,
    ]);
    let mut reader = EventReader::new(bytes);
    let mut last = reader.position();
    loop {
        let ev = reader.next().expect("parses");
        let pos = reader.position();
        assert!(pos >= last, "the position moved backwards");
        last = pos;
        if matches!(ev, REvent::EndFbx) {
            break;
        }
    }
}

#[test]
fn stream_shape_holds() {
    let bytes = write_all(&[
        WEvent::StartFbx(FbxFormatType::Binary(7400)),
        WEvent::StartNode { name: "A", properties: vec![] },
        WEvent::StartNode { name: "B", properties: vec![] },
        WEvent::EndNode,
        WEvent::EndNode,
        WEvent::EndFbx,
    ]);
    let events = read_all(bytes);
    assert!(matches!(events[0], REvent::StartFbx(_)));
    assert!(matches!(events[events.len() - 1], REvent::EndFbx));
    let mut depth = 0i64;
    for e in &events[1..events.len() - 1] {
        match e {
            REvent::StartNode { .. } => depth += 1,
            REvent::EndNode => {
                depth -= 1;
                assert!(depth >= 0);
            }
            other => panic!("no other event belongs inside a binary stream: {other:?}"),
        }
    }
    assert_eq!(depth, 0);
}

#[test]
fn reader_latches_after_end() {
    let bytes = write_all(&[WEvent::StartFbx(FbxFormatType::Binary(7400)), WEvent::EndFbx]);
    let mut reader = EventReader::new(bytes);
    assert!(matches!(reader.next(), Ok(REvent::StartFbx(_))));
    assert!(matches!(reader.next(), Ok(REvent::EndFbx)));
    // Latched: further pulls repeat the terminal event.
    assert!(matches!(reader.next(), Ok(REvent::EndFbx)));
    assert!(matches!(reader.next(), Ok(REvent::EndFbx)));
}

#[test]
fn events_iterator_stops_after_terminal() {
    let bytes = write_all(&[WEvent::StartFbx(FbxFormatType::Binary(7400)), WEvent::EndFbx]);
    let mut events = EventReader::new(bytes).into_iter();
    assert!(matches!(events.next(), Some(Ok(REvent::StartFbx(_)))));
    assert!(matches!(events.next(), Some(Ok(REvent::EndFbx))));
    assert!(events.next().is_none());
    assert!(events.next().is_none());
}

//! The textual FBX form the emitter produces.

use fbx_direct::common::{FbxFormatType, Property};
use fbx_direct::writer::sink::MemSink;
use fbx_direct::writer::EmitterConfig;
use fbx_direct::writer::Error as WError;
use fbx_direct::writer::EventWriter;
use fbx_direct::writer::FbxEvent as WEvent;

fn ascii_writer(version: u32) -> EventWriter {
    let config = EmitterConfig::new().fbx_version(Some(version));
    EventWriter::new_with_config(MemSink::new(), config)
}

#[test]
fn header_line_prints_the_version() {
    let mut writer = ascii_writer(7400);
    writer.write(WEvent::StartFbx(FbxFormatType::Ascii)).unwrap();
    writer.write(WEvent::EndFbx).unwrap();
    let bytes = writer.into_inner().into_vec();
    assert_eq!(bytes, b"; FBX 7.4.0 project file\n".to_vec());
}

#[test]
fn nodes_properties_and_braces() {
    let mut writer = ascii_writer(7400);
    writer.write(WEvent::StartFbx(FbxFormatType::Ascii)).unwrap();
    writer
        .write(WEvent::StartNode {
            name: "A",
            properties: vec![Property::I32(-7), Property::String("say \"hi\"\n")],
        })
        .unwrap();
    writer.write(WEvent::StartNode { name: "B", properties: vec![] }).unwrap();
    writer.write(WEvent::EndNode).unwrap();
    writer.write(WEvent::EndNode).unwrap();
    writer.write(WEvent::EndFbx).unwrap();
    let text = String::from_utf8(writer.into_inner().into_vec()).unwrap();
    let expect = "; FBX 7.4.0 project file\nA: -7, \"say &quot;hi&quot;&lf;\" {\n\tB:  {\n\t}\n}\n";
    assert_eq!(text, expect);
}

#[test]
fn arrays_use_the_star_form() {
    let data: Vec<i64> = vec![3, -4, 5];
    let mut writer = ascii_writer(7500);
    writer.write(WEvent::StartFbx(FbxFormatType::Ascii)).unwrap();
    writer
        .write(WEvent::StartNode { name: "V", properties: vec![Property::VecI64(&data)] })
        .unwrap();
    writer.write(WEvent::EndNode).unwrap();
    writer.write(WEvent::EndFbx).unwrap();
    let text = String::from_utf8(writer.into_inner().into_vec()).unwrap();
    let expect = "; FBX 7.5.0 project file\nV: *3 {\n\ta: 3,-4,5\n}\n";
    assert_eq!(text, expect);
}

#[test]
fn binary_property_is_base64_in_quotes() {
    let blob: Vec<u8> = b"hi".to_vec();
    let mut writer = ascii_writer(7400);
    writer.write(WEvent::StartFbx(FbxFormatType::Ascii)).unwrap();
    writer
        .write(WEvent::StartNode { name: "D", properties: vec![Property::Binary(&blob)] })
        .unwrap();
    writer.write(WEvent::EndNode).unwrap();
    writer.write(WEvent::EndFbx).unwrap();
    let text = String::from_utf8(writer.into_inner().into_vec()).unwrap();
    assert!(text.contains("D: \"aGk=\"\n"), "got: {text}");
}

#[test]
fn comments_are_indented_per_line() {
    let mut writer = ascii_writer(7400);
    writer.write(WEvent::StartFbx(FbxFormatType::Ascii)).unwrap();
    writer.write(WEvent::StartNode { name: "A", properties: vec![] }).unwrap();
    writer.write(WEvent::Comment("; one\n; two")).unwrap();
    writer.write(WEvent::EndNode).unwrap();
    writer.write(WEvent::EndFbx).unwrap();
    let text = String::from_utf8(writer.into_inner().into_vec()).unwrap();
    assert!(text.contains("\t; one\n\t; two\n"), "got: {text}");
}

#[test]
fn float_properties_have_no_textual_form() {
    let mut writer = ascii_writer(7400);
    writer.write(WEvent::StartFbx(FbxFormatType::Ascii)).unwrap();
    let err = writer
        .write(WEvent::StartNode {
            name: "F",
            properties: vec![Property::F64(1.5f64.to_bits())],
        })
        .unwrap_err();
    assert!(matches!(err, WError::Unimplemented(_)));
}

#![allow(non_snake_case)]

use wasmdec::module::errors::DecodeError;
use wasmdec::module::indices::TypeIndex;
use wasmdec::module::reader::BinaryReader;
use wasmdec::module::sections::SectionId;
use wasmdec::module::types::{Instruction, NumType, ValueType};
use wasmdec::module::{BinaryVersion, Module};

fn decode(bytes: Vec<u8>) -> Result<Module, DecodeError> {
    let mut reader = BinaryReader::new(bytes);
    reader.read()
}

fn preamble() -> Vec<u8> {
    vec![0x00, 0x61, 0x73, 0x6D, 0x01, 0x00, 0x00, 0x00]
}

#[test]
fn empty_module_with_terminator_has_no_sections() {
    let mut bytes = preamble();
    bytes.push(0x00);
    let module = decode(bytes).unwrap();
    assert_eq!(module.binaryVersion, BinaryVersion::One);
    assert!(module.typeSection.is_none());
    assert!(module.functionSection.is_none());
    assert!(module.startSection.is_none());
    assert!(module.codeSection.is_none());
}

#[test]
fn empty_module_at_end_of_input_has_no_sections() {
    let module = decode(preamble()).unwrap();
    assert_eq!(module.binaryVersion, BinaryVersion::One);
    assert!(module.typeSection.is_none());
    assert!(module.functionSection.is_none());
    assert!(module.startSection.is_none());
    assert!(module.codeSection.is_none());
}

#[test]
fn preamble_with_wrong_magic_fails() {
    let bytes = vec![0x00, 0x61, 0x73, 0x6E, 0x01, 0x00, 0x00, 0x00, 0x00];
    assert_eq!(decode(bytes), Err(DecodeError::BadMagic));
}

#[test]
fn preamble_with_unsupported_version_fails() {
    let bytes = vec![0x00, 0x61, 0x73, 0x6D, 0x02, 0x00, 0x00, 0x00, 0x00];
    assert_eq!(decode(bytes), Err(DecodeError::UnsupportedVersion(2)));
}

#[test]
fn preamble_with_big_endian_version_fails() {
    let bytes = vec![0x00, 0x61, 0x73, 0x6D, 0x00, 0x00, 0x00, 0x01, 0x00];
    assert_eq!(
        decode(bytes),
        Err(DecodeError::UnsupportedVersion(0x0100_0000))
    );
}

#[test]
fn truncated_magic_fails() {
    assert_eq!(decode(vec![0x00, 0x61]), Err(DecodeError::Truncated));
}

#[test]
fn truncated_version_fails() {
    assert_eq!(
        decode(vec![0x00, 0x61, 0x73, 0x6D, 0x01, 0x00]),
        Err(DecodeError::Truncated)
    );
}

#[test]
fn empty_input_fails() {
    assert_eq!(decode(Vec::new()), Err(DecodeError::Truncated));
}

#[test]
fn unknown_section_id_fails() {
    let mut bytes = preamble();
    bytes.push(0x7E);
    assert_eq!(decode(bytes), Err(DecodeError::InvalidSectionId(0x7E)));
}

#[test]
fn end_to_end_type_section_module() {
    // Preamble, then a type section holding one signature (i32, i32) -> (i32).
    let bytes = vec![
        0x00, 0x61, 0x73, 0x6D, 0x01, 0x00, 0x00, 0x00, 0x01, 0x07, 0x01, 0x60, 0x02, 0x7F,
        0x7F, 0x01, 0x7F, 0x00,
    ];
    let module = decode(bytes).unwrap();
    assert_eq!(module.binaryVersion, BinaryVersion::One);
    let typeSection = module.typeSection.expect("type section must be present");
    assert_eq!(typeSection.functionSignatures.len(), 1);
    let signature = &typeSection.functionSignatures[0];
    assert_eq!(
        signature.inputs.valueTypes,
        vec![ValueType::Num(NumType::I32), ValueType::Num(NumType::I32)]
    );
    assert_eq!(signature.outputs.valueTypes, vec![ValueType::Num(NumType::I32)]);
    assert!(module.functionSection.is_none());
    assert!(module.codeSection.is_none());
}

#[test]
fn type_section_with_explicit_terminator() {
    // The signature vector may end with a 0x00 byte in place of the next
    // marker; the window then holds the terminator as its last byte.
    let mut bytes = preamble();
    bytes.extend([0x01, 0x08, 0x01, 0x60, 0x02, 0x7F, 0x7F, 0x01, 0x7F, 0x00]);
    let module = decode(bytes).unwrap();
    let typeSection = module.typeSection.expect("type section must be present");
    assert_eq!(typeSection.functionSignatures.len(), 1);
}

#[test]
fn type_section_with_bad_marker_fails() {
    let mut bytes = preamble();
    bytes.extend([0x01, 0x02, 0x01, 0x61]);
    assert_eq!(decode(bytes), Err(DecodeError::InvalidSignatureMarker(0x61)));
}

#[test]
fn type_section_with_invalid_value_type_fails() {
    let mut bytes = preamble();
    bytes.extend([0x01, 0x05, 0x01, 0x60, 0x01, 0x7E, 0x00]);
    assert_eq!(decode(bytes), Err(DecodeError::InvalidValueType(0x7E)));
}

#[test]
fn type_section_with_trailing_bytes_fails() {
    // A terminator followed by a leftover byte violates the window.
    let mut bytes = preamble();
    bytes.extend([0x01, 0x03, 0x01, 0x00, 0xAA]);
    assert_eq!(decode(bytes), Err(DecodeError::TrailingBytes));
}

#[test]
fn section_longer_than_input_fails() {
    let mut bytes = preamble();
    bytes.extend([0x01, 0x05, 0x01, 0x60]);
    assert_eq!(decode(bytes), Err(DecodeError::Truncated));
}

#[test]
fn duplicate_section_fails() {
    let mut bytes = preamble();
    bytes.extend([0x01, 0x01, 0x00]);
    bytes.extend([0x01, 0x01, 0x00]);
    assert_eq!(
        decode(bytes),
        Err(DecodeError::DuplicateSection(SectionId::Type))
    );
}

#[test]
fn function_section_with_one_index() {
    let mut bytes = preamble();
    bytes.extend([0x03, 0x02, 0x01, 0x00]);
    let module = decode(bytes).unwrap();
    let functionSection = module.functionSection.expect("function section must be present");
    assert_eq!(functionSection.functions, vec![TypeIndex::Function(0)]);
}

#[test]
fn function_section_with_fewer_indices_than_declared_fails() {
    // The count is binding: a section that declares two indices but holds
    // one is truncated, not silently shorter.
    let mut bytes = preamble();
    bytes.extend([0x03, 0x02, 0x02, 0x00]);
    assert_eq!(decode(bytes), Err(DecodeError::Truncated));
}

#[test]
fn function_section_with_more_indices_than_declared_fails() {
    let mut bytes = preamble();
    bytes.extend([0x03, 0x03, 0x01, 0x00, 0x05]);
    assert_eq!(decode(bytes), Err(DecodeError::TrailingBytes));
}

#[test]
fn start_section_holds_function_index() {
    let mut bytes = preamble();
    bytes.extend([0x08, 0x01, 0x05]);
    let module = decode(bytes).unwrap();
    let startSection = module.startSection.expect("start section must be present");
    assert_eq!(startSection.functionIndex, 5);
}

#[test]
fn start_section_with_trailing_bytes_fails() {
    let mut bytes = preamble();
    bytes.extend([0x08, 0x02, 0x05, 0x00]);
    assert_eq!(decode(bytes), Err(DecodeError::TrailingBytes));
}

#[test]
fn code_section_with_one_body() {
    // One body: zero locals, then LocalGet(0), LocalGet(1), I32Add, End.
    let mut bytes = preamble();
    bytes.extend([
        0x0A, 0x09, 0x01, 0x07, 0x00, 0x20, 0x00, 0x20, 0x01, 0x6A, 0x0B,
    ]);
    let module = decode(bytes).unwrap();
    let codeSection = module.codeSection.expect("code section must be present");
    assert_eq!(codeSection.functionBodies.len(), 1);
    let body = &codeSection.functionBodies[0];
    assert_eq!(body.locals.valueTypes.len(), 0);
    assert_eq!(
        body.body.instructions,
        vec![
            Instruction::LocalGet(0),
            Instruction::LocalGet(1),
            Instruction::I32Add,
            Instruction::End,
        ]
    );
    assert_eq!(body.body.instructions.last(), Some(&Instruction::End));
}

#[test]
fn code_section_body_with_locals() {
    // One body: two i32 locals, then End.
    let mut bytes = preamble();
    bytes.extend([0x0A, 0x06, 0x01, 0x04, 0x02, 0x7F, 0x7F, 0x0B]);
    let module = decode(bytes).unwrap();
    let codeSection = module.codeSection.expect("code section must be present");
    let body = &codeSection.functionBodies[0];
    assert_eq!(
        body.locals.valueTypes,
        vec![ValueType::Num(NumType::I32), ValueType::Num(NumType::I32)]
    );
    assert_eq!(body.body.instructions, vec![Instruction::End]);
}

#[test]
fn function_body_without_end_fails() {
    // The body window exhausts before any End instruction is decoded.
    let mut bytes = preamble();
    bytes.extend([0x0A, 0x08, 0x01, 0x06, 0x00, 0x20, 0x00, 0x20, 0x01, 0x6A]);
    assert_eq!(decode(bytes), Err(DecodeError::Truncated));
}

#[test]
fn function_body_with_invalid_opcode_fails() {
    let mut bytes = preamble();
    bytes.extend([0x0A, 0x04, 0x01, 0x02, 0x00, 0x42]);
    assert_eq!(decode(bytes), Err(DecodeError::InvalidOpcode(0x42)));
}

#[test]
fn function_body_with_bytes_after_end_fails() {
    let mut bytes = preamble();
    bytes.extend([0x0A, 0x05, 0x01, 0x03, 0x00, 0x0B, 0x6A]);
    assert_eq!(decode(bytes), Err(DecodeError::TrailingBytes));
}

#[test]
fn sections_decode_in_any_order() {
    // Code before type: the orchestrator dispatches on the id, not on a
    // fixed order.
    let mut bytes = preamble();
    bytes.extend([0x0A, 0x04, 0x01, 0x02, 0x00, 0x0B]);
    bytes.extend([0x01, 0x01, 0x00]);
    let module = decode(bytes).unwrap();
    assert!(module.codeSection.is_some());
    assert!(module.typeSection.is_some());
}

#[test]
fn default_module_has_no_sections() {
    let module = Module::default();
    assert_eq!(module.binaryVersion, BinaryVersion::One);
    assert!(module.typeSection.is_none());
    assert!(module.functionSection.is_none());
    assert!(module.startSection.is_none());
    assert!(module.codeSection.is_none());
}

#[test]
fn section_id_mapping_is_exact() {
    assert_eq!(SectionId::from_u8(0x01), Some(SectionId::Type));
    assert_eq!(SectionId::from_u8(0x03), Some(SectionId::Function));
    assert_eq!(SectionId::from_u8(0x08), Some(SectionId::Start));
    assert_eq!(SectionId::from_u8(0x0A), Some(SectionId::Code));
    assert_eq!(SectionId::from_u8(0x00), None);
    assert_eq!(SectionId::from_u8(0x02), None);
}

#![allow(non_snake_case)]

use wasmdec::module::errors::DecodeError;
use wasmdec::module::reader::BinaryReader;

fn read_u32_from(bytes: Vec<u8>) -> Result<u32, DecodeError> {
    let mut reader = BinaryReader::new(bytes);
    reader.readU32()
}

#[test]
fn single_byte_values_decode() {
    assert_eq!(read_u32_from(vec![0x00]), Ok(0));
    assert_eq!(read_u32_from(vec![0x01]), Ok(1));
    assert_eq!(read_u32_from(vec![0x7F]), Ok(127));
}

#[test]
fn multi_byte_values_decode() {
    assert_eq!(read_u32_from(vec![0x80, 0x01]), Ok(128));
    assert_eq!(read_u32_from(vec![0xAC, 0x02]), Ok(300));
    assert_eq!(read_u32_from(vec![0xE5, 0x8E, 0x26]), Ok(624485));
    assert_eq!(
        read_u32_from(vec![0xFF, 0xFF, 0xFF, 0xFF, 0x0F]),
        Ok(u32::MAX)
    );
}

#[test]
fn decoding_stops_at_first_clear_high_bit() {
    let mut reader = BinaryReader::new(vec![0xAC, 0x02, 0x7F, 0x0B]);
    assert_eq!(reader.readU32(), Ok(300));
    assert_eq!(reader.readU32(), Ok(127));
}

#[test]
fn redundant_encodings_decode_to_the_same_value() {
    // Non-minimal groupings are accepted: the result depends only on the
    // numeric value the groups denote.
    assert_eq!(read_u32_from(vec![0x80, 0x00]), Ok(0));
    assert_eq!(read_u32_from(vec![0x81, 0x00]), Ok(1));
    assert_eq!(read_u32_from(vec![0xFF, 0x00]), Ok(127));
    assert_eq!(
        read_u32_from(vec![0x80, 0x80, 0x80, 0x80, 0x80, 0x80, 0x80, 0x80, 0x80, 0x00]),
        Ok(0)
    );
}

#[test]
fn truncated_encodings_fail() {
    assert_eq!(read_u32_from(Vec::new()), Err(DecodeError::Truncated));
    assert_eq!(read_u32_from(vec![0x80]), Err(DecodeError::Truncated));
    assert_eq!(
        read_u32_from(vec![0xFF, 0xFF, 0xFF]),
        Err(DecodeError::Truncated)
    );
}

#[test]
fn values_beyond_u32_overflow() {
    // 2^32 and 2^35: valid LEB128 integers whose values exceed 32 bits.
    assert_eq!(
        read_u32_from(vec![0x80, 0x80, 0x80, 0x80, 0x10]),
        Err(DecodeError::VarintOverflow)
    );
    assert_eq!(
        read_u32_from(vec![0x80, 0x80, 0x80, 0x80, 0x80, 0x01]),
        Err(DecodeError::VarintOverflow)
    );
}

#[test]
fn round_trips_with_reference_encoder() {
    // Encode with the reference leb128 writer and decode with the
    // verified reader: the numeric value must survive the round trip.
    let values: [u32; 9] = [
        0,
        1,
        127,
        128,
        300,
        624485,
        0x0000_FFFF,
        0x7FFF_FFFF,
        u32::MAX,
    ];
    for value in values {
        let mut encoded: Vec<u8> = Vec::new();
        leb128::write::unsigned(&mut encoded, value as u64).unwrap();
        let expected_len = encoded.len();
        let mut reader = BinaryReader::new(encoded);
        assert_eq!(reader.readU32(), Ok(value));
        assert_eq!(reader.position, expected_len);
    }
}

#[test]
fn agrees_with_reference_decoder_on_redundant_encoding() {
    let bytes: Vec<u8> = vec![0xAC, 0x82, 0x80, 0x00];
    let reference = leb128::read::unsigned(&mut bytes.as_slice()).unwrap();
    assert_eq!(read_u32_from(bytes), Ok(reference as u32));
}

#[test]
fn varint_overflow_inside_section_size() {
    let bytes = vec![
        0x00, 0x61, 0x73, 0x6D, 0x01, 0x00, 0x00, 0x00, 0x01, 0x80, 0x80, 0x80, 0x80, 0x80,
        0x01,
    ];
    let mut reader = BinaryReader::new(bytes);
    assert_eq!(reader.read(), Err(DecodeError::VarintOverflow));
}

#![allow(non_snake_case)]

use wasmdec::utils::getHexStringForBuffer;

#[test]
fn empty_buffer_renders_empty_string() {
    assert_eq!(getHexStringForBuffer(&Vec::new()), "");
}

#[test]
fn preamble_bytes_render_in_order() {
    let buffer = vec![0x00, 0x61, 0x73, 0x6D, 0x01, 0x00, 0x00, 0x00];
    assert_eq!(getHexStringForBuffer(&buffer), "0061736d01000000");
}

#[test]
fn every_nibble_renders_as_a_lowercase_digit() {
    let buffer = vec![0x01, 0x23, 0x45, 0x67, 0x89, 0xAB, 0xCD, 0xEF];
    assert_eq!(getHexStringForBuffer(&buffer), "0123456789abcdef");
}

#[test]
fn single_byte_renders_two_digits() {
    assert_eq!(getHexStringForBuffer(&vec![0x0A]), "0a");
    assert_eq!(getHexStringForBuffer(&vec![0xFF]), "ff");
    assert_eq!(getHexStringForBuffer(&vec![0x00]), "00");
}

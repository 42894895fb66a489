use vstd::prelude::*;

use crate::module::sections::SectionId;

verus! {

/// Every way a decode can fail.  A decode either runs to completion or
/// returns one of these; nothing is retried internally and no partial
/// module is ever produced.
#[derive(Clone, Copy, Debug, PartialEq, Eq, Structural)]
pub enum DecodeError {
    /// Fewer bytes were available than a field or window requires.
    Truncated,
    /// The preamble's first four bytes are not the fixed magic `"\0asm"`.
    BadMagic,
    /// The preamble's version field is not a recognized version.
    UnsupportedVersion(u32),
    /// A section id byte outside the recognized set.
    InvalidSectionId(u8),
    /// Expected the `0x60` function-signature marker, found something else.
    InvalidSignatureMarker(u8),
    /// A value-type byte outside the recognized set.
    InvalidValueType(u8),
    /// An instruction byte outside the recognized opcode set.
    InvalidOpcode(u8),
    /// An expression did not terminate with `End`.
    MalformedFunctionBody,
    /// A decoded LEB128 value exceeds the target integer width.
    VarintOverflow,
    /// A section's or function body's window was not fully consumed.
    TrailingBytes,
    /// A section kind appeared more than once in the module.
    DuplicateSection(SectionId),
}

} // verus!

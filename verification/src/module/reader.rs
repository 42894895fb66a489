use vstd::prelude::*;

use crate::module::errors::DecodeError;
use crate::module::indices::TypeIndex;
use crate::module::{BinaryVersion, Module, ModuleView};
use crate::module::sections::{CodeSection, FunctionSection, SectionId, StartSection, TypeSection};
use crate::module::types::{
    Expression, FunctionBody, FunctionBodyView, FunctionSignature, FunctionSignatureView,
    Instruction, Opcode, ResultType, ValueType,
};

verus! {

// ---------------------------------------------------------------------------
// The wire grammar, stated mathematically.
//
// Every spec function below reads `s` starting at `pos` and, on success,
// yields the decoded value together with the position just past it.  The
// executable decoders are verified to follow these functions exactly.
// ---------------------------------------------------------------------------

/// The unsigned LEB128 integer starting at `pos`: continuation-bit-
/// terminated 7-bit groups in little-endian group order.  `None` means the
/// bytes end before a group with a clear high bit is seen.
pub open spec fn spec_decode_leb128(s: Seq<u8>, pos: int) -> Option<(nat, int)>
    decreases s.len() - pos,
{
    if pos < 0 || pos >= s.len() {
        None
    } else if s[pos] < 0x80 {
        Some((s[pos] as nat, pos + 1))
    } else {
        match spec_decode_leb128(s, pos + 1) {
            None => None,
            Some((value, end)) => Some((((s[pos] - 0x80) + 0x80 * value) as nat, end)),
        }
    }
}

/// Decoding an unsigned LEB128 integer into 32 bits: `Truncated` if no
/// terminating group is seen, `VarintOverflow` if the numeric value does
/// not fit the requested width.  Non-minimal encodings whose value fits
/// are accepted.
pub open spec fn spec_read_u32(s: Seq<u8>, pos: int) -> Result<(u32, int), DecodeError> {
    match spec_decode_leb128(s, pos) {
        None => Err(DecodeError::Truncated),
        Some((value, end)) => if value > u32::MAX {
            Err(DecodeError::VarintOverflow)
        } else {
            Ok((value as u32, end))
        },
    }
}

/// A successfully decoded LEB128 integer consumes at least one byte and
/// stops within the input.
pub proof fn lemma_decode_leb128_bounds(s: Seq<u8>, pos: int)
    ensures
        spec_decode_leb128(s, pos) matches Some((value, end)) ==> pos + 1 <= end <= s.len(),
    decreases s.len() - pos,
{
    if 0 <= pos < s.len() && s[pos] >= 0x80 {
        lemma_decode_leb128_bounds(s, pos + 1);
    }
}

/// The canonical (minimal) unsigned LEB128 encoding of a value: its low
/// seven bits with the continuation bit set while more bits follow.
pub open spec fn spec_encode_leb128(value: nat) -> Seq<u8>
    decreases value,
{
    if value < 0x80 {
        seq![value as u8]
    } else {
        seq![(0x80 + value % 0x80) as u8] + spec_encode_leb128(value / 0x80)
    }
}

/// Decoding one LEB128 integer looks only at bytes from `pos` on, so a
/// prefix in front of the input shifts positions and nothing else.
proof fn lemma_decode_leb128_shift(prefix: Seq<u8>, t: Seq<u8>, pos: int)
    requires
        pos >= 0,
    ensures
        spec_decode_leb128(prefix + t, prefix.len() + pos) == match spec_decode_leb128(t, pos) {
            None => None,
            Some((value, end)) => Some((value, prefix.len() + end)),
        },
    decreases t.len() - pos,
{
    if 0 <= pos < t.len() {
        assert((prefix + t)[prefix.len() + pos] == t[pos]);
        if t[pos] >= 0x80 {
            lemma_decode_leb128_shift(prefix, t, pos + 1);
        }
    }
}

/// Decoding the encoding of `value`, whatever follows it, yields `value`
/// back and consumes exactly the encoding.
proof fn lemma_decode_leb128_encode(value: nat, rest: Seq<u8>)
    ensures
        spec_decode_leb128(spec_encode_leb128(value) + rest, 0) == Some(
            (value, spec_encode_leb128(value).len() as int),
        ),
    decreases value,
{
    let encoding = spec_encode_leb128(value);
    if value < 0x80 {
        assert((encoding + rest)[0] == value as u8);
    } else {
        let first = (0x80 + value % 0x80) as u8;
        let tail = spec_encode_leb128(value / 0x80);
        lemma_decode_leb128_encode(value / 0x80, rest);
        assert(encoding + rest =~= seq![first] + (tail + rest));
        lemma_decode_leb128_shift(seq![first], tail + rest, 0);
        assert((encoding + rest)[0] == first);
        assert((first - 0x80) + 0x80 * (value / 0x80) == value) by {
            assert(value % 0x80 + 0x80 * (value / 0x80) == value);
        }
    }
}

/// Law: unsigned LEB128 decoding round-trips.  For every 32-bit value,
/// decoding its encoding (whatever bytes follow it) succeeds, yields the
/// same numeric value, and consumes exactly the encoding.  Redundant
/// (non-minimal) encodings are accepted consistently: the decoder's
/// result depends only on the numeric value the groups denote, and it
/// overflows exactly when that value exceeds the 32-bit width.
pub proof fn lemma_leb128_round_trip(value: u32, rest: Seq<u8>)
    ensures
        spec_read_u32(spec_encode_leb128(value as nat) + rest, 0) == Ok::<
            (u32, int),
            DecodeError,
        >((value, spec_encode_leb128(value as nat).len() as int)),
{
    lemma_decode_leb128_encode(value as nat, rest);
}

/// One value type: a single byte mapped through the value-type grammar.
pub open spec fn spec_read_value_type(s: Seq<u8>, pos: int) -> Result<(ValueType, int), DecodeError> {
    if pos < 0 || pos >= s.len() {
        Err(DecodeError::Truncated)
    } else {
        match ValueType::spec_from_u8(s[pos]) {
            Ok(value_type) => Ok((value_type, pos + 1)),
            Err(e) => Err(e),
        }
    }
}

/// Exactly `count` value types in order.  The count itself comes from a
/// preceding varint read by the caller; exhausting the input surfaces as
/// `Truncated`.
pub open spec fn spec_read_value_types(s: Seq<u8>, pos: int, count: nat) -> Result<
    (Seq<ValueType>, int),
    DecodeError,
>
    decreases count,
{
    if count == 0 {
        Ok((Seq::empty(), pos))
    } else {
        match spec_read_value_type(s, pos) {
            Err(e) => Err(e),
            Ok((value_type, p)) => match spec_read_value_types(s, p, (count - 1) as nat) {
                Err(e) => Err(e),
                Ok((rest, end)) => Ok((seq![value_type] + rest, end)),
            },
        }
    }
}

/// A successfully decoded value-type vector stays within the input.
pub proof fn lemma_read_value_types_bounds(s: Seq<u8>, pos: int, count: nat)
    requires
        0 <= pos <= s.len(),
    ensures
        spec_read_value_types(s, pos, count) matches Ok((values, end)) ==> pos <= end <= s.len(),
    decreases count,
{
    if count > 0 && 0 <= pos < s.len() {
        lemma_read_value_types_bounds(s, pos + 1, (count - 1) as nat);
    }
}

/// The fields of a function signature after its `0x60` marker: an
/// input-count varint and that many value types, then an output-count
/// varint and that many value types.
pub open spec fn spec_read_signature_fields(s: Seq<u8>, pos: int) -> Result<
    (FunctionSignatureView, int),
    DecodeError,
> {
    match spec_read_u32(s, pos) {
        Err(e) => Err(e),
        Ok((input_count, p1)) => match spec_read_value_types(s, p1, input_count as nat) {
            Err(e) => Err(e),
            Ok((inputs, p2)) => match spec_read_u32(s, p2) {
                Err(e) => Err(e),
                Ok((output_count, p3)) => match spec_read_value_types(
                    s,
                    p3,
                    output_count as nat,
                ) {
                    Err(e) => Err(e),
                    Ok((outputs, p4)) => Ok((FunctionSignatureView { inputs, outputs }, p4)),
                },
            },
        },
    }
}

/// A successfully decoded signature consumes at least one byte and stays
/// within the input.
pub proof fn lemma_read_signature_fields_bounds(s: Seq<u8>, pos: int)
    ensures
        spec_read_signature_fields(s, pos) matches Ok((signature, end)) ==> pos < end <= s.len(),
{
    lemma_decode_leb128_bounds(s, pos);
    if let Ok((input_count, p1)) = spec_read_u32(s, pos) {
        lemma_read_value_types_bounds(s, p1, input_count as nat);
        if let Ok((_inputs, p2)) = spec_read_value_types(s, p1, input_count as nat) {
            lemma_decode_leb128_bounds(s, p2);
            if let Ok((output_count, p3)) = spec_read_u32(s, p2) {
                lemma_read_value_types_bounds(s, p3, output_count as nat);
            }
        }
    }
}

/// The type section's signature vector: `0x60`-marked signatures until a
/// `0x00` terminator byte in place of the next marker, or until the window
/// is exhausted.  A non-zero byte that is not `0x60` is invalid.
pub open spec fn spec_read_signatures(s: Seq<u8>, pos: int) -> Result<
    (Seq<FunctionSignatureView>, int),
    DecodeError,
>
    decreases s.len() - pos,
    via spec_read_signatures_decreases
{
    if pos < 0 || pos >= s.len() {
        Ok((Seq::empty(), pos))
    } else if s[pos] == 0x00 {
        Ok((Seq::empty(), pos + 1))
    } else if s[pos] != 0x60 {
        Err(DecodeError::InvalidSignatureMarker(s[pos]))
    } else {
        match spec_read_signature_fields(s, pos + 1) {
            Err(e) => Err(e),
            Ok((signature, p)) => match spec_read_signatures(s, p) {
                Err(e) => Err(e),
                Ok((rest, end)) => Ok((seq![signature] + rest, end)),
            },
        }
    }
}

#[via_fn]
proof fn spec_read_signatures_decreases(s: Seq<u8>, pos: int) {
    if 0 <= pos < s.len() && s[pos] != 0x00 && s[pos] == 0x60 {
        lemma_read_signature_fields_bounds(s, pos + 1);
    }
}

/// A whole type section window: the declared signature count (used only as
/// a size hint, per the grammar), the signature vector, and nothing left
/// over.
pub open spec fn spec_type_section(s: Seq<u8>, pos: int) -> Result<
    (Seq<FunctionSignatureView>, int),
    DecodeError,
> {
    match spec_read_u32(s, pos) {
        Err(e) => Err(e),
        Ok((_count, p1)) => match spec_read_signatures(s, p1) {
            Err(e) => Err(e),
            Ok((signatures, p2)) => if p2 != s.len() {
                Err(DecodeError::TrailingBytes)
            } else {
                Ok((signatures, p2))
            },
        },
    }
}

/// Exactly `count` type indices, each an unsigned LEB128 integer wrapped
/// as an index into the type index space.
pub open spec fn spec_read_type_indices(s: Seq<u8>, pos: int, count: nat) -> Result<
    (Seq<TypeIndex>, int),
    DecodeError,
>
    decreases count,
{
    if count == 0 {
        Ok((Seq::empty(), pos))
    } else {
        match spec_read_u32(s, pos) {
            Err(e) => Err(e),
            Ok((index, p)) => match spec_read_type_indices(s, p, (count - 1) as nat) {
                Err(e) => Err(e),
                Ok((rest, end)) => Ok((seq![TypeIndex::Function(index)] + rest, end)),
            },
        }
    }
}

/// A whole function section window: the declared function count, then
/// exactly that many type indices, and nothing left over.
pub open spec fn spec_function_section(s: Seq<u8>, pos: int) -> Result<
    (Seq<TypeIndex>, int),
    DecodeError,
> {
    match spec_read_u32(s, pos) {
        Err(e) => Err(e),
        Ok((count, p1)) => match spec_read_type_indices(s, p1, count as nat) {
            Err(e) => Err(e),
            Ok((indices, p2)) => if p2 != s.len() {
                Err(DecodeError::TrailingBytes)
            } else {
                Ok((indices, p2))
            },
        },
    }
}

/// A whole start section window: a single function-index varint, and
/// nothing left over.
pub open spec fn spec_start_section(s: Seq<u8>, pos: int) -> Result<(u32, int), DecodeError> {
    match spec_read_u32(s, pos) {
        Err(e) => Err(e),
        Ok((index, p)) => if p != s.len() {
            Err(DecodeError::TrailingBytes)
        } else {
            Ok((index, p))
        },
    }
}

/// One instruction: an opcode byte, then the immediates that opcode
/// carries.  Only `LocalGet` carries an immediate, a LEB128 local index.
pub open spec fn spec_read_instruction(s: Seq<u8>, pos: int) -> Result<
    (Instruction, int),
    DecodeError,
> {
    if pos < 0 || pos >= s.len() {
        Err(DecodeError::Truncated)
    } else {
        match Opcode::spec_from_u8(s[pos]) {
            None => Err(DecodeError::InvalidOpcode(s[pos])),
            Some(Opcode::LocalGet) => match spec_read_u32(s, pos + 1) {
                Err(e) => Err(e),
                Ok((index, end)) => Ok((Instruction::LocalGet(index), end)),
            },
            Some(Opcode::I32Add) => Ok((Instruction::I32Add, pos + 1)),
            Some(Opcode::End) => Ok((Instruction::End, pos + 1)),
        }
    }
}

/// A successfully decoded instruction consumes at least one byte and
/// stays within the input.
pub proof fn lemma_read_instruction_bounds(s: Seq<u8>, pos: int)
    ensures
        spec_read_instruction(s, pos) matches Ok((instruction, end)) ==> pos < end <= s.len(),
{
    lemma_decode_leb128_bounds(s, pos + 1);
}

/// An expression: instructions appended in order until an `End`
/// instruction is decoded, inclusive.  The stream ends exactly when `End`
/// is decoded, never by exhausting the window; a window that exhausts
/// first is `Truncated`.
pub open spec fn spec_read_instructions(s: Seq<u8>, pos: int) -> Result<
    (Seq<Instruction>, int),
    DecodeError,
>
    decreases s.len() - pos,
    via spec_read_instructions_decreases
{
    match spec_read_instruction(s, pos) {
        Err(e) => Err(e),
        Ok((instruction, p)) => if instruction == Instruction::End {
            Ok((seq![instruction], p))
        } else {
            match spec_read_instructions(s, p) {
                Err(e) => Err(e),
                Ok((rest, end)) => Ok((seq![instruction] + rest, end)),
            }
        },
    }
}

#[via_fn]
proof fn spec_read_instructions_decreases(s: Seq<u8>, pos: int) {
    lemma_read_instruction_bounds(s, pos);
}

/// A successfully decoded expression is non-empty and ends with the `End`
/// instruction.
pub proof fn lemma_read_instructions_end(s: Seq<u8>, pos: int)
    ensures
        spec_read_instructions(s, pos) matches Ok((instructions, end)) ==> instructions.len() > 0
            && instructions.last() == Instruction::End,
    decreases s.len() - pos,
{
    if let Ok((instruction, p)) = spec_read_instruction(s, pos) {
        if instruction != Instruction::End {
            lemma_read_instruction_bounds(s, pos);
            lemma_read_instructions_end(s, p);
            if let Ok((rest, _end)) = spec_read_instructions(s, p) {
                assert((seq![instruction] + rest).last() == rest.last());
            }
        }
    }
}

/// Law: an expression never ends silently.  A byte window that nowhere
/// contains the `End` opcode byte `0x0B` cannot decode as an expression:
/// the decoder reports a failure (it runs out of bytes or meets an
/// invalid opcode), never an empty or partial instruction sequence.
pub proof fn lemma_expression_needs_end(s: Seq<u8>, pos: int)
    requires
        forall|i: int| 0 <= i < s.len() ==> s[i] != 0x0B,
    ensures
        spec_read_instructions(s, pos) is Err,
    decreases s.len() - pos,
{
    if let Ok((_instruction, p)) = spec_read_instruction(s, pos) {
        lemma_read_instruction_bounds(s, pos);
        lemma_expression_needs_end(s, p);
    }
}

/// A whole function-body window: a local-count varint, that many value
/// types declaring the locals, then the body expression, which must end
/// with `End` and leave nothing in the window.
pub open spec fn spec_function_body(w: Seq<u8>) -> Result<FunctionBodyView, DecodeError> {
    match spec_read_u32(w, 0) {
        Err(e) => Err(e),
        Ok((locals_count, p1)) => match spec_read_value_types(w, p1, locals_count as nat) {
            Err(e) => Err(e),
            Ok((locals, p2)) => match spec_read_instructions(w, p2) {
                Err(e) => Err(e),
                Ok((instructions, p3)) => if p3 != w.len() {
                    Err(DecodeError::TrailingBytes)
                } else {
                    Ok(FunctionBodyView { locals, body: instructions })
                },
            },
        },
    }
}

/// Exactly `count` code entries: each a body byte-length varint followed
/// by that many bytes forming the body's own window.
pub open spec fn spec_read_code_entries(s: Seq<u8>, pos: int, count: nat) -> Result<
    (Seq<FunctionBodyView>, int),
    DecodeError,
>
    decreases count,
{
    if count == 0 {
        Ok((Seq::empty(), pos))
    } else {
        match spec_read_u32(s, pos) {
            Err(e) => Err(e),
            Ok((size, p1)) => if p1 + size > s.len() {
                Err(DecodeError::Truncated)
            } else {
                match spec_function_body(s.subrange(p1, p1 + size)) {
                    Err(e) => Err(e),
                    Ok(body) => match spec_read_code_entries(s, p1 + size, (count - 1) as nat) {
                        Err(e) => Err(e),
                        Ok((rest, end)) => Ok((seq![body] + rest, end)),
                    },
                }
            },
        }
    }
}

/// A whole code section window: the declared body count, then exactly
/// that many code entries, and nothing left over.
pub open spec fn spec_code_section(s: Seq<u8>, pos: int) -> Result<
    (Seq<FunctionBodyView>, int),
    DecodeError,
> {
    match spec_read_u32(s, pos) {
        Err(e) => Err(e),
        Ok((count, p1)) => match spec_read_code_entries(s, p1, count as nat) {
            Err(e) => Err(e),
            Ok((bodies, p2)) => if p2 != s.len() {
                Err(DecodeError::TrailingBytes)
            } else {
                Ok((bodies, p2))
            },
        },
    }
}

/// The preamble: the 4-byte magic `"\0asm"`, then a 4-byte little-endian
/// version field that must name a recognized version.
pub open spec fn spec_read_preamble(s: Seq<u8>, pos: int) -> Result<(BinaryVersion, int), DecodeError> {
    if pos < 0 || pos + 4 > s.len() {
        Err(DecodeError::Truncated)
    } else if !(s[pos] == 0x00 && s[pos + 1] == 0x61 && s[pos + 2] == 0x73 && s[pos + 3]
        == 0x6D) {
        Err(DecodeError::BadMagic)
    } else if pos + 8 > s.len() {
        Err(DecodeError::Truncated)
    } else {
        let version = (s[pos + 4] + 0x100 * s[pos + 5] + 0x10000 * s[pos + 6] + 0x1000000 * s[pos
            + 7]) as u32;
        match BinaryVersion::spec_from_u32(version) {
            None => Err(DecodeError::UnsupportedVersion(version)),
            Some(binary_version) => Ok((binary_version, pos + 8)),
        }
    }
}

/// One section, with `pos` just past its id byte: the byte-length varint,
/// a window of exactly that many content bytes, and the content decoded by
/// the grammar the id selects.  A section kind may appear at most once.
pub open spec fn spec_section_step(s: Seq<u8>, pos: int, id: SectionId, m: ModuleView) -> Result<
    (ModuleView, int),
    DecodeError,
> {
    match spec_read_u32(s, pos) {
        Err(e) => Err(e),
        Ok((size, p1)) => if p1 + size > s.len() {
            Err(DecodeError::Truncated)
        } else {
            match id {
                SectionId::Type => if m.typeSection is Some {
                    Err(DecodeError::DuplicateSection(id))
                } else {
                    match spec_type_section(s.subrange(p1, p1 + size), 0) {
                        Err(e) => Err(e),
                        Ok((signatures, _end)) => Ok(
                            (ModuleView { typeSection: Some(signatures), ..m }, p1 + size),
                        ),
                    }
                },
                SectionId::Function => if m.functionSection is Some {
                    Err(DecodeError::DuplicateSection(id))
                } else {
                    match spec_function_section(s.subrange(p1, p1 + size), 0) {
                        Err(e) => Err(e),
                        Ok((indices, _end)) => Ok(
                            (ModuleView { functionSection: Some(indices), ..m }, p1 + size),
                        ),
                    }
                },
                SectionId::Start => if m.startSection is Some {
                    Err(DecodeError::DuplicateSection(id))
                } else {
                    match spec_start_section(s.subrange(p1, p1 + size), 0) {
                        Err(e) => Err(e),
                        Ok((index, _end)) => Ok(
                            (ModuleView { startSection: Some(index), ..m }, p1 + size),
                        ),
                    }
                },
                SectionId::Code => if m.codeSection is Some {
                    Err(DecodeError::DuplicateSection(id))
                } else {
                    match spec_code_section(s.subrange(p1, p1 + size), 0) {
                        Err(e) => Err(e),
                        Ok((bodies, _end)) => Ok(
                            (ModuleView { codeSection: Some(bodies), ..m }, p1 + size),
                        ),
                    }
                },
            }
        },
    }
}

/// A successfully decoded section consumes at least one byte and stays
/// within the input.
pub proof fn lemma_section_step_bounds(s: Seq<u8>, pos: int, id: SectionId, m: ModuleView)
    ensures
        spec_section_step(s, pos, id, m) matches Ok((m2, end)) ==> pos < end <= s.len(),
{
    lemma_decode_leb128_bounds(s, pos);
}

/// The sequence of sections after the preamble: one section per id byte,
/// in any order they appear on the wire, until a `0x00` id byte or the end
/// of the input ends the module.
pub open spec fn spec_read_sections(s: Seq<u8>, pos: int, m: ModuleView) -> Result<
    ModuleView,
    DecodeError,
>
    decreases s.len() - pos,
    via spec_read_sections_decreases
{
    if pos < 0 || pos >= s.len() {
        Ok(m)
    } else if s[pos] == 0x00 {
        Ok(m)
    } else {
        match SectionId::spec_from_u8(s[pos]) {
            None => Err(DecodeError::InvalidSectionId(s[pos])),
            Some(id) => match spec_section_step(s, pos + 1, id, m) {
                Err(e) => Err(e),
                Ok((m2, end)) => spec_read_sections(s, end, m2),
            },
        }
    }
}

#[via_fn]
proof fn spec_read_sections_decreases(s: Seq<u8>, pos: int, m: ModuleView) {
    if 0 <= pos < s.len() && s[pos] != 0x00 {
        if let Some(id) = SectionId::spec_from_u8(s[pos]) {
            lemma_section_step_bounds(s, pos + 1, id, m);
        }
    }
}

/// A whole module: the preamble, then the sections, accumulated into a
/// module model that starts with every section absent.
pub open spec fn spec_decode_module(s: Seq<u8>, pos: int) -> Result<ModuleView, DecodeError> {
    match spec_read_preamble(s, pos) {
        Err(e) => Err(e),
        Ok((version, p)) => spec_read_sections(s, p, ModuleView::empty(version)),
    }
}

// ---------------------------------------------------------------------------
// The byte cursor.
// ---------------------------------------------------------------------------

/// A read-only, position-tracking view over an in-memory byte source.
///
/// Nested structures declare their own byte length on the wire; carving
/// those bytes out into a fresh reader (a window) keeps a nested decoder
/// from running past its boundary into the surrounding stream.
pub struct BinaryReader {
    pub bytes: Vec<u8>,
    pub position: usize,
}

impl BinaryReader {
    /// The reader's position never runs past its bytes.
    pub open spec fn wf(&self) -> bool {
        self.position <= self.bytes@.len()
    }

    /// A reader positioned at the start of the given bytes.
    pub fn new(bytes: Vec<u8>) -> (r: BinaryReader)
        ensures
            r.bytes@ == bytes@,
            r.position == 0,
            r.wf(),
    {
        BinaryReader { bytes, position: 0 }
    }

    /// Reads a single byte, or `Truncated` at the end of the source.
    pub fn readByte(&mut self) -> (r: Result<u8, DecodeError>)
        requires
            old(self).wf(),
        ensures
            final(self).wf(),
            final(self).bytes@ == old(self).bytes@,
            old(self).position < old(self).bytes@.len() ==> r == Ok::<u8, DecodeError>(
                old(self).bytes@[old(self).position as int],
            ) && final(self).position == old(self).position + 1,
            old(self).position >= old(self).bytes@.len() ==> r == Err::<u8, DecodeError>(
                DecodeError::Truncated,
            ) && final(self).position == old(self).position,
    {
        if self.position < self.bytes.len() {
            let byte = self.bytes[self.position];
            self.position = self.position + 1;
            Ok(byte)
        } else {
            Err(DecodeError::Truncated)
        }
    }

    /// Reads exactly `byteCount` bytes into a fresh buffer, or `Truncated`
    /// if fewer remain.
    pub fn readBytes(&mut self, byteCount: usize) -> (r: Result<Vec<u8>, DecodeError>)
        requires
            old(self).wf(),
        ensures
            final(self).wf(),
            final(self).bytes@ == old(self).bytes@,
            old(self).position + byteCount <= old(self).bytes@.len() ==> (r matches Ok(buffer)
                && buffer@ == old(self).bytes@.subrange(
                    old(self).position as int,
                    old(self).position + byteCount,
                ) && final(self).position == old(self).position + byteCount),
            old(self).position + byteCount > old(self).bytes@.len() ==> (r matches Err(e)
                && e == DecodeError::Truncated && final(self).position == old(self).position),
    {
        if self.bytes.len() - self.position < byteCount {
            return Err(DecodeError::Truncated);
        }
        let ghost start = self.position as int;
        let total = self.bytes.len();
        let mut buffer: Vec<u8> = Vec::new();
        let mut i: usize = 0;
        while i < byteCount
            invariant
                i <= byteCount,
                self.wf(),
                self.bytes@ == old(self).bytes@,
                self.position == old(self).position,
                start == self.position as int,
                start + byteCount <= self.bytes@.len(),
                total == self.bytes@.len(),
                buffer@ == self.bytes@.subrange(start, start + i),
            decreases byteCount - i,
        {
            buffer.push(self.bytes[self.position + i]);
            proof {
                assert(buffer@ =~= self.bytes@.subrange(start, start + i + 1));
            }
            i = i + 1;
        }
        self.position = self.position + byteCount;
        Ok(buffer)
    }

    /// Reads one unsigned LEB128 integer into 32 bits.  This is the
    /// encoding of every count, length, and index field in the format.
    pub fn readU32(&mut self) -> (r: Result<u32, DecodeError>)
        requires
            old(self).wf(),
        ensures
            final(self).wf(),
            final(self).bytes@ == old(self).bytes@,
            match spec_read_u32(old(self).bytes@, old(self).position as int) {
                Ok((value, end)) => r == Ok::<u32, DecodeError>(value) && final(self).position
                    == end,
                Err(e) => r == Err::<u32, DecodeError>(e),
            },
    {
        match decode_u32_at(&self.bytes, self.position) {
            Ok((value, end)) => {
                self.position = end;
                Ok(value)
            },
            Err(e) => Err(e),
        }
    }

    /// Reads one byte and maps it through the value-type grammar.
    pub fn readValueType(&mut self) -> (r: Result<ValueType, DecodeError>)
        requires
            old(self).wf(),
        ensures
            final(self).wf(),
            final(self).bytes@ == old(self).bytes@,
            match spec_read_value_type(old(self).bytes@, old(self).position as int) {
                Ok((value_type, end)) => r == Ok::<ValueType, DecodeError>(value_type)
                    && final(self).position == end,
                Err(e) => r == Err::<ValueType, DecodeError>(e),
            },
    {
        let byte = match self.readByte() {
            Ok(byte) => byte,
            Err(e) => {
                return Err(e);
            },
        };
        ValueType::from_u8(byte)
    }

    /// Reads `elementCount` value types in order.
    pub fn readResultType(&mut self, elementCount: u32) -> (r: Result<ResultType, DecodeError>)
        requires
            old(self).wf(),
        ensures
            final(self).wf(),
            final(self).bytes@ == old(self).bytes@,
            match spec_read_value_types(
                old(self).bytes@,
                old(self).position as int,
                elementCount as nat,
            ) {
                Ok((values, end)) => (r matches Ok(result_type) && result_type@ == values
                    && final(self).position == end),
                Err(e) => r matches Err(e2) && e2 == e,
            },
    {
        match decode_value_types_at(&self.bytes, self.position, elementCount) {
            Ok((values, end)) => {
                self.position = end;
                Ok(ResultType { valueTypes: values })
            },
            Err(e) => Err(e),
        }
    }

    /// Decodes a whole type section from this reader's remaining bytes:
    /// the declared signature count, then `0x60`-marked signatures until
    /// the `0x00` terminator or the end of the window, which must then be
    /// fully consumed.
    pub fn readTypeSectionContent(&mut self) -> (r: Result<TypeSection, DecodeError>)
        requires
            old(self).wf(),
        ensures
            final(self).wf(),
            final(self).bytes@ == old(self).bytes@,
            match spec_type_section(old(self).bytes@, old(self).position as int) {
                Ok((signatures, end)) => (r matches Ok(section) && section@ == signatures
                    && final(self).position == end),
                Err(e) => r matches Err(e2) && e2 == e,
            },
    {
        let _functionSignatureCount = match self.readU32() {
            Ok(count) => count,
            Err(e) => {
                return Err(e);
            },
        };
        match decode_signatures_at(&self.bytes, self.position) {
            Ok((signatures, end)) => {
                self.position = end;
                if end != self.bytes.len() {
                    return Err(DecodeError::TrailingBytes);
                }
                Ok(TypeSection { functionSignatures: signatures })
            },
            Err(e) => Err(e),
        }
    }

    /// Decodes a whole function section from this reader's remaining
    /// bytes: the declared function count, then exactly that many type
    /// indices; the window must then be fully consumed.
    pub fn readFunctionSectionContent(&mut self) -> (r: Result<FunctionSection, DecodeError>)
        requires
            old(self).wf(),
        ensures
            final(self).wf(),
            final(self).bytes@ == old(self).bytes@,
            match spec_function_section(old(self).bytes@, old(self).position as int) {
                Ok((indices, end)) => (r matches Ok(section) && section@ == indices
                    && final(self).position == end),
                Err(e) => r matches Err(e2) && e2 == e,
            },
    {
        let functionCount = match self.readU32() {
            Ok(count) => count,
            Err(e) => {
                return Err(e);
            },
        };
        match decode_type_indices_at(&self.bytes, self.position, functionCount) {
            Ok((indices, end)) => {
                self.position = end;
                if end != self.bytes.len() {
                    return Err(DecodeError::TrailingBytes);
                }
                Ok(FunctionSection { functions: indices })
            },
            Err(e) => Err(e),
        }
    }

    /// Decodes a whole start section from this reader's remaining bytes:
    /// a single function-index varint with no further content expected.
    pub fn readStartSectionContext(&mut self) -> (r: Result<StartSection, DecodeError>)
        requires
            old(self).wf(),
        ensures
            final(self).wf(),
            final(self).bytes@ == old(self).bytes@,
            match spec_start_section(old(self).bytes@, old(self).position as int) {
                Ok((index, end)) => (r matches Ok(section) && section@ == index
                    && final(self).position == end),
                Err(e) => r matches Err(e2) && e2 == e,
            },
    {
        match decode_u32_at(&self.bytes, self.position) {
            Ok((index, end)) => {
                self.position = end;
                if end != self.bytes.len() {
                    return Err(DecodeError::TrailingBytes);
                }
                Ok(StartSection { functionIndex: index })
            },
            Err(e) => Err(e),
        }
    }

    /// Decodes a whole code section from this reader's remaining bytes:
    /// the declared body count, then exactly that many code entries, each
    /// decoded inside a window of its declared byte length; the section
    /// window must then be fully consumed.
    pub fn readCodeSectionContent(&mut self) -> (r: Result<CodeSection, DecodeError>)
        requires
            old(self).wf(),
        ensures
            final(self).wf(),
            final(self).bytes@ == old(self).bytes@,
            match spec_code_section(old(self).bytes@, old(self).position as int) {
                Ok((bodies, end)) => (r matches Ok(section) && section@ == bodies
                    && final(self).position == end),
                Err(e) => r matches Err(e2) && e2 == e,
            },
    {
        let functionBodyCount = match self.readU32() {
            Ok(count) => count,
            Err(e) => {
                return Err(e);
            },
        };
        match decode_code_entries_at(&self.bytes, self.position, functionBodyCount) {
            Ok((bodies, end)) => {
                self.position = end;
                if end != self.bytes.len() {
                    return Err(DecodeError::TrailingBytes);
                }
                Ok(CodeSection { functionBodies: bodies })
            },
            Err(e) => Err(e),
        }
    }

    /// Reads the preamble and validates the binary version.  Returns the
    /// binary version.
    pub fn readPreamble(&mut self) -> (r: Result<BinaryVersion, DecodeError>)
        requires
            old(self).wf(),
        ensures
            final(self).wf(),
            final(self).bytes@ == old(self).bytes@,
            match spec_read_preamble(old(self).bytes@, old(self).position as int) {
                Ok((version, end)) => r == Ok::<BinaryVersion, DecodeError>(version)
                    && final(self).position == end,
                Err(e) => r == Err::<BinaryVersion, DecodeError>(e),
            },
    {
        let magicString = match self.readBytes(4) {
            Ok(buffer) => buffer,
            Err(e) => {
                return Err(e);
            },
        };
        if !(magicString[0] == 0x00 && magicString[1] == 0x61 && magicString[2] == 0x73
            && magicString[3] == 0x6D) {
            return Err(DecodeError::BadMagic);
        }
        let versionBytes = match self.readBytes(4) {
            Ok(buffer) => buffer,
            Err(e) => {
                return Err(e);
            },
        };
        let binaryVersionAsU32: u32 = versionBytes[0] as u32 + 0x100u32 * (versionBytes[1] as u32)
            + 0x10000u32 * (versionBytes[2] as u32) + 0x1000000u32 * (versionBytes[3] as u32);
        match BinaryVersion::from_u32(binaryVersionAsU32) {
            Some(binaryVersion) => Ok(binaryVersion),
            None => Err(DecodeError::UnsupportedVersion(binaryVersionAsU32)),
        }
    }

    /// Reads one section, whose id byte the caller has already consumed:
    /// its declared byte length, then its content decoded inside a window
    /// of exactly that length, merged into the accumulating module.
    pub fn readSection(&mut self, module: &mut Module, sectionId: SectionId) -> (r: Result<
        (),
        DecodeError,
    >)
        requires
            old(self).wf(),
        ensures
            final(self).wf(),
            final(self).bytes@ == old(self).bytes@,
            match spec_section_step(
                old(self).bytes@,
                old(self).position as int,
                sectionId,
                old(module)@,
            ) {
                Ok((m2, end)) => (r is Ok && final(module)@ == m2 && final(self).position == end
                    && old(self).position < end),
                Err(e) => r matches Err(e2) && e2 == e,
            },
    {
        proof {
            lemma_decode_leb128_bounds(old(self).bytes@, old(self).position as int);
        }
        let sectionContentSize = match self.readU32() {
            Ok(size) => size,
            Err(e) => {
                return Err(e);
            },
        };
        let sectionContent = match self.readBytes(sectionContentSize as usize) {
            Ok(buffer) => buffer,
            Err(e) => {
                return Err(e);
            },
        };
        let mut sectionContentReader = BinaryReader::new(sectionContent);
        match sectionId {
            SectionId::Type => {
                if module.typeSection.is_some() {
                    return Err(DecodeError::DuplicateSection(sectionId));
                }
                match sectionContentReader.readTypeSectionContent() {
                    Ok(section) => {
                        module.typeSection = Some(section);
                    },
                    Err(e) => {
                        return Err(e);
                    },
                }
            },
            SectionId::Function => {
                if module.functionSection.is_some() {
                    return Err(DecodeError::DuplicateSection(sectionId));
                }
                match sectionContentReader.readFunctionSectionContent() {
                    Ok(section) => {
                        module.functionSection = Some(section);
                    },
                    Err(e) => {
                        return Err(e);
                    },
                }
            },
            SectionId::Start => {
                if module.startSection.is_some() {
                    return Err(DecodeError::DuplicateSection(sectionId));
                }
                match sectionContentReader.readStartSectionContext() {
                    Ok(section) => {
                        module.startSection = Some(section);
                    },
                    Err(e) => {
                        return Err(e);
                    },
                }
            },
            SectionId::Code => {
                if module.codeSection.is_some() {
                    return Err(DecodeError::DuplicateSection(sectionId));
                }
                match sectionContentReader.readCodeSectionContent() {
                    Ok(section) => {
                        module.codeSection = Some(section);
                    },
                    Err(e) => {
                        return Err(e);
                    },
                }
            },
        }
        Ok(())
    }

    /// Decodes a whole module from this reader: the preamble, then a
    /// sequence of self-delimiting sections in any order they appear on
    /// the wire, until a `0x00` id byte or the end of the input.  Either
    /// the fully assembled module is returned or the first structural
    /// violation is reported; there is no partial result.
    pub fn read(&mut self) -> (r: Result<Module, DecodeError>)
        requires
            old(self).wf(),
        ensures
            final(self).wf(),
            final(self).bytes@ == old(self).bytes@,
            match spec_decode_module(old(self).bytes@, old(self).position as int) {
                Ok(m) => r matches Ok(module) && module@ == m,
                Err(e) => r matches Err(e2) && e2 == e,
            },
    {
        let binaryVersion = match self.readPreamble() {
            Ok(version) => version,
            Err(e) => {
                return Err(e);
            },
        };
        let mut module = Module {
            binaryVersion,
            typeSection: None,
            functionSection: None,
            startSection: None,
            codeSection: None,
        };
        proof {
            assert(module@ == ModuleView::empty(binaryVersion));
        }
        let ghost target = spec_read_sections(self.bytes@, self.position as int, module@);
        let mut done = false;
        while !done
            invariant
                self.wf(),
                self.bytes@ == old(self).bytes@,
                !done ==> spec_read_sections(self.bytes@, self.position as int, module@)
                    == target,
                done ==> target == Ok::<ModuleView, DecodeError>(module@),
                spec_decode_module(old(self).bytes@, old(self).position as int) == target,
            decreases self.bytes@.len() - self.position, (if done { 0int } else { 1int }),
        {
            if self.position == self.bytes.len() {
                done = true;
            } else {
                let byte = match self.readByte() {
                    Ok(byte) => byte,
                    Err(e) => {
                        return Err(e);
                    },
                };
                if byte == 0x00 {
                    done = true;
                } else {
                    match SectionId::from_u8(byte) {
                        None => {
                            return Err(DecodeError::InvalidSectionId(byte));
                        },
                        Some(sectionId) => {
                            match self.readSection(&mut module, sectionId) {
                                Ok(_) => {},
                                Err(e) => {
                                    return Err(e);
                                },
                            }
                        },
                    }
                }
            }
        }
        Ok(module)
    }
}

/// Decodes the unsigned LEB128 integer at `pos`, returning its value and
/// the position just past it.
fn decode_u32_at(bytes: &Vec<u8>, pos: usize) -> (r: Result<(u32, usize), DecodeError>)
    requires
        pos <= bytes@.len(),
    ensures
        match spec_read_u32(bytes@, pos as int) {
            Ok((value, end)) => r matches Ok(p) && p.0 == value && p.1 == end,
            Err(e) => r matches Err(e2) && e2 == e,
        },
        r matches Ok(p) ==> pos < p.1 <= bytes@.len(),
    decreases bytes@.len() - pos,
{
    if pos >= bytes.len() {
        return Err(DecodeError::Truncated);
    }
    let byte = bytes[pos];
    if byte < 0x80 {
        return Ok((byte as u32, pos + 1));
    }
    match decode_u32_at(bytes, pos + 1) {
        Err(e) => Err(e),
        Ok((rest, end)) => {
            let value: u64 = (byte - 0x80) as u64 + 0x80u64 * (rest as u64);
            proof {
                lemma_decode_leb128_bounds(bytes@, pos + 1);
            }
            if value > u32::MAX as u64 {
                Err(DecodeError::VarintOverflow)
            } else {
                Ok((value as u32, end))
            }
        },
    }
}

/// Decodes exactly `count` value types starting at `pos`.
fn decode_value_types_at(bytes: &Vec<u8>, pos: usize, count: u32) -> (r: Result<
    (Vec<ValueType>, usize),
    DecodeError,
>)
    requires
        pos <= bytes@.len(),
    ensures
        match spec_read_value_types(bytes@, pos as int, count as nat) {
            Ok((values, end)) => r matches Ok(p) && p.0@ == values && p.1 == end,
            Err(e) => r matches Err(e2) && e2 == e,
        },
        r matches Ok(p) ==> pos <= p.1 <= bytes@.len(),
    decreases count,
{
    if count == 0 {
        let values: Vec<ValueType> = Vec::new();
        proof {
            assert(values@ =~= Seq::<ValueType>::empty());
        }
        return Ok((values, pos));
    }
    if pos >= bytes.len() {
        return Err(DecodeError::Truncated);
    }
    let value_type = match ValueType::from_u8(bytes[pos]) {
        Ok(value_type) => value_type,
        Err(e) => {
            return Err(e);
        },
    };
    match decode_value_types_at(bytes, pos + 1, count - 1) {
        Err(e) => Err(e),
        Ok((mut rest, end)) => {
            let ghost rest0 = rest@;
            rest.insert(0, value_type);
            proof {
                assert(rest@ =~= seq![value_type] + rest0);
            }
            Ok((rest, end))
        },
    }
}

/// Decodes the fields of one function signature, whose `0x60` marker the
/// caller has already consumed.
fn decode_signature_fields_at(bytes: &Vec<u8>, pos: usize) -> (r: Result<
    (FunctionSignature, usize),
    DecodeError,
>)
    requires
        pos <= bytes@.len(),
    ensures
        match spec_read_signature_fields(bytes@, pos as int) {
            Ok((signature, end)) => r matches Ok(p) && p.0@ == signature && p.1 == end,
            Err(e) => r matches Err(e2) && e2 == e,
        },
        r matches Ok(p) ==> pos <= p.1 <= bytes@.len(),
{
    let (input_count, p1) = match decode_u32_at(bytes, pos) {
        Ok(p) => p,
        Err(e) => {
            return Err(e);
        },
    };
    let (inputs, p2) = match decode_value_types_at(bytes, p1, input_count) {
        Ok(p) => p,
        Err(e) => {
            return Err(e);
        },
    };
    let (output_count, p3) = match decode_u32_at(bytes, p2) {
        Ok(p) => p,
        Err(e) => {
            return Err(e);
        },
    };
    let (outputs, p4) = match decode_value_types_at(bytes, p3, output_count) {
        Ok(p) => p,
        Err(e) => {
            return Err(e);
        },
    };
    let signature = FunctionSignature {
        inputs: ResultType { valueTypes: inputs },
        outputs: ResultType { valueTypes: outputs },
    };
    Ok((signature, p4))
}

/// Decodes the type section's signature vector starting at `pos`.
fn decode_signatures_at(bytes: &Vec<u8>, pos: usize) -> (r: Result<
    (Vec<FunctionSignature>, usize),
    DecodeError,
>)
    requires
        pos <= bytes@.len(),
    ensures
        match spec_read_signatures(bytes@, pos as int) {
            Ok((signatures, end)) => r matches Ok(p) && p.0@.map_values(
                |signature: FunctionSignature| signature@,
            ) == signatures && p.1 == end,
            Err(e) => r matches Err(e2) && e2 == e,
        },
        r matches Ok(p) ==> pos <= p.1 <= bytes@.len(),
    decreases bytes@.len() - pos,
{
    if pos >= bytes.len() {
        let signatures: Vec<FunctionSignature> = Vec::new();
        proof {
            assert(signatures@.map_values(|signature: FunctionSignature| signature@)
                =~= Seq::<FunctionSignatureView>::empty());
        }
        return Ok((signatures, pos));
    }
    let byte = bytes[pos];
    if byte == 0x00 {
        let signatures: Vec<FunctionSignature> = Vec::new();
        proof {
            assert(signatures@.map_values(|signature: FunctionSignature| signature@)
                =~= Seq::<FunctionSignatureView>::empty());
        }
        return Ok((signatures, pos + 1));
    }
    if byte != 0x60 {
        return Err(DecodeError::InvalidSignatureMarker(byte));
    }
    let (signature, p) = match decode_signature_fields_at(bytes, pos + 1) {
        Ok(p) => p,
        Err(e) => {
            return Err(e);
        },
    };
    match decode_signatures_at(bytes, p) {
        Err(e) => Err(e),
        Ok((mut rest, end)) => {
            let ghost rest0 = rest@;
            rest.insert(0, signature);
            proof {
                assert(rest@.map_values(|signature: FunctionSignature| signature@) =~= seq![
                    signature@,
                ] + rest0.map_values(|signature: FunctionSignature| signature@));
            }
            Ok((rest, end))
        },
    }
}

/// Decodes exactly `count` type indices starting at `pos`.
fn decode_type_indices_at(bytes: &Vec<u8>, pos: usize, count: u32) -> (r: Result<
    (Vec<TypeIndex>, usize),
    DecodeError,
>)
    requires
        pos <= bytes@.len(),
    ensures
        match spec_read_type_indices(bytes@, pos as int, count as nat) {
            Ok((indices, end)) => r matches Ok(p) && p.0@ == indices && p.1 == end,
            Err(e) => r matches Err(e2) && e2 == e,
        },
        r matches Ok(p) ==> pos <= p.1 <= bytes@.len(),
    decreases count,
{
    if count == 0 {
        let indices: Vec<TypeIndex> = Vec::new();
        proof {
            assert(indices@ =~= Seq::<TypeIndex>::empty());
        }
        return Ok((indices, pos));
    }
    let (index, p) = match decode_u32_at(bytes, pos) {
        Ok(p) => p,
        Err(e) => {
            return Err(e);
        },
    };
    match decode_type_indices_at(bytes, p, count - 1) {
        Err(e) => Err(e),
        Ok((mut rest, end)) => {
            let ghost rest0 = rest@;
            rest.insert(0, TypeIndex::Function(index));
            proof {
                assert(rest@ =~= seq![TypeIndex::Function(index)] + rest0);
            }
            Ok((rest, end))
        },
    }
}

/// Decodes one instruction starting at `pos`.
fn decode_instruction_at(bytes: &Vec<u8>, pos: usize) -> (r: Result<
    (Instruction, usize),
    DecodeError,
>)
    requires
        pos <= bytes@.len(),
    ensures
        match spec_read_instruction(bytes@, pos as int) {
            Ok((instruction, end)) => r matches Ok(p) && p.0 == instruction && p.1 == end,
            Err(e) => r matches Err(e2) && e2 == e,
        },
        r matches Ok(p) ==> pos < p.1 <= bytes@.len(),
{
    if pos >= bytes.len() {
        return Err(DecodeError::Truncated);
    }
    let byte = bytes[pos];
    match Opcode::from_u8(byte) {
        None => Err(DecodeError::InvalidOpcode(byte)),
        Some(Opcode::LocalGet) => match decode_u32_at(bytes, pos + 1) {
            Err(e) => Err(e),
            Ok((index, end)) => Ok((Instruction::LocalGet(index), end)),
        },
        Some(Opcode::I32Add) => Ok((Instruction::I32Add, pos + 1)),
        Some(Opcode::End) => Ok((Instruction::End, pos + 1)),
    }
}

/// Decodes instructions starting at `pos` until an `End` instruction is
/// decoded, inclusive.
fn decode_instructions_at(bytes: &Vec<u8>, pos: usize) -> (r: Result<
    (Vec<Instruction>, usize),
    DecodeError,
>)
    requires
        pos <= bytes@.len(),
    ensures
        match spec_read_instructions(bytes@, pos as int) {
            Ok((instructions, end)) => r matches Ok(p) && p.0@ == instructions && p.1 == end,
            Err(e) => r matches Err(e2) && e2 == e,
        },
        r matches Ok(p) ==> pos < p.1 <= bytes@.len(),
    decreases bytes@.len() - pos,
{
    let (instruction, p) = match decode_instruction_at(bytes, pos) {
        Ok(p) => p,
        Err(e) => {
            return Err(e);
        },
    };
    match instruction {
        Instruction::End => {
            let mut instructions: Vec<Instruction> = Vec::new();
            instructions.push(instruction);
            proof {
                assert(instructions@ =~= seq![Instruction::End]);
            }
            Ok((instructions, p))
        },
        _ => {
            match decode_instructions_at(bytes, p) {
                Err(e) => Err(e),
                Ok((mut rest, end)) => {
                    let ghost rest0 = rest@;
                    rest.insert(0, instruction);
                    proof {
                        assert(rest@ =~= seq![instruction] + rest0);
                    }
                    Ok((rest, end))
                },
            }
        },
    }
}

/// Copies `count` bytes starting at `start` into a fresh buffer: the
/// eager carve behind every window.
fn copy_range(bytes: &Vec<u8>, start: usize, count: usize) -> (r: Vec<u8>)
    requires
        start + count <= bytes@.len(),
    ensures
        r@ == bytes@.subrange(start as int, start + count),
{
    let total = bytes.len();
    let mut buffer: Vec<u8> = Vec::new();
    let mut i: usize = 0;
    while i < count
        invariant
            i <= count,
            start + count <= bytes@.len(),
            total == bytes@.len(),
            buffer@ == bytes@.subrange(start as int, start + i),
        decreases count - i,
    {
        buffer.push(bytes[start + i]);
        proof {
            assert(buffer@ =~= bytes@.subrange(start as int, start + i + 1));
        }
        i = i + 1;
    }
    buffer
}

/// Decodes one function body from its own window, carved to exactly the
/// body's declared byte length.
fn decode_function_body(window: &Vec<u8>) -> (r: Result<FunctionBody, DecodeError>)
    ensures
        match spec_function_body(window@) {
            Ok(body) => r matches Ok(b) && b@ == body,
            Err(e) => r matches Err(e2) && e2 == e,
        },
{
    let (locals_count, p1) = match decode_u32_at(window, 0) {
        Ok(p) => p,
        Err(e) => {
            return Err(e);
        },
    };
    let (locals, p2) = match decode_value_types_at(window, p1, locals_count) {
        Ok(p) => p,
        Err(e) => {
            return Err(e);
        },
    };
    let (instructions, p3) = match decode_instructions_at(window, p2) {
        Ok(p) => p,
        Err(e) => {
            return Err(e);
        },
    };
    // The expression decoder only returns `End`-terminated sequences, so
    // this check can never fire; it stays as a defense against future
    // instruction-decoder changes.
    proof {
        lemma_read_instructions_end(window@, p2 as int);
    }
    if instructions.len() == 0 {
        return Err(DecodeError::MalformedFunctionBody);
    }
    match instructions[instructions.len() - 1] {
        Instruction::End => {},
        _ => {
            return Err(DecodeError::MalformedFunctionBody);
        },
    }
    if p3 != window.len() {
        return Err(DecodeError::TrailingBytes);
    }
    Ok(
        FunctionBody {
            locals: ResultType { valueTypes: locals },
            body: Expression { instructions },
        },
    )
}

/// Decodes exactly `count` code entries starting at `pos`.
fn decode_code_entries_at(bytes: &Vec<u8>, pos: usize, count: u32) -> (r: Result<
    (Vec<FunctionBody>, usize),
    DecodeError,
>)
    requires
        pos <= bytes@.len(),
    ensures
        match spec_read_code_entries(bytes@, pos as int, count as nat) {
            Ok((bodies, end)) => r matches Ok(p) && p.0@.map_values(|body: FunctionBody| body@)
                == bodies && p.1 == end,
            Err(e) => r matches Err(e2) && e2 == e,
        },
        r matches Ok(p) ==> pos <= p.1 <= bytes@.len(),
    decreases count,
{
    if count == 0 {
        let bodies: Vec<FunctionBody> = Vec::new();
        proof {
            assert(bodies@.map_values(|body: FunctionBody| body@) =~= Seq::<
                FunctionBodyView,
            >::empty());
        }
        return Ok((bodies, pos));
    }
    let (size, p1) = match decode_u32_at(bytes, pos) {
        Ok(p) => p,
        Err(e) => {
            return Err(e);
        },
    };
    let size = size as usize;
    if bytes.len() - p1 < size {
        return Err(DecodeError::Truncated);
    }
    let window = copy_range(bytes, p1, size);
    let body = match decode_function_body(&window) {
        Ok(body) => body,
        Err(e) => {
            return Err(e);
        },
    };
    match decode_code_entries_at(bytes, p1 + size, count - 1) {
        Err(e) => Err(e),
        Ok((mut rest, end)) => {
            let ghost rest0 = rest@;
            rest.insert(0, body);
            proof {
                assert(rest@.map_values(|body: FunctionBody| body@) =~= seq![body@]
                    + rest0.map_values(|body: FunctionBody| body@));
            }
            Ok((rest, end))
        },
    }
}

} // verus!

use vstd::prelude::*;

use crate::module::errors::DecodeError;

verus! {

/// The numeric value types of the format.  Only `i32` (byte `0x7F`) is
/// recognized by this decoder.
#[derive(Clone, Copy, Debug, PartialEq, Eq, Structural)]
pub enum NumType {
    I32,
}

impl NumType {
    /// The numeric type a byte encodes, if any: `0x7F` is `i32`.
    pub open spec fn spec_from_u8(value: u8) -> Option<NumType> {
        if value == 0x7F {
            Some(NumType::I32)
        } else {
            None
        }
    }

    /// Maps a raw byte to the numeric type it encodes.
    pub fn from_u8(value: u8) -> (r: Option<NumType>)
        ensures
            r == NumType::spec_from_u8(value),
    {
        if value == 0x7F {
            Some(NumType::I32)
        } else {
            None
        }
    }
}

/// A value type, polymorphic over categories; currently only numeric types.
#[derive(Clone, Copy, Debug, PartialEq, Eq, Structural)]
pub enum ValueType {
    Num(NumType),
}

impl ValueType {
    /// The fallible byte-to-value-type mapping: any byte outside the
    /// recognized set is an invalid value type.
    pub open spec fn spec_from_u8(value: u8) -> Result<ValueType, DecodeError> {
        match NumType::spec_from_u8(value) {
            Some(num_type) => Ok(ValueType::Num(num_type)),
            None => Err(DecodeError::InvalidValueType(value)),
        }
    }

    /// Maps a raw byte to the value type it encodes, or reports it invalid.
    pub fn from_u8(value: u8) -> (r: Result<ValueType, DecodeError>)
        ensures
            r == ValueType::spec_from_u8(value),
    {
        match NumType::from_u8(value) {
            Some(num_type) => Ok(ValueType::Num(num_type)),
            None => Err(DecodeError::InvalidValueType(value)),
        }
    }
}

/// An ordered sequence of value types.  Order is significant: positions are
/// argument and result positions.
#[derive(Debug, PartialEq, Eq)]
pub struct ResultType {
    pub valueTypes: Vec<ValueType>,
}

impl View for ResultType {
    type V = Seq<ValueType>;

    open spec fn view(&self) -> Seq<ValueType> {
        self.valueTypes@
    }
}

/// An instruction, tagged by what the opcode byte and any immediates encode.
#[derive(Clone, Copy, Debug, PartialEq, Eq, Structural)]
pub enum Instruction {
    // Variable instructions.
    LocalGet(u32),
    // Numeric instructions.
    I32Add,
    End,
}

/// The raw-byte opcode encoding, mapped one-to-one to instruction tags:
/// `LocalGet` is `0x20`, `I32Add` is `0x6A`, `End` is `0x0B`.
#[derive(Clone, Copy, Debug, PartialEq, Eq, Structural)]
pub enum Opcode {
    // Variable instructions.
    LocalGet,
    // Numeric instructions.
    I32Add,
    End,
}

impl Opcode {
    /// The opcode a byte encodes, if any.  Any other byte during
    /// instruction decoding is invalid.
    pub open spec fn spec_from_u8(value: u8) -> Option<Opcode> {
        if value == 0x20 {
            Some(Opcode::LocalGet)
        } else if value == 0x6A {
            Some(Opcode::I32Add)
        } else if value == 0x0B {
            Some(Opcode::End)
        } else {
            None
        }
    }

    /// Maps a raw byte to the opcode it encodes.
    pub fn from_u8(value: u8) -> (r: Option<Opcode>)
        ensures
            r == Opcode::spec_from_u8(value),
    {
        if value == 0x20 {
            Some(Opcode::LocalGet)
        } else if value == 0x6A {
            Some(Opcode::I32Add)
        } else if value == 0x0B {
            Some(Opcode::End)
        } else {
            None
        }
    }
}

/// An instruction sequence always ending with an explicit `End`
/// instruction; the terminator is part of the data, not implied.
#[derive(Debug, PartialEq, Eq)]
pub struct Expression {
    pub instructions: Vec<Instruction>,
}

impl View for Expression {
    type V = Seq<Instruction>;

    open spec fn view(&self) -> Seq<Instruction> {
        self.instructions@
    }
}

/// The parameter and result value-type vectors of a function type.
#[derive(Debug, PartialEq, Eq)]
pub struct FunctionSignature {
    pub inputs: ResultType,
    pub outputs: ResultType,
}

/// Mathematical model of a function signature.
pub ghost struct FunctionSignatureView {
    pub inputs: Seq<ValueType>,
    pub outputs: Seq<ValueType>,
}

impl View for FunctionSignature {
    type V = FunctionSignatureView;

    open spec fn view(&self) -> FunctionSignatureView {
        FunctionSignatureView { inputs: self.inputs@, outputs: self.outputs@ }
    }
}

/// The locals a function declares beyond its parameters, and its body.
/// The local index space is the parameters (from the signature) followed by
/// these locals, in declaration order.
#[derive(Debug, PartialEq, Eq)]
pub struct FunctionBody {
    pub locals: ResultType,
    pub body: Expression,
}

/// Mathematical model of a function body.
pub ghost struct FunctionBodyView {
    pub locals: Seq<ValueType>,
    pub body: Seq<Instruction>,
}

impl View for FunctionBody {
    type V = FunctionBodyView;

    open spec fn view(&self) -> FunctionBodyView {
        FunctionBodyView { locals: self.locals@, body: self.body@ }
    }
}

} // verus!

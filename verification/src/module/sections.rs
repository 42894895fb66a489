use vstd::prelude::*;

use crate::module::indices::TypeIndex;
use crate::module::types::{FunctionBody, FunctionBodyView, FunctionSignature, FunctionSignatureView};

verus! {

/// The tag identifying a section's kind.  Any id byte outside the
/// recognized set is a decode failure; there is no forward-compatible
/// skipping of unknown sections.
#[derive(Clone, Copy, Debug, PartialEq, Eq, Structural)]
pub enum SectionId {
    Type,
    Function,
    Start,
    Code,
}

impl SectionId {
    /// The section kind a raw id byte encodes, if any: `Type` is `0x01`,
    /// `Function` is `0x03`, `Start` is `0x08`, `Code` is `0x0a`.
    pub open spec fn spec_from_u8(value: u8) -> Option<SectionId> {
        if value == 0x01 {
            Some(SectionId::Type)
        } else if value == 0x03 {
            Some(SectionId::Function)
        } else if value == 0x08 {
            Some(SectionId::Start)
        } else if value == 0x0a {
            Some(SectionId::Code)
        } else {
            None
        }
    }

    /// Maps a raw id byte to the section kind it encodes.
    pub fn from_u8(value: u8) -> (r: Option<SectionId>)
        ensures
            r == SectionId::spec_from_u8(value),
    {
        if value == 0x01 {
            Some(SectionId::Type)
        } else if value == 0x03 {
            Some(SectionId::Function)
        } else if value == 0x08 {
            Some(SectionId::Start)
        } else if value == 0x0a {
            Some(SectionId::Code)
        } else {
            None
        }
    }
}

/// The module's function types, in order; a signature's position is its
/// index in the module's type index space.
#[derive(Debug, PartialEq, Eq)]
pub struct TypeSection {
    pub functionSignatures: Vec<FunctionSignature>,
}

impl View for TypeSection {
    type V = Seq<FunctionSignatureView>;

    open spec fn view(&self) -> Seq<FunctionSignatureView> {
        self.functionSignatures@.map_values(|signature: FunctionSignature| signature@)
    }
}

/// One type index per module-defined function, in order; an entry's
/// position is the function's index in the function index space.
#[derive(Debug, PartialEq, Eq)]
pub struct FunctionSection {
    pub functions: Vec<TypeIndex>,
}

impl View for FunctionSection {
    type V = Seq<TypeIndex>;

    open spec fn view(&self) -> Seq<TypeIndex> {
        self.functions@
    }
}

/// The module's optional entry point: the index of the function to run
/// when the module is instantiated.
#[derive(Debug, PartialEq, Eq)]
pub struct StartSection {
    pub functionIndex: u32,
}

impl View for StartSection {
    type V = u32;

    open spec fn view(&self) -> u32 {
        self.functionIndex
    }
}

/// One function body per entry in the function section, paired by order.
#[derive(Debug, PartialEq, Eq)]
pub struct CodeSection {
    pub functionBodies: Vec<FunctionBody>,
}

impl View for CodeSection {
    type V = Seq<FunctionBodyView>;

    open spec fn view(&self) -> Seq<FunctionBodyView> {
        self.functionBodies@.map_values(|body: FunctionBody| body@)
    }
}

} // verus!

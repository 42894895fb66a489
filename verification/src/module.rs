use vstd::prelude::*;

pub mod errors;
pub mod indices;
pub mod reader;
pub mod sections;
pub mod types;

use crate::module::indices::TypeIndex;
use crate::module::sections::{CodeSection, FunctionSection, StartSection, TypeSection};
use crate::module::types::{FunctionBodyView, FunctionSignatureView};

verus! {

/// The binary format versions this decoder understands.  The version is
/// validated while reading the preamble: anything but version `1` is a
/// hard decode failure.
#[derive(Clone, Copy, Debug, PartialEq, Eq, Structural)]
pub enum BinaryVersion {
    One,
}

impl BinaryVersion {
    /// The version a preamble's little-endian version field encodes, if it
    /// is one this decoder understands.
    pub open spec fn spec_from_u32(value: u32) -> Option<BinaryVersion> {
        if value == 1 {
            Some(BinaryVersion::One)
        } else {
            None
        }
    }

    /// Maps the preamble's version field to a recognized version.
    pub fn from_u32(value: u32) -> (r: Option<BinaryVersion>)
        ensures
            r == BinaryVersion::spec_from_u32(value),
    {
        if value == 1 {
            Some(BinaryVersion::One)
        } else {
            None
        }
    }
}

impl Default for BinaryVersion {
    fn default() -> (r: BinaryVersion)
        ensures
            r == BinaryVersion::One,
    {
        BinaryVersion::One
    }
}

// Programs are organized into modules, which are the unit of deployment,
// loading, and compilation.  A module collects definitions for types and
// functions; an omitted section is equivalent to the section being present
// with empty contents.

/// The decoded artifact: a binary version plus an optional instance of
/// each recognized section.
#[derive(Debug, PartialEq, Eq)]
pub struct Module {
    pub binaryVersion: BinaryVersion,
    pub typeSection: Option<TypeSection>,
    pub functionSection: Option<FunctionSection>,
    pub startSection: Option<StartSection>,
    pub codeSection: Option<CodeSection>,
}

/// Mathematical model of a decoded module.
pub ghost struct ModuleView {
    pub binaryVersion: BinaryVersion,
    pub typeSection: Option<Seq<FunctionSignatureView>>,
    pub functionSection: Option<Seq<TypeIndex>>,
    pub startSection: Option<u32>,
    pub codeSection: Option<Seq<FunctionBodyView>>,
}

impl View for Module {
    type V = ModuleView;

    open spec fn view(&self) -> ModuleView {
        ModuleView {
            binaryVersion: self.binaryVersion,
            typeSection: match self.typeSection {
                Some(ref section) => Some(section@),
                None => None,
            },
            functionSection: match self.functionSection {
                Some(ref section) => Some(section@),
                None => None,
            },
            startSection: match self.startSection {
                Some(ref section) => Some(section@),
                None => None,
            },
            codeSection: match self.codeSection {
                Some(ref section) => Some(section@),
                None => None,
            },
        }
    }
}

impl ModuleView {
    /// The model of a module right after its preamble: the given version
    /// and every section still absent.
    pub open spec fn empty(version: BinaryVersion) -> ModuleView {
        ModuleView {
            binaryVersion: version,
            typeSection: None,
            functionSection: None,
            startSection: None,
            codeSection: None,
        }
    }
}

impl Default for Module {
    fn default() -> (r: Module)
        ensures
            r@ == ModuleView::empty(BinaryVersion::One),
    {
        Module {
            binaryVersion: BinaryVersion::One,
            typeSection: None,
            functionSection: None,
            startSection: None,
            codeSection: None,
        }
    }
}

} // verus!

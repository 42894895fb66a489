use vstd::prelude::*;

verus! {

// Definitions are referenced with zero-based indices.  Each class of
// definition (section) has its own index space: the type index space is the
// order of signatures in the type section, the function index space the
// order of entries in the function section, and so on.

/// A typed index into one of the module's index spaces.
#[derive(Clone, Copy, Debug, PartialEq, Eq, Structural)]
pub enum TypeIndex {
    /// An index into the module's type index space.
    Function(u32),
}

} // verus!

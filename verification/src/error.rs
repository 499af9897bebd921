use vstd::prelude::*;

verus! {

/// What can be wrong with the input of a layout or mesh operation.
#[derive(Debug, Clone, Copy, PartialEq, Eq, Structural)]
pub enum MeshError {
    /// An attribute was declared with no components.
    InvalidLayout,
    /// A vertex index, or the span of an attribute inside a vertex record,
    /// lies outside the buffer.
    IndexOutOfBounds,
    /// The number of values handed over differs from the attribute's size.
    AttributeSizeMismatch,
}

} // verus!

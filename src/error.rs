//! Error kinds of the point container.
use vstd::prelude::*;

verus! {

/// Why a container could not be built.
#[derive(Debug, Clone, Copy, PartialEq, Eq, Structural)]
pub enum GeoArrowError {
    /// The coordinate sequences differ in length, or the validity bitmap does
    /// not have one bit per point.
    ShapeMismatch,
    /// A struct record does not hold exactly two 64-bit float child columns.
    SchemaMismatch,
}

} // verus!

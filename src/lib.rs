//! Columnar, null-aware storage for point geometries, laid out as Arrow's
//! struct-of-coordinates array.
//!
//! Coordinates are carried as the raw 64-bit patterns of IEEE-754 doubles, so
//! every operation here is bit-exact.
pub mod buffers;
pub mod error;
pub mod geometry;
pub mod interop;
pub mod point;
